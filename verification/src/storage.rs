//! Where uploads land: a fixed subdirectory of the platform's downloads
//! location. Only the lookup of the downloads directory itself is the
//! platform's; appending the subdirectory is verified, and the shell falls
//! back to a temporary location when the platform reports none.

use vstd::prelude::*;
use vstd::string::*;

verus! {

/// The fixed subdirectory uploads land in, with its leading separator.
pub open spec fn upload_subdir() -> Seq<char> {
    "/LocalSend"@
}

/// Relies on `dirs::download_dir` for the platform's downloads directory,
/// rendered as a string; which directory that is (or whether one is known at
/// all) depends on the machine, so nothing is promised of the result.
#[verifier::external_body]
fn download_dir_string() -> (r: Option<String>)
{
    dirs::download_dir().map(|p| p.to_string_lossy().to_string())
}

/// The upload directory under a given base directory.
pub fn upload_dir_under(base: &str) -> (r: String)
    ensures
        r@ == base@ + upload_subdir(),
{
    let mut out = base.to_owned();
    out.append("/LocalSend");
    out
}

/// The default upload directory: the `LocalSend` subdirectory of the
/// platform's downloads directory, or none when the platform reports no
/// downloads directory (the shell then picks its own base).
pub fn get_upload_dir() -> (r: Option<String>)
    ensures
        r matches Some(d) ==> d@.len() >= upload_subdir().len() && d@.subrange(
            d@.len() - upload_subdir().len(),
            d@.len() as int,
        ) == upload_subdir(),
{
    match download_dir_string() {
        Some(base) => {
            let d = upload_dir_under(base.as_str());
            proof {
                assert(d@.subrange(
                    d@.len() - upload_subdir().len(),
                    d@.len() as int,
                ) =~= upload_subdir());
            }
            Some(d)
        },
        None => None,
    }
}

} // verus!
