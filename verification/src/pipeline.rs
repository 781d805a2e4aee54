//! The upload pipeline: per-request bookkeeping for a multipart upload. The
//! unverified shell reads the multipart stream and writes file bytes to disk;
//! every decision — which name a part is stored under, whether the request
//! has exceeded its size cap, what the counters and the JSON reply say — is
//! made here.

use vstd::prelude::*;
use crate::counters::{recorded, recorded_all, sum_sizes, UsageCounters};
use crate::names::{is_first_free, resolve_unique_name, sanitize_filename, sanitized_name_spec,
    seq_views};
use crate::text::{dec_digits, is_allowed_char, u64_to_string};
use vstd::string::*;

verus! {

/// Immutable settings of one server instance.
pub struct ServerConfig {
    pub bind_port: u16,
    pub upload_directory: String,
    pub max_request_bytes: u64,
}

/// Default cap on the total multipart body size of one request.
pub const DEFAULT_MAX_REQUEST_BYTES: u64 = 500_000_000;

/// Why an upload request or a lifecycle operation failed.
#[derive(Debug)]
pub enum UploadError {
    /// The upload directory could not be created.
    Directory,
    /// The chosen port could not be bound.
    Bind,
    /// The multipart body was malformed.
    MultipartParse,
    /// Creating, writing or flushing a destination file failed.
    Io,
    /// The request body exceeded `max_request_bytes`.
    Oversize,
}

/// The fixed description of each failure.
pub open spec fn error_message_spec(e: UploadError) -> Seq<char> {
    match e {
        UploadError::Directory => "failed to create upload directory"@,
        UploadError::Bind => "failed to bind server port"@,
        UploadError::MultipartParse => "malformed multipart body"@,
        UploadError::Io => "file write failed"@,
        UploadError::Oversize => "request body exceeds size limit"@,
    }
}

/// The HTTP status class each per-request failure is reported with.
pub open spec fn error_status_spec(e: UploadError) -> u16 {
    match e {
        UploadError::Directory => 500,
        UploadError::Bind => 500,
        UploadError::MultipartParse => 400,
        UploadError::Io => 500,
        UploadError::Oversize => 413,
    }
}

impl UploadError {
    /// The human-readable description of this failure.
    pub fn message(&self) -> (r: String)
        ensures
            r@ == error_message_spec(*self),
    {
        match self {
            UploadError::Directory => "failed to create upload directory".to_owned(),
            UploadError::Bind => "failed to bind server port".to_owned(),
            UploadError::MultipartParse => "malformed multipart body".to_owned(),
            UploadError::Io => "file write failed".to_owned(),
            UploadError::Oversize => "request body exceeds size limit".to_owned(),
        }
    }

    /// The HTTP status code this failure is reported with.
    pub fn http_status(&self) -> (r: u16)
        ensures
            r == error_status_spec(*self),
    {
        match self {
            UploadError::Directory => 500,
            UploadError::Bind => 500,
            UploadError::MultipartParse => 400,
            UploadError::Io => 500,
            UploadError::Oversize => 413,
        }
    }
}

/// The JSON body answered to the uploading client.
pub struct UploadResponse {
    pub success: bool,
    pub message: String,
    pub files: Vec<String>,
}

/// The success message: "<n> files uploaded".
pub open spec fn upload_message_spec(n: nat) -> Seq<char> {
    dec_digits(n) + " files uploaded"@
}

/// The character for one hexadecimal digit value.
pub open spec fn hex_digit_char_spec(d: nat) -> char {
    if d < 10 {
        crate::text::digit_char_spec(d)
    } else if d == 10 {
        'a'
    } else if d == 11 {
        'b'
    } else if d == 12 {
        'c'
    } else if d == 13 {
        'd'
    } else if d == 14 {
        'e'
    } else {
        'f'
    }
}

/// How one character appears inside a JSON string literal: quote and
/// backslash are escaped, control characters take the `\u00XX` form, and
/// everything else stands as itself.
pub open spec fn escape_char(c: char) -> Seq<char> {
    if c == '"' {
        seq!['\\', '"']
    } else if c == '\\' {
        seq!['\\', '\\']
    } else if (c as u32) < 32 {
        seq!['\\', 'u', '0', '0', hex_digit_char_spec(((c as u32) / 16) as nat),
            hex_digit_char_spec(((c as u32) % 16) as nat)]
    } else {
        seq![c]
    }
}

/// The body of a JSON string literal for `s`.
pub open spec fn json_escaped(s: Seq<char>) -> Seq<char>
    decreases s.len(),
{
    if s.len() == 0 {
        Seq::empty()
    } else {
        json_escaped(s.drop_last()) + escape_char(s.last())
    }
}

/// A JSON string literal for `s`, quotes included.
pub open spec fn json_string(s: Seq<char>) -> Seq<char> {
    seq!['"'] + json_escaped(s) + seq!['"']
}

/// The comma-separated items of a JSON array of strings.
pub open spec fn json_items(names: Seq<Seq<char>>) -> Seq<char>
    decreases names.len(),
{
    if names.len() == 0 {
        Seq::empty()
    } else if names.len() == 1 {
        json_string(names[0])
    } else {
        json_items(names.drop_last()) + seq![','] + json_string(names.last())
    }
}

/// A JSON array of string literals.
pub open spec fn json_string_array(names: Seq<Seq<char>>) -> Seq<char> {
    seq!['['] + json_items(names) + seq![']']
}

/// The exact JSON reply body: `{"success":...,"message":...,"files":[...]}`.
pub open spec fn response_json_spec(r: UploadResponse) -> Seq<char> {
    "{\"success\":"@ + (if r.success {
        "true"@
    } else {
        "false"@
    }) + ",\"message\":"@ + json_string(r.message@) + ",\"files\":"@ + json_string_array(
        seq_views(r.files@),
    ) + "}"@
}

/// One hexadecimal digit value as a character.
fn hex_digit_char(d: u32) -> (c: char)
    requires
        d < 16,
    ensures
        c == hex_digit_char_spec(d as nat),
{
    match d {
        0 => '0',
        1 => '1',
        2 => '2',
        3 => '3',
        4 => '4',
        5 => '5',
        6 => '6',
        7 => '7',
        8 => '8',
        9 => '9',
        10 => 'a',
        11 => 'b',
        12 => 'c',
        13 => 'd',
        14 => 'e',
        _ => 'f',
    }
}

/// Appends the JSON string literal for `s`, quotes and escapes included.
fn append_json_string(out: &mut String, s: &str)
    ensures
        final(out)@ == old(out)@ + json_string(s@),
{
    crate::text::push_char(out, '"');
    let len = s.unicode_len();
    let ghost start = out@;
    let mut k: usize = 0;
    while k < len
        invariant
            k <= len,
            len == s@.len(),
            out@ == start + json_escaped(s@.subrange(0, k as int)),
        decreases len - k,
    {
        let c = s.get_char(k);
        proof {
            let pre = s@.subrange(0, k as int);
            let ext = s@.subrange(0, k + 1 as int);
            assert(ext.drop_last() =~= pre);
            assert(ext.last() == s@[k as int]);
        }
        let u = c as u32;
        if c == '"' {
            crate::text::push_char(out, '\\');
            crate::text::push_char(out, '"');
        } else if c == '\\' {
            crate::text::push_char(out, '\\');
            crate::text::push_char(out, '\\');
        } else if u < 32 {
            crate::text::push_char(out, '\\');
            crate::text::push_char(out, 'u');
            crate::text::push_char(out, '0');
            crate::text::push_char(out, '0');
            crate::text::push_char(out, hex_digit_char(u / 16));
            crate::text::push_char(out, hex_digit_char(u % 16));
        } else {
            crate::text::push_char(out, c);
        }
        assert(out@ =~= start + json_escaped(s@.subrange(0, k + 1 as int)));
        k = k + 1;
    }
    assert(s@.subrange(0, len as int) =~= s@);
    crate::text::push_char(out, '"');
    assert(final(out)@ =~= old(out)@ + json_string(s@));
}

/// Renders the JSON reply body for a pipeline result, exactly in the wire
/// format the uploading client sees.
pub fn response_json(r: &UploadResponse) -> (out: String)
    ensures
        out@ == response_json_spec(*r),
{
    let mut out = "{\"success\":".to_owned();
    if r.success {
        out.append("true");
    } else {
        out.append("false");
    }
    out.append(",\"message\":");
    append_json_string(&mut out, r.message.as_str());
    out.append(",\"files\":");
    crate::text::push_char(&mut out, '[');
    let ghost with_bracket = out@;
    let mut k: usize = 0;
    while k < r.files.len()
        invariant
            k <= r.files@.len(),
            out@ == with_bracket + json_items(seq_views(r.files@).subrange(0, k as int)),
        decreases r.files@.len() - k,
    {
        if k > 0 {
            crate::text::push_char(&mut out, ',');
        }
        append_json_string(&mut out, r.files[k].as_str());
        proof {
            let views = seq_views(r.files@);
            let pre = views.subrange(0, k as int);
            let ext = views.subrange(0, k + 1 as int);
            assert(ext.drop_last() =~= pre);
            assert(ext.last() == views[k as int]);
            assert(out@ =~= with_bracket + json_items(ext));
        }
        k = k + 1;
    }
    assert(seq_views(r.files@).subrange(0, r.files@.len() as int) =~= seq_views(r.files@));
    out.append("]}");
    proof {
        reveal_strlit("]}");
        reveal_strlit("]");
        reveal_strlit("}");
        assert(out@ =~= response_json_spec(*r));
    }
    out
}

/// The reply for a failed request: `success` false and the error's message.
pub fn error_response(e: &UploadError) -> (r: UploadResponse)
    ensures
        r.success == false,
        r.message@ == error_message_spec(*e),
        r.files@.len() == 0,
{
    UploadResponse { success: false, message: e.message(), files: Vec::new() }
}

/// Bookkeeping for one `POST /upload` request. The shell drives it part by
/// part: `begin_part` picks the storage name, `note_chunk` accounts every
/// chunk against the size cap before it is written, `finish_part` records a
/// completed file, and `response` builds the reply.
pub struct RequestState {
    /// Names unavailable for new files: the directory listing taken when the
    /// request began, plus every name this request has handed out.
    pub taken: Vec<String>,
    /// Resolved names of the parts completed so far, in order.
    pub files: Vec<String>,
    /// Total body bytes accounted so far across all parts.
    pub body_bytes: u64,
    /// Bytes accounted to the currently open part.
    pub part_bytes: u64,
    /// The storage name of the currently open part, if one is open.
    pub current: Option<String>,
    /// The request size cap, from the server configuration.
    pub max_request_bytes: u64,
}

impl RequestState {
    /// The bookkeeping stays inside its bounds.
    pub open spec fn wf(self) -> bool {
        &&& self.body_bytes <= self.max_request_bytes
        &&& self.part_bytes <= self.body_bytes
    }

    /// Starts bookkeeping for one request against a directory whose entries
    /// are `existing`.
    pub fn new(existing: Vec<String>, max_request_bytes: u64) -> (s: RequestState)
        ensures
            s.taken == existing,
            s.files@.len() == 0,
            s.body_bytes == 0,
            s.part_bytes == 0,
            s.current is None,
            s.max_request_bytes == max_request_bytes,
            s.wf(),
    {
        RequestState {
            taken: existing,
            files: Vec::new(),
            body_bytes: 0,
            part_bytes: 0,
            current: None,
            max_request_bytes,
        }
    }

    /// Opens a part that declared `declared` (or nothing) as its filename and
    /// picks the name it will be stored under: the declared name sanitized,
    /// then steered clear of every taken name. The name is reserved at once,
    /// so a later part of the same request cannot get it again.
    pub fn begin_part(&mut self, declared: Option<&str>) -> (name: String)
        requires
            old(self).current is None,
            old(self).taken@.len() < usize::MAX,
        ensures
            is_first_free(
                seq_views(old(self).taken@),
                sanitized_name_spec(declared_seq(declared)),
                name@,
            ),
            name@.len() > 0,
            forall|k: int| 0 <= k < name@.len() ==> is_allowed_char(#[trigger] name@[k]),
            final(self).taken@ == old(self).taken@.push(name),
            final(self).current == Some(name),
            final(self).part_bytes == 0,
            final(self).files == old(self).files,
            final(self).body_bytes == old(self).body_bytes,
            final(self).max_request_bytes == old(self).max_request_bytes,
    {
        let sanitized = match declared {
            Some(s) => sanitize_filename(s),
            None => sanitize_filename(""),
        };
        proof {
            reveal_strlit("");
            if declared is None {
                assert(declared_seq(declared) =~= ""@);
            }
        }
        let name = resolve_unique_name(&self.taken, &sanitized);
        self.taken.push(name.clone());
        self.current = Some(name.clone());
        self.part_bytes = 0;
        name
    }

    /// Accounts `len` incoming body bytes against the request cap, before
    /// they are written to disk. Accepts exactly while the running total
    /// stays within `max_request_bytes`; beyond it the request is rejected
    /// with `Oversize` and the bookkeeping is left unchanged.
    pub fn note_chunk(&mut self, len: u64) -> (r: Result<(), UploadError>)
        requires
            old(self).wf(),
        ensures
            final(self).wf(),
            old(self).body_bytes + len <= old(self).max_request_bytes ==> (r is Ok && *final(self)
                == RequestState {
                body_bytes: (old(self).body_bytes + len) as u64,
                part_bytes: (old(self).part_bytes + len) as u64,
                ..*old(self)
            }),
            old(self).body_bytes + len > old(self).max_request_bytes ==> (r matches Err(
                UploadError::Oversize,
            ) && *final(self) == *old(self)),
    {
        if len <= self.max_request_bytes - self.body_bytes {
            self.body_bytes = self.body_bytes + len;
            self.part_bytes = self.part_bytes + len;
            Ok(())
        } else {
            Err(UploadError::Oversize)
        }
    }

    /// Closes the open part after its last byte reached the disk: its name
    /// joins the reply's file list and the usage counters advance by one file
    /// and by the part's bytes. A part that failed instead is simply never
    /// finished: the counters then never see it.
    pub fn finish_part(&mut self, counters: &mut UsageCounters)
        requires
            old(self).current is Some,
        ensures
            final(self).files@ == old(self).files@.push(old(self).current.unwrap()),
            final(self).current is None,
            final(self).part_bytes == 0,
            final(self).taken == old(self).taken,
            final(self).body_bytes == old(self).body_bytes,
            final(self).max_request_bytes == old(self).max_request_bytes,
            *final(counters) == recorded(*old(counters), old(self).part_bytes),
    {
        let name = self.current.take().unwrap();
        self.files.push(name);
        counters.record_upload(self.part_bytes);
        self.part_bytes = 0;
    }

    /// The reply for a request whose parts all completed: `success` true, the
    /// message naming how many files arrived, and their storage names in
    /// order of arrival.
    pub fn response(self) -> (r: UploadResponse)
        requires
            self.current is None,
        ensures
            r.success == true,
            r.message@ == upload_message_spec(self.files@.len() as nat),
            r.files == self.files,
    {
        let n = self.files.len();
        let message = u64_to_string(n as u64).concat(" files uploaded");
        UploadResponse { success: true, message, files: self.files }
    }
}

/// The characters a part declared as its filename: none count as an empty
/// declaration.
pub open spec fn declared_seq(declared: Option<&str>) -> Seq<char> {
    match declared {
        Some(s) => s@,
        None => Seq::empty(),
    }
}

/// One part of a multipart request, as the pipeline sees it: the filename
/// the client declared, if any, and how many body bytes the part carries.
/// The bytes themselves go straight to disk and never through the pipeline.
pub struct UploadPart {
    pub declared_filename: Option<String>,
    pub size: u64,
}

/// The body sizes of a part list, in order.
pub open spec fn part_sizes(parts: Seq<UploadPart>) -> Seq<u64> {
    parts.map_values(|p: UploadPart| p.size)
}

/// The characters a part declared as its filename; none count as an empty
/// declaration.
pub open spec fn part_declared(p: UploadPart) -> Seq<char> {
    match p.declared_filename {
        Some(s) => s@,
        None => Seq::empty(),
    }
}

/// The naming contract of a whole request: the `j`-th stored name is the
/// `j`-th part's declared name, sanitized, resolved against the directory
/// listing plus every name the earlier parts took.
pub open spec fn files_resolve_parts(
    existing: Seq<String>,
    parts: Seq<UploadPart>,
    files: Seq<String>,
    upto: int,
) -> bool {
    forall|j: int|
        0 <= j < upto ==> is_first_free(
            seq_views(existing + files.subrange(0, j)),
            sanitized_name_spec(part_declared(parts[j])),
            #[trigger] seq_views(files)[j],
        )
}

/// Handles one whole request whose parts all arrived intact: each part in
/// order gets a storage name that collides neither with the directory
/// listing `existing` nor with any earlier part, sizes are accounted against
/// the cap, and the counters advance once per completed part. Succeeds
/// exactly when the body fits the cap; an oversize request is rejected where
/// it crosses the cap, with only the parts before that point counted.
pub fn process_parts(
    existing: Vec<String>,
    parts: &Vec<UploadPart>,
    max_request_bytes: u64,
    counters: &mut UsageCounters,
) -> (r: Result<UploadResponse, UploadError>)
    requires
        existing@.len() + parts@.len() < usize::MAX,
    ensures
        r is Ok <==> sum_sizes(part_sizes(parts@)) <= max_request_bytes,
        r matches Ok(resp) ==> {
            &&& resp.success == true
            &&& resp.message@ == upload_message_spec(parts@.len() as nat)
            &&& resp.files@.len() == parts@.len()
            &&& seq_views(resp.files@).no_duplicates()
            &&& forall|j: int|
                0 <= j < parts@.len() ==> crate::names::valid_stored_name(
                    #[trigger] seq_views(resp.files@)[j],
                )
            &&& forall|j: int|
                0 <= j < parts@.len() ==> !seq_views(existing@).contains(
                    #[trigger] seq_views(resp.files@)[j],
                )
            &&& files_resolve_parts(existing@, parts@, resp.files@, parts@.len() as int)
            &&& *final(counters) == recorded_all(*old(counters), part_sizes(parts@))
        },
        r matches Err(e) ==> {
            &&& e is Oversize
            &&& exists|k: int|
                0 <= k < parts@.len() && sum_sizes(part_sizes(parts@).take(k))
                    <= max_request_bytes && sum_sizes(#[trigger] part_sizes(parts@).take(k + 1))
                    > max_request_bytes && *final(counters) == recorded_all(
                    *old(counters),
                    part_sizes(parts@).take(k),
                )
        },
{
    let ghost c0 = *counters;
    let ghost existing0 = existing@;
    let mut state = RequestState::new(existing, max_request_bytes);
    let mut k: usize = 0;
    while k < parts.len()
        invariant
            k <= parts@.len(),
            c0 == *old(counters),
            existing0 == existing@,
            existing0.len() + parts@.len() < usize::MAX,
            state.current is None,
            state.max_request_bytes == max_request_bytes,
            state.wf(),
            state.taken@ == existing0 + state.files@,
            state.files@.len() == k,
            state.body_bytes as int == sum_sizes(part_sizes(parts@).take(k as int)),
            *counters == recorded_all(c0, part_sizes(parts@).take(k as int)),
            seq_views(state.files@).no_duplicates(),
            forall|j: int|
                0 <= j < k ==> crate::names::valid_stored_name(
                    #[trigger] seq_views(state.files@)[j],
                ),
            forall|j: int|
                0 <= j < k ==> !seq_views(existing0).contains(
                    #[trigger] seq_views(state.files@)[j],
                ),
            files_resolve_parts(existing0, parts@, state.files@, k as int),
        decreases parts@.len() - k,
    {
        let part = &parts[k];
        let declared: Option<&str> = match &part.declared_filename {
            Some(s) => Some(s.as_str()),
            None => None,
        };
        let ghost taken_before = state.taken@;
        let ghost files_before = state.files@;
        let name = state.begin_part(declared);
        proof {
            lemma_fresh_name(taken_before, declared_seq(declared), name@);
        }
        match state.note_chunk(part.size) {
            Ok(()) => {},
            Err(e) => {
                proof {
                    crate::counters::lemma_sum_sizes_snoc(part_sizes(parts@), k as int);
                    assert(part_sizes(parts@)[k as int] == parts@[k as int].size);
                    assert(sum_sizes(part_sizes(parts@).take(k as int + 1))
                        > max_request_bytes);
                    crate::counters::lemma_sum_take_bound(part_sizes(parts@), k as int + 1);
                }
                return Err(e);
            },
        }
        state.finish_part(counters);
        proof {
            crate::counters::lemma_sum_sizes_snoc(part_sizes(parts@), k as int);
            crate::counters::lemma_recorded_all_snoc(c0, part_sizes(parts@), k as int);
            assert(part_sizes(parts@)[k as int] == parts@[k as int].size);
            assert(state.files@ == files_before.push(name));
            assert(seq_views(state.files@) =~= seq_views(files_before).push(name@));
            assert(state.taken@ =~= existing0 + state.files@);
            lemma_views_of_concat(existing0, files_before);
            assert forall|p: int, q: int|
                0 <= p < q < seq_views(state.files@).len() implies seq_views(state.files@)[p]
                != seq_views(state.files@)[q] by {
                if q == k {
                    assert(seq_views(taken_before).contains(seq_views(files_before)[p])) by {
                        assert(seq_views(taken_before)[existing0.len() + p] == seq_views(
                            files_before,
                        )[p]);
                    }
                }
            }
            assert forall|j: int| 0 <= j < k + 1 implies !seq_views(existing0).contains(
                #[trigger] seq_views(state.files@)[j],
            ) by {
                if j == k {
                    if seq_views(existing0).contains(name@) {
                        let w = choose|w: int|
                            0 <= w < existing0.len() && seq_views(existing0)[w] == name@;
                        assert(seq_views(taken_before)[w] == name@);
                    }
                }
            }
            assert(declared_seq(declared) == part_declared(parts@[k as int]));
            assert forall|j: int| 0 <= j < k + 1 implies is_first_free(
                seq_views(existing0 + state.files@.subrange(0, j)),
                sanitized_name_spec(part_declared(parts@[j])),
                #[trigger] seq_views(state.files@)[j],
            ) by {
                if j < k {
                    assert(state.files@.subrange(0, j) =~= files_before.subrange(0, j));
                    assert(seq_views(state.files@)[j] == seq_views(files_before)[j]);
                } else {
                    assert(existing0 + state.files@.subrange(0, k as int) =~= taken_before);
                    assert(seq_views(state.files@)[j] == name@);
                }
            }
            assert(files_resolve_parts(existing0, parts@, state.files@, k as int + 1));
        }
        k = k + 1;
    }
    proof {
        assert(part_sizes(parts@).take(parts@.len() as int) =~= part_sizes(parts@));
    }
    Ok(state.response())
}

/// The name collision resolution hands out is never one of the taken names.
proof fn lemma_fresh_name(taken: Seq<String>, declared: Seq<char>, name: Seq<char>)
    requires
        is_first_free(seq_views(taken), sanitized_name_spec(declared), name),
    ensures
        !seq_views(taken).contains(name),
{
    let sn = sanitized_name_spec(declared);
    if !seq_views(taken).contains(sn) {
    } else {
        let i = choose|i: nat|
            1 <= i && #[trigger] crate::names::first_free_index(seq_views(taken), sn, i) && name
                == crate::names::candidate_spec(sn, i);
    }
}

/// Views distribute over concatenation of name lists.
proof fn lemma_views_of_concat(a: Seq<String>, b: Seq<String>)
    ensures
        seq_views(a + b) =~= seq_views(a) + seq_views(b),
{
}

} // verus!
