//! The QR image for the access URL. The QR module matrix, the PNG encoding
//! and the base64 rendering come from outside libraries; turning the matrix
//! into RGBA pixels — scaling each module to a 4x4 block inside a 2-module
//! quiet zone — is this crate's own logic and is verified exactly.

use vstd::prelude::*;
use vstd::string::*;

verus! {

/// Pixels per side of the rendered image: each module is 4 pixels wide and a
/// 2-module quiet zone surrounds the code on every side.
pub open spec fn pixel_side(size: nat) -> nat {
    (size + 4) * 4
}

/// Whether the image pixel at `(x, y)` lies on a dark module: the pixel maps
/// to module `(x/4 - 2, y/4 - 2)`, and pixels outside the matrix (the quiet
/// zone) are light.
pub open spec fn is_dark(modules: Seq<bool>, size: nat, x: int, y: int) -> bool {
    let mx = x / 4 - 2;
    let my = y / 4 - 2;
    0 <= mx < size && 0 <= my < size && modules[my * size + mx]
}

/// The four RGBA bytes of one image pixel: opaque black on a dark module,
/// opaque white elsewhere.
pub open spec fn pixel_rgba(modules: Seq<bool>, size: nat, x: int, y: int) -> Seq<u8> {
    if is_dark(modules, size, x, y) {
        seq![0u8, 0u8, 0u8, 255u8]
    } else {
        seq![255u8, 255u8, 255u8, 255u8]
    }
}

/// The RGBA bytes of the first `count` pixels in row-major order.
pub open spec fn pixels_upto(modules: Seq<bool>, size: nat, count: nat) -> Seq<u8>
    decreases count,
{
    if count == 0 {
        Seq::empty()
    } else {
        let p = (count - 1) as int;
        let side = pixel_side(size) as int;
        pixels_upto(modules, size, (count - 1) as nat) + pixel_rgba(
            modules,
            size,
            p % side,
            p / side,
        )
    }
}

/// The whole rendered image, row-major RGBA.
pub open spec fn qr_pixels_spec(modules: Seq<bool>, size: nat) -> Seq<u8> {
    pixels_upto(modules, size, (pixel_side(size) * pixel_side(size)) as nat)
}

/// Four bytes per pixel.
pub proof fn lemma_pixels_upto_len(modules: Seq<bool>, size: nat, count: nat)
    ensures
        pixels_upto(modules, size, count).len() == 4 * count,
    decreases count,
{
    if count > 0 {
        lemma_pixels_upto_len(modules, size, (count - 1) as nat);
    }
}

/// The four bytes at slot `p` of the rendered prefix are exactly the RGBA
/// bytes of pixel `(p mod side, p div side)`.
pub proof fn lemma_pixels_upto_index(modules: Seq<bool>, size: nat, count: nat, p: int)
    requires
        0 <= p < count,
    ensures
        pixels_upto(modules, size, count).subrange(4 * p, 4 * p + 4) == pixel_rgba(
            modules,
            size,
            p % (pixel_side(size) as int),
            p / (pixel_side(size) as int),
        ),
    decreases count,
{
    lemma_pixels_upto_len(modules, size, (count - 1) as nat);
    let pre = pixels_upto(modules, size, (count - 1) as nat);
    let last = pixel_rgba(
        modules,
        size,
        (count - 1) as int % (pixel_side(size) as int),
        (count - 1) as int / (pixel_side(size) as int),
    );
    if p == count - 1 {
        assert((pre + last).subrange(4 * p, 4 * p + 4) =~= last);
    } else {
        lemma_pixels_upto_index(modules, size, (count - 1) as nat, p);
        assert((pre + last).subrange(4 * p, 4 * p + 4) =~= pre.subrange(4 * p, 4 * p + 4));
    }
}

/// Renders a QR module matrix into a square RGBA image, each module a 4x4
/// pixel block, with a 2-module light quiet zone on every side.
pub fn render_qr_pixels(modules: &Vec<bool>, size: usize) -> (pixels: Vec<u8>)
    requires
        modules@.len() == size * size,
        size <= 177,
    ensures
        pixels@ == qr_pixels_spec(modules@, size as nat),
{
    let n = modules.len();
    let side = (size + 4) * 4;
    proof {
        assert(side * side <= 724 * 724) by (nonlinear_arith)
            requires
                side <= 724,
        ;
    }
    let total = side * side;
    let mut pixels: Vec<u8> = Vec::new();
    let mut p: usize = 0;
    while p < total
        invariant
            p <= total,
            size <= 177,
            side == pixel_side(size as nat),
            total == side * side,
            n == modules@.len(),
            modules@.len() == size * size,
            pixels@ == pixels_upto(modules@, size as nat, p as nat),
        decreases total - p,
    {
        let x = p % side;
        let y = p / side;
        let qx = x / 4;
        let qy = y / 4;
        let dark = if qx >= 2 && qy >= 2 && qx - 2 < size && qy - 2 < size {
            let mx = qx - 2;
            let my = qy - 2;
            proof {
                assert(my * size + mx < size * size) by (nonlinear_arith)
                    requires
                        mx < size,
                        my < size,
                ;
                assert(size * size == n);
            }
            modules[my * size + mx]
        } else {
            false
        };
        proof {
            assert(dark == is_dark(modules@, size as nat, x as int, y as int));
        }
        if dark {
            pixels.push(0);
            pixels.push(0);
            pixels.push(0);
            pixels.push(255);
        } else {
            pixels.push(255);
            pixels.push(255);
            pixels.push(255);
            pixels.push(255);
        }
        proof {
            assert(x as int == (p as int) % (side as int));
            assert(y as int == (p as int) / (side as int));
            assert(pixels@ =~= pixels_upto(modules@, size as nat, (p + 1) as nat));
        }
        p = p + 1;
    }
    pixels
}

/// The module matrix the QR library derives from a text; a pure function of
/// the text.
pub uninterp spec fn qr_modules_of(data: Seq<char>) -> Seq<bool>;

/// Whether a text fits a QR code at all; a pure function of the text
/// (construction fails exactly on text too long to encode).
pub uninterp spec fn qr_fits(data: Seq<char>) -> bool;

/// Whether `w` is the side of the square matrix the QR library derives from
/// a text.
pub open spec fn is_qr_side(data: Seq<char>, w: nat) -> bool {
    w * w == qr_modules_of(data).len() && w <= 177
}

/// The width of the matrix the QR library chose for a text: the unique side
/// of its square module count.
pub open spec fn qr_width_of(data: Seq<char>) -> nat {
    choose|w: nat| is_qr_side(data, w)
}

/// A square with a bounded side determines that side.
pub proof fn lemma_qr_width_unique(data: Seq<char>, s: nat)
    requires
        s * s == qr_modules_of(data).len(),
        s <= 177,
    ensures
        qr_width_of(data) == s,
{
    assert(is_qr_side(data, s));
    let w = qr_width_of(data);
    assert(is_qr_side(data, w));
    assert(w == s) by (nonlinear_arith)
        requires
            w * w == s * s,
            w <= 177,
            s <= 177,
    ;
}

/// Relies on `qrcode::QrCode::new` (error-correction level M, smallest
/// fitting version), `QrCode::width` and `QrCode::to_colors`: the module
/// matrix is a function of the encoded text alone, square, and at most
/// 177 modules wide (QR version 40); construction succeeds or fails on the
/// text alone, failing exactly on text too long to encode.
#[verifier::external_body]
fn qr_matrix(url: &str) -> (r: Result<(Vec<bool>, usize), String>)
    ensures
        r is Ok <==> qr_fits(url@),
        r matches Ok((m, s)) ==> m@ == qr_modules_of(url@) && m@.len() == s * s && s <= 177,
{
    match qrcode::QrCode::new(url) {
        Ok(code) => {
            let s = code.width();
            let m = code.to_colors().into_iter().map(|c| c == qrcode::Color::Dark).collect();
            Ok((m, s))
        },
        Err(e) => Err(format!("Failed to create QR code: {}", e)),
    }
}

/// The PNG encoding of a square RGBA image; a pure function of the pixel
/// bytes and the side length.
pub uninterp spec fn png_of(pixels: Seq<u8>, side: nat) -> Seq<u8>;

/// Relies on `png::Encoder` with RGBA color and eight-bit depth: the
/// encoding is deterministic, a function of the pixel bytes and dimensions
/// alone, and writing to a `Vec` cannot fail when the dimensions are
/// nonzero and the buffer holds exactly four bytes per pixel. The side
/// bound (the largest rendered QR image) keeps the encoder's row-bytes
/// times height product, which it multiplies unchecked, inside `usize`.
#[verifier::external_body]
fn encode_png_rgba(pixels: &Vec<u8>, side: u32) -> (r: Result<Vec<u8>, String>)
    requires
        side <= 724,
    ensures
        r matches Ok(d) ==> d@ == png_of(pixels@, side as nat),
        (side > 0 && pixels@.len() == 4 * (side as nat) * (side as nat)) ==> r is Ok,
{
    let mut data: Vec<u8> = Vec::new();
    {
        let mut encoder = png::Encoder::new(&mut data, side, side);
        encoder.set_color(png::ColorType::Rgba);
        encoder.set_depth(png::BitDepth::Eight);
        let mut writer = encoder.write_header().map_err(|e| format!("PNG encode error: {}", e))?;
        writer.write_image_data(pixels).map_err(|e| format!("PNG write error: {}", e))?;
    }
    Ok(data)
}

/// The base64 rendering of a byte string; a pure function of the bytes.
pub uninterp spec fn base64_of(data: Seq<u8>) -> Seq<char>;

/// Relies on base64's standard-alphabet engine with padding: deterministic,
/// four output characters for every three input bytes rounded up. The input
/// bound keeps the output length well inside `usize`, where the engine would
/// abort.
#[verifier::external_body]
fn base64_encode(data: &Vec<u8>) -> (r: String)
    requires
        data@.len() <= 1_000_000_000,
    ensures
        r@ == base64_of(data@),
        r@.len() == 4 * ((data@.len() + 2) / 3),
{
    base64::Engine::encode(&base64::engine::general_purpose::STANDARD, data)
}

/// The base64 text of the rendered QR image for a text, given the matrix
/// width the QR library chose.
pub open spec fn qr_base64_spec(url: Seq<char>, w: nat) -> Seq<char> {
    base64_of(png_of(qr_pixels_spec(qr_modules_of(url), w), pixel_side(w)))
}

/// When the QR image pipeline succeeds: the text fits a QR code, and the
/// PNG of its rendered image stays within the base64 input bound (which
/// every real QR image, at most 724 pixels a side, does by a wide margin).
pub open spec fn qr_encodes(url: Seq<char>) -> bool {
    &&& qr_fits(url)
    &&& png_of(
        qr_pixels_spec(qr_modules_of(url), qr_width_of(url)),
        pixel_side(qr_width_of(url)),
    ).len() <= 1_000_000_000
}

/// Encodes `url` as a QR code and returns the PNG image base64-encoded:
/// succeeds exactly when `qr_encodes` holds of the text, and then the
/// result is the named base64 of the named PNG of the exactly rendered
/// pixels of the named matrix.
pub fn generate_qr_code(url: &str) -> (r: Result<String, String>)
    ensures
        r is Ok <==> qr_encodes(url@),
        r matches Ok(s) ==> s@ == qr_base64_spec(url@, qr_width_of(url@)),
{
    let (modules, size) = match qr_matrix(url) {
        Ok(p) => p,
        Err(e) => {
            return Err(e);
        },
    };
    proof {
        lemma_qr_width_unique(url@, size as nat);
    }
    let pixels = render_qr_pixels(&modules, size);
    let side = (size + 4) * 4;
    proof {
        lemma_pixels_upto_len(
            modules@,
            size as nat,
            (pixel_side(size as nat) * pixel_side(size as nat)) as nat,
        );
        assert(pixels@.len() == 4 * (side as nat) * (side as nat)) by (nonlinear_arith)
            requires
                pixels@.len() == 4 * ((side as nat) * (side as nat)),
        ;
    }
    let png = match encode_png_rgba(&pixels, side as u32) {
        Ok(d) => d,
        Err(e) => {
            proof {
                assert(false);
            }
            return Err(e);
        },
    };
    if png.len() > 1_000_000_000 {
        return Err("QR image too large".to_owned());
    }
    let b64 = base64_encode(&png);
    Ok(b64)
}

/// The data-URL prefix for an inline PNG image.
pub open spec fn data_url_prefix() -> Seq<char> {
    "data:image/png;base64,"@
}

/// Encodes `url` as a QR code and returns the image as a PNG data URL, ready
/// for an `img` tag: succeeds exactly when `generate_qr_code` does, and then
/// the result is its base64 text behind the fixed `data:image/png;base64,`
/// prefix.
pub fn qr_to_data_url(url: &str) -> (r: Result<String, String>)
    ensures
        r is Ok <==> qr_encodes(url@),
        r matches Ok(s) ==> s@ == data_url_prefix() + qr_base64_spec(url@, qr_width_of(url@)),
{
    let b64 = match generate_qr_code(url) {
        Ok(b) => b,
        Err(e) => {
            return Err(e);
        },
    };
    let mut out = "data:image/png;base64,".to_owned();
    out.append(b64.as_str());
    Ok(out)
}

} // verus!
