//! Pipeline support that needs no model: the context for resolving model
//! paths through bundles and components, reading the GPU memory report
//! that `nvidia-smi` prints, deciding on staged model loading, and the
//! base64 JPEG previews sent while an image is generated.
use vstd::prelude::*;
use crate::lines::{lines_of, split_on, split_text, text_lines, trimmed};
use crate::numbers::{parse_u64_spec, parse_u64_text};
use crate::text::{str_equal, trim};

verus! {

/// Bundle or component identifiers used to resolve model paths.
#[derive(Debug, Clone)]
pub struct BundleContext {
    pub bundle_id: Option<String>,
    pub model_component_id: Option<String>,
    pub t5_component_id: Option<String>,
    pub clip_component_id: Option<String>,
    pub vae_component_id: Option<String>,
}

/// Bytes in a mebibyte: `nvidia-smi` reports memory in MiB.
pub const MIB: u64 = 1048576;

/// The first line of a report, or nothing where it has none.
pub open spec fn first_line(report: Seq<char>) -> Seq<char> {
    let lines = lines_of(report);
    if lines.len() > 0 {
        lines[0]
    } else {
        Seq::<char>::empty()
    }
}

/// The used and total memory, in MiB, that the first line of a
/// `--format=csv,noheader,nounits` report gives: its first two
/// comma-separated fields, trimmed, each a `u64`.
pub open spec fn reported_mib(report: Seq<char>) -> Option<(u64, u64)> {
    let parts = split_on(first_line(report), ',');
    if parts.len() >= 2 {
        match (parse_u64_spec(trim(parts[0])), parse_u64_spec(trim(parts[1]))) {
            (Some(used), Some(total)) => Some((used, total)),
            _ => None,
        }
    } else {
        None
    }
}

/// The figures of a report, where it has them, are small enough to be
/// turned into bytes.
pub open spec fn report_fits_bytes(report: Seq<char>) -> bool {
    match reported_mib(report) {
        Some((used, total)) => used * MIB <= u64::MAX && total * MIB <= u64::MAX,
        None => true,
    }
}

/// Reads the figures of a report as MiB, where its first line holds two.
pub fn reported_mib_of(report: &str) -> (r: Option<(u64, u64)>)
    ensures
        r == reported_mib(report@),
{
    let lines = text_lines(report);
    let line: String = if lines.len() > 0 {
        lines[0].clone()
    } else {
        String::new()
    };
    assert(line@ == first_line(report@)) by {
        if lines.len() > 0 {
            assert(lines@[0]@ == lines_of(report@)[0]);
        }
    }
    let parts = split_text(line.as_str(), ',');
    if parts.len() < 2 {
        return None;
    }
    assert(parts@[0]@ == split_on(line@, ',')[0]);
    assert(parts@[1]@ == split_on(line@, ',')[1]);
    let first = trimmed(parts[0].as_str());
    let second = trimmed(parts[1].as_str());
    match (parse_u64_text(first.as_str()), parse_u64_text(second.as_str())) {
        (Some(used), Some(total)) => Some((used, total)),
        _ => None,
    }
}

/// Whether the figures of a report, where it has them, can be turned into
/// bytes without overflow.
pub fn report_fits(report: &str) -> (r: bool)
    ensures
        r == report_fits_bytes(report@),
{
    match reported_mib_of(report) {
        Some((used, total)) => used <= u64::MAX / MIB && total <= u64::MAX / MIB,
        None => true,
    }
}

/// The used and total GPU memory, in bytes, from what
/// `nvidia-smi --query-gpu=memory.used,memory.total --format=csv,noheader,nounits`
/// printed; `None` where its first line does not hold two numbers.
pub fn gpu_memory_stats(report: &str) -> (r: Option<(u64, u64)>)
    requires
        report_fits_bytes(report@),
    ensures
        r == (match reported_mib(report@) {
            Some((used, total)) => Some(((used * MIB) as u64, (total * MIB) as u64)),
            None => None,
        }),
{
    match reported_mib_of(report) {
        Some((used, total)) => Some((used * MIB, total * MIB)),
        None => None,
    }
}

/// Graphics memory, in GiB, below which FLUX-dev is loaded in stages: all
/// its models at once need about 34 GiB, staged loading about 24.
pub const STAGED_LOADING_VRAM_THRESHOLD_GB: u64 = 34;

/// Bytes in a gibibyte.
pub const GIB: u64 = 1073741824;

/// Whether a pipeline for the model `model_id` loads its models in stages,
/// given the GPU's total memory in bytes where it could be read: only
/// FLUX-dev ("dev") does, when the GPU has less than the threshold in whole
/// GiB, or when its memory could not be read.
pub fn needs_staged_loading(model_id: &str, gpu_total_bytes: Option<u64>) -> (r: bool)
    ensures
        r == (model_id@ == "dev"@ && match gpu_total_bytes {
            Some(total) => total / GIB < STAGED_LOADING_VRAM_THRESHOLD_GB,
            None => true,
        }),
{
    if !str_equal(model_id, "dev") {
        return false;
    }
    match gpu_total_bytes {
        Some(total) => total / GIB < STAGED_LOADING_VRAM_THRESHOLD_GB,
        None => true,
    }
}

/// The base64 digit of a 6-bit value (the standard alphabet: `A`-`Z`,
/// `a`-`z`, `0`-`9`, `+`, `/`).
pub open spec fn base64_digit(v: int) -> char {
    if v < 26 {
        ('A' as int + v) as char
    } else if v < 52 {
        ('a' as int + v - 26) as char
    } else if v < 62 {
        ('0' as int + v - 52) as char
    } else if v == 62 {
        '+'
    } else {
        '/'
    }
}

/// Standard base64 with padding (RFC 4648): each group of three bytes
/// becomes four digits; a last group of one or two bytes is padded with
/// `=`.
pub open spec fn base64_standard(b: Seq<u8>) -> Seq<char>
    decreases b.len(),
{
    if b.len() == 0 {
        Seq::empty()
    } else {
        let x = b[0] as int;
        let y = if b.len() > 1 { b[1] as int } else { 0 };
        let z = if b.len() > 2 { b[2] as int } else { 0 };
        let first = base64_digit(x / 4);
        let second = base64_digit((x % 4) * 16 + y / 16);
        let third = if b.len() > 1 { base64_digit((y % 16) * 4 + z / 64) } else { '=' };
        let fourth = if b.len() > 2 { base64_digit(z % 64) } else { '=' };
        if b.len() <= 3 {
            seq![first, second, third, fourth]
        } else {
            seq![first, second, third, fourth] + base64_standard(b.skip(3))
        }
    }
}

/// Encodes bytes as base64 with `base64::engine::general_purpose::STANDARD`
/// (the standard alphabet, with padding), as `base64_standard` states.
#[verifier::external_body]
fn base64_encode(bytes: &[u8]) -> (r: String)
    ensures
        r@ == base64_standard(bytes@),
{
    <base64::engine::GeneralPurpose as base64::Engine>::encode(&base64::engine::general_purpose::STANDARD, bytes)
}

/// What `image`'s JPEG encoder makes of 8-bit RGB pixels at a quality: the
/// file's bytes, or the message of the error it raised.
pub uninterp spec fn jpeg_rgb8_encoding(rgb: Seq<u8>, width: u32, height: u32, quality: u8) -> Result<
    Seq<u8>,
    Seq<char>,
>;

/// Encodes 8-bit RGB pixels as JPEG with
/// `image::codecs::jpeg::JpegEncoder::new_with_quality` and `encode`
/// (`ExtendedColorType::Rgb8`). The result is what `jpeg_rgb8_encoding`
/// names; the encoder refuses a width or height of zero or above 65535.
/// The pixels must be exactly three bytes per pixel: the encoder panics on
/// any other length.
#[verifier::external_body]
fn encode_rgb8_jpeg(rgb: &[u8], width: u32, height: u32, quality: u8) -> (r: Result<Vec<u8>, String>)
    requires
        rgb@.len() == 3 * width * height,
    ensures
        bytes_result(r) == jpeg_rgb8_encoding(rgb@, width, height, quality),
        r is Ok <==> (1 <= width <= 65535 && 1 <= height <= 65535),
{
    let mut out = std::io::Cursor::new(Vec::new());
    let mut encoder = image::codecs::jpeg::JpegEncoder::new_with_quality(&mut out, quality);
    encoder.encode(rgb, width, height, image::ExtendedColorType::Rgb8).map_err(|e| e.to_string())?;
    Ok(out.into_inner())
}

/// The view of a byte result.
pub open spec fn bytes_result(r: Result<Vec<u8>, String>) -> Result<Seq<u8>, Seq<char>> {
    match r {
        Ok(b) => Ok(b@),
        Err(e) => Err(e@),
    }
}

/// The error where the pixels do not fill the image.
pub open spec fn image_buffer_error() -> Seq<char> {
    "Failed to create image buffer"@
}

/// `image`'s buffer check for RGB pixels: three bytes times the width fits
/// a `usize`, and the pixels hold at least three bytes for each of the
/// width times height pixels.
pub open spec fn pixels_fit(len: nat, width: u32, height: u32) -> bool {
    3 * width <= usize::MAX && 3 * width * height <= len
}

/// Encodes RGB pixels (width times height times three bytes) as JPEG at
/// `quality` and returns it as standard base64: the preview of an image in
/// the making. Pixels the image buffer refuses are an error; the encoder's
/// refusal is passed on. (The encoder panics on more pixels than the
/// image has.)
pub fn encode_jpeg_base64(rgb_data: &[u8], width: u32, height: u32, quality: u8) -> (r: Result<String, String>)
    requires
        pixels_fit(rgb_data@.len(), width, height) ==> rgb_data@.len() == 3 * width * height,
    ensures
        !pixels_fit(rgb_data@.len(), width, height) ==> (r matches Err(e) && e@ == image_buffer_error()),
        pixels_fit(rgb_data@.len(), width, height) ==> match jpeg_rgb8_encoding(
            rgb_data@,
            width,
            height,
            quality,
        ) {
            Ok(jpeg) => r matches Ok(s) && s@ == base64_standard(jpeg),
            Err(m) => r matches Err(e) && e@ == m,
        },
{
    let len = rgb_data.len();
    assert((width as int) * 3 * (height as int) == 3 * width * height) by (nonlinear_arith);
    let fits = match (width as usize).checked_mul(3) {
        Some(row) => match row.checked_mul(height as usize) {
            Some(needed) => needed <= len,
            None => false,
        },
        None => false,
    };
    if !fits {
        proof {
            reveal_strlit("Failed to create image buffer");
        }
        return Err(String::from_str("Failed to create image buffer"));
    }
    let jpeg = encode_rgb8_jpeg(rgb_data, width, height, quality)?;
    Ok(base64_encode(jpeg.as_slice()))
}

} // verus!
