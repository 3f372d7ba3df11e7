//! Recognising image files by their first bytes, and their dimensions.

use vstd::prelude::*;
use base64::Engine;
use crate::config::Config;
use crate::text::{owned, str_eq, trim, trim_seq, trim_present, trimmed_present, decimal_text, decimal_seq, string_of, chars_of, push_all};
use crate::web_tools::{clamp_u64, clamped, number_or, read_text_or, text_or};
use crate::todo::required_message;

verus! {

/// A big-endian 16-bit number.
pub open spec fn be16(hi: u8, lo: u8) -> nat {
    (hi as nat) * 256 + (lo as nat)
}

/// A little-endian 16-bit number.
pub open spec fn le16(lo: u8, hi: u8) -> nat {
    (hi as nat) * 256 + (lo as nat)
}

/// A big-endian 32-bit number.
pub open spec fn be32(b0: u8, b1: u8, b2: u8, b3: u8) -> nat {
    (b0 as nat) * 16777216 + (b1 as nat) * 65536 + (b2 as nat) * 256 + (b3 as nat)
}

/// The magnitude of a little-endian 32-bit signed number
/// (`i32::from_le_bytes(..).unsigned_abs()`).
pub open spec fn le32_abs(b0: u8, b1: u8, b2: u8, b3: u8) -> nat {
    let v = (b3 as nat) * 16777216 + (b2 as nat) * 65536 + (b1 as nat) * 256 + (b0 as nat);
    if v >= 2147483648 {
        (4294967296 - v) as nat
    } else {
        v
    }
}

/// A JPEG start-of-frame marker, which carries the dimensions.
pub open spec fn is_frame_marker(m: u8) -> bool {
    (0xC0 <= m <= 0xC3) || (0xC5 <= m <= 0xC7) || (0xC9 <= m <= 0xCB) || (0xCD <= m <= 0xCF)
}

/// Walks the JPEG segments from `index` to the first frame header and reads
/// its width and height; gives up at the end of the image, at the start of
/// the compressed data, or on a malformed segment.
pub open spec fn jpeg_scan(b: Seq<u8>, index: nat) -> Option<(nat, nat)>
    decreases b.len() - index,
{
    if !(index + 9 < b.len()) {
        None
    } else if b[index as int] != 0xFF {
        jpeg_scan(b, index + 1)
    } else {
        let i = index as int;
        let marker = b[i + 1];
        let at = i + 2;
        if marker == 0xD9 || marker == 0xDA {
            None
        } else if at + 1 >= b.len() {
            None
        } else {
            let seg = be16(b[at], b[at + 1]);
            if seg < 2 || at + seg > b.len() {
                None
            } else if is_frame_marker(marker) {
                if at + 7 < b.len() {
                    Some((be16(b[at + 5], b[at + 6]), be16(b[at + 3], b[at + 4])))
                } else {
                    None
                }
            } else {
                jpeg_scan(b, (at + seg) as nat)
            }
        }
    }
}

/// The width and height of a JPEG image.
pub open spec fn jpeg_dimensions(b: Seq<u8>) -> Option<(nat, nat)> {
    if b.len() < 4 || b[0] != 0xFF || b[1] != 0xD8 {
        None
    } else {
        jpeg_scan(b, 2)
    }
}

/// Reads the width and height of a JPEG image from its first frame header.
pub fn parse_jpeg_dimensions(bytes: &[u8]) -> (r: Option<(u32, u32)>)
    ensures
        match jpeg_dimensions(bytes@) {
            Some((w, h)) => r matches Some((rw, rh)) && rw == w && rh == h,
            None => r is None,
        },
{
    if bytes.len() < 4 || bytes[0] != 0xFF || bytes[1] != 0xD8 {
        return None;
    }
    let mut index: usize = 2;
    while index < bytes.len() && bytes.len() - index > 9
        invariant
            2 <= index,
            bytes@.len() >= 4,
            bytes@[0] == 0xFF && bytes@[1] == 0xD8,
            jpeg_dimensions(bytes@) == jpeg_scan(bytes@, index as nat),
        decreases bytes.len() - index,
    {
        if bytes[index] != 0xFF {
            index += 1;
            continue;
        }
        let marker = bytes[index + 1];
        let at = index + 2;
        if marker == 0xD9 || marker == 0xDA {
            return None;
        }
        if at + 1 >= bytes.len() {
            return None;
        }
        let segment_len: usize = (bytes[at] as usize) * 256 + (bytes[at + 1] as usize);
        if segment_len < 2 || segment_len > bytes.len() - at {
            return None;
        }
        if (0xC0 <= marker && marker <= 0xC3) || (0xC5 <= marker && marker <= 0xC7)
            || (0xC9 <= marker && marker <= 0xCB) || (0xCD <= marker && marker <= 0xCF) {
            if at + 7 < bytes.len() {
                let height: u32 = (bytes[at + 3] as u32) * 256 + (bytes[at + 4] as u32);
                let width: u32 = (bytes[at + 5] as u32) * 256 + (bytes[at + 6] as u32);
                return Some((width, height));
            }
            return None;
        }
        index = at + segment_len;
    }
    None
}

/// An image's format (`png`, `gif`, `bmp`, `webp`, `ico`, `jpeg` or
/// `unknown`) and, where the header tells them, its width and height.
pub open spec fn image_metadata(b: Seq<u8>) -> (Seq<char>, Option<nat>, Option<nat>) {
    if b.len() >= 24 && b[0] == 137 && b[1] == 80 && b[2] == 78 && b[3] == 71 && b[4] == 13 && b[5] == 10
        && b[6] == 26 && b[7] == 10 {
        ("png"@, Some(be32(b[16], b[17], b[18], b[19])), Some(be32(b[20], b[21], b[22], b[23])))
    } else if b.len() >= 10 && b[0] == 0x47 && b[1] == 0x49 && b[2] == 0x46 && b[3] == 0x38
        && (b[4] == 0x37 || b[4] == 0x39) && b[5] == 0x61 {
        ("gif"@, Some(le16(b[6], b[7])), Some(le16(b[8], b[9])))
    } else if b.len() >= 26 && b[0] == 0x42 && b[1] == 0x4D {
        ("bmp"@, Some(le32_abs(b[18], b[19], b[20], b[21])), Some(le32_abs(b[22], b[23], b[24], b[25])))
    } else if b.len() >= 12 && b[0] == 0x52 && b[1] == 0x49 && b[2] == 0x46 && b[3] == 0x46 && b[8] == 0x57
        && b[9] == 0x45 && b[10] == 0x42 && b[11] == 0x50 {
        ("webp"@, None, None)
    } else if b.len() >= 8 && b[0] == 0 && b[1] == 0 && b[2] == 1 && b[3] == 0 {
        ("ico"@, Some(if b[6] == 0 { 256 } else { b[6] as nat }), Some(if b[7] == 0 { 256 } else { b[7] as nat }))
    } else {
        match jpeg_dimensions(b) {
            Some((w, h)) => ("jpeg"@, Some(w), Some(h)),
            None => ("unknown"@, None, None),
        }
    }
}

fn le32_abs_exec(b0: u8, b1: u8, b2: u8, b3: u8) -> (r: u32)
    ensures
        r == le32_abs(b0, b1, b2, b3),
{
    let v: u64 = (b3 as u64) * 16777216 + (b2 as u64) * 65536 + (b1 as u64) * 256 + (b0 as u64);
    if v >= 2147483648 {
        (4294967296 - v) as u32
    } else {
        v as u32
    }
}

/// Recognises an image by its first bytes (see `image_metadata`).
pub fn detect_image_metadata(bytes: &[u8]) -> (r: (String, Option<u32>, Option<u32>))
    ensures
        r.0@ == image_metadata(bytes@).0,
        match image_metadata(bytes@).1 {
            Some(w) => r.1 == Some(w as u32) && w <= u32::MAX,
            None => r.1 is None,
        },
        match image_metadata(bytes@).2 {
            Some(h) => r.2 == Some(h as u32) && h <= u32::MAX,
            None => r.2 is None,
        },
{
    let b = bytes;
    if b.len() >= 24 && b[0] == 137 && b[1] == 80 && b[2] == 78 && b[3] == 71 && b[4] == 13 && b[5] == 10
        && b[6] == 26 && b[7] == 10 {
        let width: u32 = (b[16] as u32) * 16777216 + (b[17] as u32) * 65536 + (b[18] as u32) * 256 + (b[19] as u32);
        let height: u32 = (b[20] as u32) * 16777216 + (b[21] as u32) * 65536 + (b[22] as u32) * 256 + (b[23] as u32);
        return (owned("png"), Some(width), Some(height));
    }
    if b.len() >= 10 && b[0] == 0x47 && b[1] == 0x49 && b[2] == 0x46 && b[3] == 0x38
        && (b[4] == 0x37 || b[4] == 0x39) && b[5] == 0x61 {
        let width: u32 = (b[7] as u32) * 256 + (b[6] as u32);
        let height: u32 = (b[9] as u32) * 256 + (b[8] as u32);
        return (owned("gif"), Some(width), Some(height));
    }
    if b.len() >= 26 && b[0] == 0x42 && b[1] == 0x4D {
        let width = le32_abs_exec(b[18], b[19], b[20], b[21]);
        let height = le32_abs_exec(b[22], b[23], b[24], b[25]);
        return (owned("bmp"), Some(width), Some(height));
    }
    if b.len() >= 12 && b[0] == 0x52 && b[1] == 0x49 && b[2] == 0x46 && b[3] == 0x46 && b[8] == 0x57
        && b[9] == 0x45 && b[10] == 0x42 && b[11] == 0x50 {
        return (owned("webp"), None, None);
    }
    if b.len() >= 8 && b[0] == 0 && b[1] == 0 && b[2] == 1 && b[3] == 0 {
        let width: u32 = if b[6] == 0 { 256 } else { b[6] as u32 };
        let height: u32 = if b[7] == 0 { 256 } else { b[7] as u32 };
        return (owned("ico"), Some(width), Some(height));
    }
    match parse_jpeg_dimensions(bytes) {
        Some((width, height)) => (owned("jpeg"), Some(width), Some(height)),
        None => (owned("unknown"), None, None),
    }
}

/// The MIME type of an image format named by `detect_image_metadata`.
pub open spec fn format_mime(format: Seq<char>) -> Option<Seq<char>> {
    if format == "png"@ {
        Some("image/png"@)
    } else if format == "jpeg"@ {
        Some("image/jpeg"@)
    } else if format == "gif"@ {
        Some("image/gif"@)
    } else if format == "bmp"@ {
        Some("image/bmp"@)
    } else if format == "webp"@ {
        Some("image/webp"@)
    } else if format == "ico"@ {
        Some("image/x-icon"@)
    } else {
        None
    }
}

/// The MIME type of an image format.
pub fn image_format_to_mime(format: &str) -> (r: Option<&'static str>)
    ensures
        match format_mime(format@) {
            Some(m) => r matches Some(s) && s@ == m,
            None => r is None,
        },
{
    if str_eq(format, "png") {
        Some("image/png")
    } else if str_eq(format, "jpeg") {
        Some("image/jpeg")
    } else if str_eq(format, "gif") {
        Some("image/gif")
    } else if str_eq(format, "bmp") {
        Some("image/bmp")
    } else if str_eq(format, "webp") {
        Some("image/webp")
    } else if str_eq(format, "ico") {
        Some("image/x-icon")
    } else {
        None
    }
}

/// Where an image is read from: a file (its path as given) or an address.
#[derive(Debug, Clone, PartialEq, Eq)]
pub enum ImageSource {
    Path(String),
    Url(String),
}

/// The arguments of `image_probe`, as given.
pub struct ImageProbeArgs {
    pub path: Option<String>,
    pub url: Option<String>,
    pub max_bytes: Option<u64>,
}

/// What `image_probe` reads: the source, and how many of its first bytes.
pub struct ImageProbePlan {
    pub source: ImageSource,
    pub max_bytes: u64,
}

/// The view of a source: whether it is a path, and its text.
pub open spec fn source_view(s: ImageSource) -> (bool, Seq<char>) {
    match s {
        ImageSource::Path(p) => (true, p@),
        ImageSource::Url(u) => (false, u@),
    }
}

pub open spec fn missing_source_message() -> Seq<char> {
    "Either 'path' or 'url' is required"@
}

/// The source of a probe: the trimmed path when one is given, else the
/// trimmed address, else none.
pub open spec fn probe_source(path: Option<String>, url: Option<String>) -> Option<(bool, Seq<char>)> {
    match trimmed_present(path) {
        Some(p) => Some((true, p)),
        None => match trimmed_present(url) {
            Some(u) => Some((false, u)),
            None => None,
        },
    }
}

/// Reads the arguments of `image_probe`: a path or an address (the path
/// wins when both are given), and a byte budget (512 KiB when none is
/// given) held between 1 KiB and 4 MiB.
pub fn image_probe_plan(args: &ImageProbeArgs) -> (r: Result<ImageProbePlan, String>)
    ensures
        match probe_source(args.path, args.url) {
            None => r matches Err(e) && e@ == missing_source_message(),
            Some(src) => r matches Ok(plan) && source_view(plan.source) == src
                && plan.max_bytes == clamped(number_or(args.max_bytes, 524288), 1024, 4194304),
        },
{
    let max_bytes = clamp_u64(match args.max_bytes { Some(v) => v, None => 524288 }, 1024, 4194304);
    match trim_present(&args.path) {
        Some(p) => Ok(ImageProbePlan { source: ImageSource::Path(p), max_bytes }),
        None => match trim_present(&args.url) {
            Some(u) => Ok(ImageProbePlan { source: ImageSource::Url(u), max_bytes }),
            None => Err(owned("Either 'path' or 'url' is required")),
        },
    }
}

/// The arguments of `image_understand`, as given.
pub struct ImageUnderstandArgs {
    pub prompt: Option<String>,
    pub model: Option<String>,
    pub thinking: Option<bool>,
    pub path: Option<String>,
    pub url: Option<String>,
    pub max_bytes: Option<u64>,
}

/// What `image_understand` asks the model.
pub struct ImageUnderstandPlan {
    pub prompt: String,
    pub model: String,
    pub thinking: bool,
    pub source: ImageSource,
    pub max_bytes: u64,
}

pub open spec fn both_sources_message() -> Seq<char> {
    "Provide either 'path' or 'url', not both"@
}

/// The error of `image_understand`'s arguments, if any: a missing prompt,
/// then both a path and an address, then neither.
pub open spec fn understand_error(args: ImageUnderstandArgs) -> Option<Seq<char>> {
    if trimmed_present(args.prompt) is None {
        Some(required_message("prompt"@))
    } else if trimmed_present(args.path) is Some && trimmed_present(args.url) is Some {
        Some(both_sources_message())
    } else if trimmed_present(args.path) is None && trimmed_present(args.url) is None {
        Some(missing_source_message())
    } else {
        None
    }
}

/// Reads the arguments of `image_understand`: a prompt (required), the
/// model (the default one when none is given), thinking (off unless
/// asked), exactly one of a path and an address, and a byte budget (4 MiB
/// when none is given) held between 8 KiB and 8 MiB.
pub fn image_understand_plan(args: &ImageUnderstandArgs, default_model: &str) -> (r: Result<ImageUnderstandPlan, String>)
    ensures
        match understand_error(*args) {
            Some(m) => r matches Err(e) && e@ == m,
            None => r matches Ok(plan) && {
                &&& Some(plan.prompt@) == trimmed_present(args.prompt)
                &&& plan.model@ == text_or(args.model, default_model@)
                &&& plan.thinking == (args.thinking == Some(true))
                &&& source_view(plan.source) == probe_source(args.path, args.url)->0
                &&& plan.max_bytes == clamped(number_or(args.max_bytes, 4194304), 8192, 8388608)
            },
        },
{
    let raw_prompt: Option<&str> = match &args.prompt {
        Some(p) => Some(p.as_str()),
        None => None,
    };
    let prompt = match crate::todo::read_string_argument(raw_prompt, "prompt") {
        Ok(p) => p,
        Err(e) => return Err(e),
    };
    let model = read_text_or(&args.model, default_model);
    let thinking = match args.thinking { Some(b) => b, None => false };
    let max_bytes = clamp_u64(match args.max_bytes { Some(v) => v, None => 4194304 }, 8192, 8388608);
    let path = trim_present(&args.path);
    let url = trim_present(&args.url);
    let source = match (path, url) {
        (Some(_), Some(_)) => return Err(owned("Provide either 'path' or 'url', not both")),
        (Some(p), None) => ImageSource::Path(p),
        (None, Some(u)) => ImageSource::Url(u),
        (None, None) => return Err(owned("Either 'path' or 'url' is required")),
    };
    Ok(ImageUnderstandPlan { prompt, model, thinking, source, max_bytes })
}

/// Whether an address is already an inline image (`data:image/...`), which
/// is handed to the model as it is.
pub fn is_inline_image_url(url: &str) -> (r: bool)
    ensures
        r == crate::text::starts_with(url@, "data:image/"@),
{
    let cs = chars_of(url);
    let p = chars_of("data:image/");
    crate::text::chars_starts_with(cs.as_slice(), p.as_slice())
}

/// The message for a file larger than the budget.
pub open spec fn too_large_text(len: nat, max_bytes: nat) -> Seq<char> {
    "Image exceeds max_bytes ("@ + decimal_seq(len) + " > "@ + decimal_seq(max_bytes) + ")"@
}

/// A file of `len` bytes may be sent when it is no larger than the budget.
pub fn check_image_size(len: u64, max_bytes: u64) -> (r: Result<(), String>)
    ensures
        match r {
            Ok(()) => len <= max_bytes,
            Err(e) => len > max_bytes && e@ == too_large_text(len as nat, max_bytes as nat),
        },
{
    if len <= max_bytes {
        return Ok(());
    }
    let mut out: Vec<char> = chars_of("Image exceeds max_bytes (");
    let a = chars_of(decimal_text(len).as_str());
    push_all(&mut out, a.as_slice());
    let sep = chars_of(" > ");
    push_all(&mut out, sep.as_slice());
    let b = chars_of(decimal_text(max_bytes).as_str());
    push_all(&mut out, b.as_slice());
    let close = chars_of(")");
    push_all(&mut out, close.as_slice());
    proof {
        reveal_strlit("Image exceeds max_bytes (");
    }
    assert(out@ =~= too_large_text(len as nat, max_bytes as nat));
    Err(string_of(out.as_slice()))
}

/// What the standard base64 engine (with padding) encodes bytes to.
pub uninterp spec fn base64_standard_encoded(bytes: Seq<u8>) -> Seq<char>;

/// Encodes with `base64::engine::general_purpose::STANDARD`; the text
/// depends on the bytes alone.
#[verifier::external_body]
fn encode_standard(bytes: &[u8]) -> (r: String)
    ensures
        r@ == base64_standard_encoded(bytes@),
{
    base64::engine::general_purpose::STANDARD.encode(bytes)
}

/// The inline address of an image file's bytes, `data:<mime>;base64,<text>`,
/// with its format and dimensions; an error when the format has no MIME
/// type.
pub open spec fn image_data_url_result(b: Seq<u8>) -> Result<Seq<char>, Seq<char>> {
    match format_mime(image_metadata(b).0) {
        Some(m) => Ok("data:"@ + m + ";base64,"@ + base64_standard_encoded(b)),
        None => Err("Unsupported or unknown image format: "@ + image_metadata(b).0),
    }
}

/// Makes the inline address of an image file (see `image_data_url_result`),
/// and gives the metadata that `detect_image_metadata` reads.
pub fn image_data_url(bytes: &[u8]) -> (r: Result<(String, (String, Option<u32>, Option<u32>)), String>)
    ensures
        match image_data_url_result(bytes@) {
            Ok(u) => r matches Ok((url, meta)) && url@ == u && meta.0@ == image_metadata(bytes@).0,
            Err(m) => r matches Err(e) && e@ == m,
        },
{
    let meta = detect_image_metadata(bytes);
    match image_format_to_mime(meta.0.as_str()) {
        Some(mime) => {
            let encoded = encode_standard(bytes);
            let mut out: Vec<char> = chars_of("data:");
            let m = chars_of(mime);
            push_all(&mut out, m.as_slice());
            let mid = chars_of(";base64,");
            push_all(&mut out, mid.as_slice());
            let e = chars_of(encoded.as_str());
            push_all(&mut out, e.as_slice());
            assert(out@ =~= "data:"@ + mime@ + ";base64,"@ + encoded@);
            Ok((string_of(out.as_slice()), meta))
        },
        None => {
            let mut out: Vec<char> = chars_of("Unsupported or unknown image format: ");
            let f = chars_of(meta.0.as_str());
            push_all(&mut out, f.as_slice());
            Err(string_of(out.as_slice()))
        },
    }
}

/// What a text-to-image request sends.
pub struct ImageGenerationRequest {
    pub prompt: String,
    pub model: String,
    pub size: String,
    pub watermark: bool,
}

/// A text-to-image request: the trimmed prompt (which may not be blank),
/// and the model, size and watermark setting given, else those of the
/// configuration.
pub fn image_generation_request(
    prompt: &str,
    model: Option<String>,
    size: Option<String>,
    watermark: Option<bool>,
    config: &Config,
) -> (r: Result<ImageGenerationRequest, String>)
    ensures
        match r {
            Err(e) => trim_seq(prompt@).len() == 0 && e@ == "Prompt cannot be empty"@,
            Ok(q) => {
                &&& trim_seq(prompt@).len() > 0
                &&& q.prompt@ == trim_seq(prompt@)
                &&& q.model@ == (match model { Some(m) => m@, None => config.image_model@ })
                &&& q.size@ == (match size { Some(z) => z@, None => config.image_size@ })
                &&& q.watermark == (match watermark { Some(w) => w, None => config.image_watermark })
            },
        },
{
    let t = trim(prompt);
    if t.as_str().is_empty() {
        return Err(owned("Prompt cannot be empty"));
    }
    let model = match model {
        Some(m) => m,
        None => owned(config.image_model.as_str()),
    };
    let size = match size {
        Some(z) => z,
        None => owned(config.image_size.as_str()),
    };
    let watermark = match watermark {
        Some(w) => w,
        None => config.image_watermark,
    };
    Ok(ImageGenerationRequest { prompt: t, model, size, watermark })
}

/// The address of the first generated image, as the image service gives
/// it (`data[0].url`); an error when it is missing or blank.
pub fn generated_image_url(first_url: Option<&str>) -> (r: Result<String, String>)
    ensures
        match first_url {
            Some(u) => if trim_seq(u@).len() > 0 {
                r matches Ok(v) && v@ == u@
            } else {
                r matches Err(e) && e@ == "Image API returned empty URL"@
            },
            None => r matches Err(e) && e@ == "Image API returned empty URL"@,
        },
{
    match first_url {
        Some(u) => {
            let t = trim(u);
            if t.as_str().is_empty() {
                Err(owned("Image API returned empty URL"))
            } else {
                Ok(owned(u))
            }
        },
        None => Err(owned("Image API returned empty URL")),
    }
}

/// The text recorded for the user's side of a text-to-image turn.
pub open spec fn generated_image_user_text(prompt: Seq<char>) -> Seq<char> {
    "[文生图] "@ + prompt
}

/// The text recorded for the assistant's side: the image in Markdown, then
/// its address.
pub open spec fn generated_image_assistant_text(prompt: Seq<char>, url: Seq<char>) -> Seq<char> {
    "!["@ + prompt + "]("@ + url + ")\n\n"@ + url
}

/// The two messages a text-to-image turn records (user, then assistant).
pub fn generated_image_messages(prompt: &str, url: &str) -> (r: (String, String))
    ensures
        r.0@ == generated_image_user_text(prompt@),
        r.1@ == generated_image_assistant_text(prompt@, url@),
{
    let mut user: Vec<char> = chars_of("[文生图] ");
    let p = chars_of(prompt);
    push_all(&mut user, p.as_slice());
    let mut assistant: Vec<char> = chars_of("![");
    push_all(&mut assistant, p.as_slice());
    let mid = chars_of("](");
    push_all(&mut assistant, mid.as_slice());
    let u = chars_of(url);
    push_all(&mut assistant, u.as_slice());
    let gap = chars_of(")\n\n");
    push_all(&mut assistant, gap.as_slice());
    push_all(&mut assistant, u.as_slice());
    assert(assistant@ =~= generated_image_assistant_text(prompt@, url@));
    (string_of(user.as_slice()), string_of(assistant.as_slice()))
}


/// A message of a conversation as the user interface shows it. (Tool
/// calls, which it may also carry, are JSON the interface reads itself.)
pub struct Message {
    pub id: String,
    pub conversation_id: String,
    pub role: crate::turn::MessageRole,
    pub content: String,
    pub reasoning: Option<String>,
    pub created_at: crate::scheduler::schedule::Timestamp,
}

/// What a text-to-image turn answers: the two messages it recorded and
/// the image's address.
pub struct GenerateImageResponse {
    pub user_message: Message,
    pub assistant_message: Message,
    pub image_url: String,
}

/// The answer of a text-to-image turn: the user's message (see
/// `generated_image_user_text`) and the assistant's (see
/// `generated_image_assistant_text`), with the ids and times they were
/// stored under, neither with reasoning, and the image's address.
pub fn generated_image_response(
    conversation_id: &str,
    prompt: &str,
    image_url: &str,
    user_id: String,
    user_created_at: crate::scheduler::schedule::Timestamp,
    assistant_id: String,
    assistant_created_at: crate::scheduler::schedule::Timestamp,
) -> (r: GenerateImageResponse)
    ensures
        r.user_message.id@ == user_id@,
        r.user_message.conversation_id@ == conversation_id@,
        r.user_message.role == crate::turn::MessageRole::User,
        r.user_message.content@ == generated_image_user_text(prompt@),
        r.user_message.reasoning is None,
        r.user_message.created_at == user_created_at,
        r.assistant_message.id@ == assistant_id@,
        r.assistant_message.conversation_id@ == conversation_id@,
        r.assistant_message.role == crate::turn::MessageRole::Assistant,
        r.assistant_message.content@ == generated_image_assistant_text(prompt@, image_url@),
        r.assistant_message.reasoning is None,
        r.assistant_message.created_at == assistant_created_at,
        r.image_url@ == image_url@,
{
    let (user_text, assistant_text) = generated_image_messages(prompt, image_url);
    GenerateImageResponse {
        user_message: Message {
            id: user_id,
            conversation_id: owned(conversation_id),
            role: crate::turn::MessageRole::User,
            content: user_text,
            reasoning: None,
            created_at: user_created_at,
        },
        assistant_message: Message {
            id: assistant_id,
            conversation_id: owned(conversation_id),
            role: crate::turn::MessageRole::Assistant,
            content: assistant_text,
            reasoning: None,
            created_at: assistant_created_at,
        },
        image_url: owned(image_url),
    }
}
} // verus!
