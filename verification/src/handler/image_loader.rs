//! Image detection, the vision request for an image, and the combination of
//! OCR text with the vision description.
use vstd::prelude::*;

use crate::path::{extension_of, path_extension, plain_path};
use crate::text::{concat, concat3, contains_seq, lowercase, str_eq, to_lowercase, trim, trim_of};

verus! {

/// Instructions sent with an image to the vision model.
pub const VISION_PROMPT: &'static str = "Describe this image in detail. Include any text visible in the image, the layout, diagrams, charts, tables, or any other visual elements. Be thorough and precise.";

/// Whether a lower-case extension names an image format.
pub open spec fn is_image_extension(e: Seq<char>) -> bool {
    e == "png"@ || e == "jpg"@ || e == "jpeg"@ || e == "gif"@ || e == "webp"@ || e == "tiff"@
        || e == "tif"@ || e == "bmp"@
}

/// Law of image formats: the lower-case extensions that name an image are
/// exactly png, jpg, jpeg, gif, webp, tiff, tif and bmp.
pub proof fn lemma_image_extensions(e: Seq<char>)
    ensures
        is_image_extension(e) <==> seq!["png"@, "jpg"@, "jpeg"@, "gif"@, "webp"@, "tiff"@, "tif"@, "bmp"@].contains(e),
{
    let fs: Seq<Seq<char>> = seq!["png"@, "jpg"@, "jpeg"@, "gif"@, "webp"@, "tiff"@, "tif"@, "bmp"@];
    if is_image_extension(e) {
        if e == "png"@ {
            assert(fs[0] == e);
        }
        if e == "jpg"@ {
            assert(fs[1] == e);
        }
        if e == "jpeg"@ {
            assert(fs[2] == e);
        }
        if e == "gif"@ {
            assert(fs[3] == e);
        }
        if e == "webp"@ {
            assert(fs[4] == e);
        }
        if e == "tiff"@ {
            assert(fs[5] == e);
        }
        if e == "tif"@ {
            assert(fs[6] == e);
        }
        if e == "bmp"@ {
            assert(fs[7] == e);
        }
    }
    if fs.contains(e) {
        let i = choose|i: int| 0 <= i < fs.len() && fs[i] == e;
        if i == 0 {
            assert(e == fs[0]);
        }
        if i == 1 {
            assert(e == fs[1]);
        }
        if i == 2 {
            assert(e == fs[2]);
        }
        if i == 3 {
            assert(e == fs[3]);
        }
        if i == 4 {
            assert(e == fs[4]);
        }
        if i == 5 {
            assert(e == fs[5]);
        }
        if i == 6 {
            assert(e == fs[6]);
        }
        if i == 7 {
            assert(e == fs[7]);
        }
    }
}

/// Whether an extension, lower-cased, names an image format.
pub fn image_extension(ext: &str) -> (r: bool)
    ensures
        r == is_image_extension(lowercase(ext@)),
{
    let low = to_lowercase(ext);
    let e = low.as_str();
    str_eq(e, "png") || str_eq(e, "jpg") || str_eq(e, "jpeg") || str_eq(e, "gif") || str_eq(
        e,
        "webp",
    ) || str_eq(e, "tiff") || str_eq(e, "tif") || str_eq(e, "bmp")
}

/// Whether a file is an image, by its extension.
///
/// A path without a dot is no image; otherwise the answer is the one for
/// the (lower-cased) extension that the platform reads off the path.
pub fn detect_image(file_path: &str) -> (r: bool)
    ensures
        plain_path(file_path@) ==> r == match extension_of(file_path@) {
            Some(e) => is_image_extension(lowercase(e)),
            None => false,
        },
        !file_path@.contains('.') ==> !r,
        r ==> exists|e: Seq<char>|
            contains_seq(file_path@, seq!['.'] + e) && #[trigger] is_image_extension(lowercase(e)),
{
    match path_extension(file_path) {
        Some(ext) => image_extension(ext.as_str()),
        None => false,
    }
}

/// The text embedded for an image: its OCR text, a blank line, then its
/// vision description.
pub open spec fn combined_image_text_of(ocr: Seq<char>, description: Seq<char>) -> Seq<char> {
    ocr + "\n\n"@ + description
}

/// Combines the OCR text and the vision description of an image; `None`
/// when nothing but whitespace would be left to embed.
pub fn combine_image_text(ocr: &str, description: &str) -> (r: Option<String>)
    ensures
        r is None <==> trim_of(combined_image_text_of(ocr@, description@)).len() == 0,
        r matches Some(c) ==> c@ == combined_image_text_of(ocr@, description@),
{
    let combined = concat3(ocr, "\n\n", description);
    let t = trim(combined.as_str());
    if t.as_str().unicode_len() == 0 {
        None
    } else {
        Some(combined)
    }
}

/// The char of a six-bit value in the standard base64 alphabet: `A`-`Z`,
/// `a`-`z`, `0`-`9`, `+`, `/`.
pub open spec fn base64_char(v: int) -> char {
    if v < 26 {
        ('A' as int + v) as char
    } else if v < 52 {
        ('a' as int + (v - 26)) as char
    } else if v < 62 {
        ('0' as int + (v - 52)) as char
    } else if v == 62 {
        '+'
    } else {
        '/'
    }
}

/// Standard base64 with padding: each group of three bytes becomes four
/// chars of six bits each; a last group of one or two bytes is padded with
/// `=` to four chars.
pub open spec fn base64_standard(b: Seq<u8>) -> Seq<char>
    decreases b.len(),
{
    let x = b[0] as int;
    let y = b[1] as int;
    let z = b[2] as int;
    if b.len() == 0 {
        seq![]
    } else if b.len() == 1 {
        seq![base64_char(x / 4), base64_char((x % 4) * 16), '=', '=']
    } else if b.len() == 2 {
        seq![base64_char(x / 4), base64_char((x % 4) * 16 + y / 16), base64_char((y % 16) * 4), '=']
    } else {
        seq![
            base64_char(x / 4),
            base64_char((x % 4) * 16 + y / 16),
            base64_char((y % 16) * 4 + z / 64),
            base64_char(z % 64),
        ] + base64_standard(b.subrange(3, b.len() as int))
    }
}

/// The lower-case hex digit of a number below 16.
pub open spec fn hex_digit(n: int) -> char {
    if n < 10 {
        (48 + n) as char
    } else {
        (87 + n) as char
    }
}

/// How `serde_json` writes one char inside a string literal: a quote, a
/// backslash and the control chars are escaped (`\b`, `\t`, `\n`, `\f`,
/// `\r` where there is a short form, else `\u00` and two lower-case hex
/// digits); every other char is written as it is.
pub open spec fn json_escape_char(c: char) -> Seq<char> {
    let v = c as int;
    if c == '"' {
        seq!['\\', '"']
    } else if c == '\\' {
        seq!['\\', '\\']
    } else if v == 0x08 {
        seq!['\\', 'b']
    } else if v == 0x09 {
        seq!['\\', 't']
    } else if v == 0x0a {
        seq!['\\', 'n']
    } else if v == 0x0c {
        seq!['\\', 'f']
    } else if v == 0x0d {
        seq!['\\', 'r']
    } else if v < 0x20 {
        seq!['\\', 'u', '0', '0', hex_digit(v / 16), hex_digit(v % 16)]
    } else {
        seq![c]
    }
}

/// The escaped chars of a text, one after the other.
pub open spec fn json_escaped(s: Seq<char>) -> Seq<char>
    decreases s.len(),
{
    if s.len() == 0 {
        seq![]
    } else {
        json_escaped(s.drop_last()) + json_escape_char(s.last())
    }
}

/// The JSON string literal that `serde_json` writes for a text: the escaped
/// text between double quotes.
pub open spec fn json_string_literal(s: Seq<char>) -> Seq<char> {
    seq!['"'] + json_escaped(s) + seq!['"']
}

/// Calls `base64::Engine::encode` of `base64::engine::general_purpose::STANDARD`:
/// standard base64 with padding.
#[verifier::external_body]
pub(crate) fn encode_base64(bytes: &[u8]) -> (r: String)
    ensures
        r@ == base64_standard(bytes@),
{
    base64::Engine::encode(&base64::engine::general_purpose::STANDARD, bytes)
}

/// Calls `serde_json::to_string` on a text, which writes it as a JSON string
/// literal ([`json_string_literal`]); writing a `str` cannot fail.
#[verifier::external_body]
pub(crate) fn json_string(s: &str) -> (r: String)
    ensures
        r@ == json_string_literal(s@),
{
    serde_json::to_string(s).unwrap_or_default()
}

/// The body of a vision request: one user message with the prompt and the
/// base64 image, non-streaming, keys in the order `serde_json` writes them.
pub open spec fn vision_request_of(model: Seq<char>, prompt: Seq<char>, image: Seq<u8>) -> Seq<char> {
    "{\"messages\":[{\"content\":"@ + json_string_literal(prompt) + ",\"images\":["@
        + json_string_literal(base64_standard(image)) + "],\"role\":\"user\"}],\"model\":"@
        + json_string_literal(model) + ",\"stream\":false}"@
}

/// The JSON body asking the vision model to describe image bytes.
pub fn vision_request_body(model: &str, prompt: &str, image_bytes: &[u8]) -> (r: String)
    ensures
        r@ == vision_request_of(model@, prompt@, image_bytes@),
{
    let encoded = encode_base64(image_bytes);
    let p = json_string(prompt);
    let e = json_string(encoded.as_str());
    let m = json_string(model);
    let mut body = String::from_str("{\"messages\":[{\"content\":");
    body.append(p.as_str());
    body.append(",\"images\":[");
    body.append(e.as_str());
    body.append("],\"role\":\"user\"}],\"model\":");
    body.append(m.as_str());
    body.append(",\"stream\":false}");
    body
}

/// The chat endpoint of a model server at a host and port.
pub fn chat_url(host: &str, port: &str) -> (r: String)
    ensures
        r@ == "http://"@ + host@ + ":"@ + port@ + "/api/chat"@,
{
    let a = concat3("http://", host, ":");
    concat3(a.as_str(), port, "/api/chat")
}

} // verus!
