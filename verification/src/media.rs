//! Conversion of raw attachment bytes into an inline media part: the mime
//! remap and allow-list the backend demands, and the base64 payload.

use vstd::prelude::*;

use crate::compact::MediaPart;
use crate::textutil::{chars_of, matches_at, spec_starts_with};

verus! {

/// Why attachment bytes could not become a media part.
#[derive(Debug, Clone, PartialEq, Eq, Structural)]
pub enum MediaError {
    /// The mime type is not one the backend accepts.
    UnsupportedMime,
    /// The bytes sniff as an image format needing re-encoding, but do not
    /// decode.
    UndecodableImage,
}

/// What the re-encoding pass decided for a payload's bytes.
enum Reencoded {
    /// The bytes sniff as PNG, JPEG or no known image format: sent as is.
    NotNeeded,
    /// The PNG re-encoding of the decoded image.
    Converted(Vec<u8>),
    /// An image format was detected but the bytes do not decode.
    Undecodable,
}

/// Whether the byte sniffing detects an image format other than PNG or JPEG,
/// so the payload must be re-encoded before submission.
pub uninterp spec fn spec_image_needs_reencode(bytes: Seq<u8>) -> bool;

/// The PNG re-encoding of the decoded image, nothing when the bytes do not
/// decode; a function of the bytes alone.
pub uninterp spec fn spec_png_of(bytes: Seq<u8>) -> Option<Seq<u8>>;

/// Relies on the image crate: `guess_format` sniffs the format from the
/// bytes alone, `load` decodes deterministically, and the PNG encoder writes
/// a deterministic encoding of the decoded pixels — one re-encoding
/// operation of one crate, as the error-normalizer's re-formatting is.
#[verifier::external_body]
fn reencode_image_to_png(bytes: &Vec<u8>) -> (r: Reencoded)
    ensures
        !spec_image_needs_reencode(bytes@) ==> r is NotNeeded,
        spec_image_needs_reencode(bytes@) ==> (match spec_png_of(bytes@) {
            Some(png) => r matches Reencoded::Converted(v) && v@ == png,
            None => r is Undecodable,
        }),
{
    let f = match image::guess_format(bytes) {
        Ok(f) if f != image::ImageFormat::Png && f != image::ImageFormat::Jpeg => f,
        _ => return Reencoded::NotNeeded,
    };
    let img = match image::load(std::io::Cursor::new(bytes), f) {
        Ok(i) => i,
        Err(_) => return Reencoded::Undecodable,
    };
    let mut buf: Vec<u8> = Vec::new();
    match img.write_to(&mut std::io::Cursor::new(&mut buf), image::ImageFormat::Png) {
        Ok(()) => Reencoded::Converted(buf),
        Err(_) => Reencoded::Undecodable,
    }
}

/// The base64 encoding of the bytes, standard alphabet with padding.
pub uninterp spec fn spec_base64(bytes: Seq<u8>) -> Seq<char>;

/// Relies on base64's `STANDARD` engine: the encoding is a function of the
/// bytes alone; it is empty exactly for empty input.
#[verifier::external_body]
fn base64_encode(bytes: &Vec<u8>) -> (r: String)
    ensures
        r@ == spec_base64(bytes@),
        bytes@.len() == 0 <==> r@.len() == 0,
{
    base64::Engine::encode(&base64::engine::general_purpose::STANDARD, bytes)
}

/// The mime type actually submitted: structured text is sent as plain text.
pub open spec fn spec_effective_mime(m: Seq<char>) -> Seq<char> {
    if m == "application/json"@ {
        "text/plain"@
    } else {
        m
    }
}

/// The mime types the backend accepts for inline data.
pub open spec fn spec_allowed_mime(m: Seq<char>) -> bool {
    ||| m == "image/png"@
    ||| m == "image/jpeg"@
    ||| m == "image/webp"@
    ||| m == "audio/aac"@
    ||| m == "audio/flac"@
    ||| m == "audio/mp3"@
    ||| m == "audio/m4a"@
    ||| m == "audio/mpeg"@
    ||| m == "audio/mpga"@
    ||| m == "audio/opus"@
    ||| m == "audio/pcm"@
    ||| m == "audio/wav"@
    ||| m == "audio/webm"@
    ||| m == "audio/aiff"@
    ||| m == "audio/ogg"@
    ||| m == "video/mp4"@
    ||| m == "application/pdf"@
    ||| m == "text/plain"@
}

/// Whether two character vectors hold the same characters.
fn media_chars_eq(a: &Vec<char>, b: &Vec<char>) -> (r: bool)
    ensures
        r == (a@ == b@),
{
    if a.len() != b.len() {
        return false;
    }
    let r = matches_at(a, 0, b);
    proof {
        assert(a@.skip(0) =~= a@);
        if r {
            assert(a@.take(b@.len() as int) =~= a@);
        }
    }
    r
}

/// Whether the backend accepts a mime type for inline data.
pub fn is_allowed_mime(mime_str: &str) -> (r: bool)
    ensures
        r == spec_allowed_mime(mime_str@),
{
    let e = chars_of(mime_str);
    media_chars_eq(&e, &chars_of("image/png")) || media_chars_eq(&e, &chars_of("image/jpeg"))
        || media_chars_eq(&e, &chars_of("image/webp")) || media_chars_eq(
        &e,
        &chars_of("audio/aac"),
    ) || media_chars_eq(&e, &chars_of("audio/flac")) || media_chars_eq(&e, &chars_of("audio/mp3"))
        || media_chars_eq(&e, &chars_of("audio/m4a")) || media_chars_eq(
        &e,
        &chars_of("audio/mpeg"),
    ) || media_chars_eq(&e, &chars_of("audio/mpga")) || media_chars_eq(
        &e,
        &chars_of("audio/opus"),
    ) || media_chars_eq(&e, &chars_of("audio/pcm")) || media_chars_eq(&e, &chars_of("audio/wav"))
        || media_chars_eq(&e, &chars_of("audio/webm")) || media_chars_eq(
        &e,
        &chars_of("audio/aiff"),
    ) || media_chars_eq(&e, &chars_of("audio/ogg")) || media_chars_eq(&e, &chars_of("video/mp4"))
        || media_chars_eq(&e, &chars_of("application/pdf")) || media_chars_eq(
        &e,
        &chars_of("text/plain"),
    )
}

/// Converts attachment bytes into the media part to submit. An image in a
/// format other than PNG or JPEG is re-encoded as PNG first (and refused
/// when its bytes do not decode); then structured text is remapped to plain
/// text, a mime type outside the backend's allow-list is refused, and the
/// payload is the base64 encoding of the submitted bytes.
pub fn convert_media(bytes: &Vec<u8>, mime_str: &str) -> (r: Result<MediaPart, MediaError>)
    ensures
        ({
            let reencodes = spec_starts_with(mime_str@, "image/"@) && spec_image_needs_reencode(
                bytes@,
            );
            if reencodes {
                match spec_png_of(bytes@) {
                    Some(png) => r matches Ok(p) && p.deep_view().mime == "image/png"@
                        && p.deep_view().data == spec_base64(png),
                    None => r == Result::<MediaPart, MediaError>::Err(
                        MediaError::UndecodableImage,
                    ),
                }
            } else {
                let e = spec_effective_mime(mime_str@);
                &&& spec_allowed_mime(e) ==> (r matches Ok(p) && p.deep_view().mime == e
                    && p.deep_view().data == spec_base64(bytes@))
                &&& !spec_allowed_mime(e) ==> r == Result::<MediaPart, MediaError>::Err(
                    MediaError::UnsupportedMime,
                )
            }
        }),
{
    let m = chars_of(mime_str);
    proof {
        assert(m@.skip(0) =~= m@);
    }
    if matches_at(&m, 0, &chars_of("image/")) {
        match reencode_image_to_png(bytes) {
            Reencoded::Converted(png) => {
                let data = base64_encode(&png);
                return Ok(MediaPart { mime: "image/png".to_owned(), data });
            },
            Reencoded::Undecodable => {
                return Err(MediaError::UndecodableImage);
            },
            Reencoded::NotNeeded => {},
        }
    }
    let effective = if media_chars_eq(&m, &chars_of("application/json")) {
        "text/plain".to_owned()
    } else {
        mime_str.to_owned()
    };
    if !is_allowed_mime(effective.as_str()) {
        return Err(MediaError::UnsupportedMime);
    }
    let data = base64_encode(bytes);
    Ok(MediaPart { mime: effective, data })
}

} // verus!
