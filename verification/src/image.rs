//! Image format checks and media rendering: the accepted-extension gate,
//! the extension-to-MIME table, and the base64 data URL a caller embeds
//! in a page.

use vstd::prelude::*;
use vstd::string::*;
use crate::paths::{
    path_extension_spec,
    extension_of_path,
    accepted_image_ext,
    is_accepted_image_ext,
};
use crate::text::{str_eq, str_concat};

verus! {

/// The last path component carries an accepted image extension.
pub open spec fn is_accepted_image_path(p: Seq<char>) -> bool {
    path_extension_spec(p) matches Some(e) && accepted_image_ext(e)
}

/// Whether the path names an accepted image format. The check reads the
/// extension alone; it never sniffs content.
pub fn validate_image_format(path: &str) -> (r: Result<bool, String>)
    ensures
        r matches Ok(b) && b == is_accepted_image_path(path@),
{
    match extension_of_path(path) {
        Some(e) => Ok(is_accepted_image_ext(e.as_str())),
        None => Ok(false),
    }
}

/// Whether the path names an accepted image format, for callers that
/// hold the path as an owned value.
pub fn validate_image(path: String) -> (r: Result<bool, String>)
    ensures
        r matches Ok(b) && b == is_accepted_image_path(path@),
{
    validate_image_format(path.as_str())
}

/// Dimension probing: no decoder is wired in, so no dimensions are known.
pub fn get_image_dimensions(_path: &str) -> (r: Option<(u32, u32)>)
    ensures
        r is None,
{
    None
}

/// The MIME type served for an extension; an unknown or absent one is
/// served as JPEG, as the store mostly holds photographs.
pub open spec fn mime_for_ext(e: Option<Seq<char>>) -> Seq<char> {
    match e {
        Option::Some(x) => {
            if x == "jpg"@ || x == "jpeg"@ {
                "image/jpeg"@
            } else if x == "png"@ {
                "image/png"@
            } else if x == "webp"@ {
                "image/webp"@
            } else if x == "gif"@ {
                "image/gif"@
            } else {
                "image/jpeg"@
            }
        },
        Option::None => "image/jpeg"@,
    }
}

/// Picks the MIME type for a path by its extension.
pub fn mime_for_path(path: &str) -> (r: &'static str)
    ensures
        r@ == mime_for_ext(path_extension_spec(path@)),
{
    match extension_of_path(path) {
        Some(e) => {
            if str_eq(e.as_str(), "jpg") || str_eq(e.as_str(), "jpeg") {
                "image/jpeg"
            } else if str_eq(e.as_str(), "png") {
                "image/png"
            } else if str_eq(e.as_str(), "webp") {
                "image/webp"
            } else if str_eq(e.as_str(), "gif") {
                "image/gif"
            } else {
                "image/jpeg"
            }
        },
        None => "image/jpeg",
    }
}

/// What the standard base64 encoding writes for these bytes.
pub uninterp spec fn base64_of(data: Seq<u8>) -> Seq<char>;

/// Relies on base64's standard alphabet with padding: the output is a
/// function of the bytes alone, four characters for every three bytes,
/// rounded up. The engine asserts that the output length fits a usize,
/// so oversized input is excluded here.
#[verifier::external_body]
fn base64_encode(data: &Vec<u8>) -> (r: String)
    requires
        data@.len() <= 0x3fff_ffff_ffff_ffff,
    ensures
        r@ == base64_of(data@),
        r@.len() == 4 * ((data@.len() + 2) / 3),
{
    base64::Engine::encode(&base64::engine::general_purpose::STANDARD, data)
}

/// What mime_guess answers for a path: a lookup keyed by the path's
/// extension alone, so a function of the path.
pub uninterp spec fn mime_guess_of(path: Seq<char>) -> Option<Seq<char>>;

/// Relies on mime_guess::from_path and renders its first guess.
#[verifier::external_body]
fn mime_guess_first(path: &String) -> (r: Option<String>)
    ensures
        r is None ==> mime_guess_of(path@) is None,
        r matches Some(m) ==> mime_guess_of(path@) matches Some(s) && m@ == s,
{
    mime_guess::from_path(path.as_str()).first().map(|m| m.to_string())
}

/// The content type a file endpoint serves: the guessed MIME type, or
/// the generic byte stream when nothing is known of the extension.
pub fn content_type_for(path: &String) -> (r: String)
    ensures
        mime_guess_of(path@) matches Some(m) ==> r@ == m,
        mime_guess_of(path@) is None ==> r@ == "application/octet-stream"@,
{
    match mime_guess_first(path) {
        Some(m) => m,
        None => String::from_str("application/octet-stream"),
    }
}

/// Renders file bytes as a `data:` URL: the MIME type picked by the
/// path's extension, then the base64 writing of the bytes.
pub fn get_image_data(path: &str, data: &Vec<u8>) -> (r: String)
    requires
        data@.len() <= 0x3fff_ffff_ffff_ffff,
    ensures
        r@ == "data:"@ + mime_for_ext(path_extension_spec(path@)) + ";base64,"@ + base64_of(
            data@,
        ),
{
    let mime = mime_for_path(path);
    let b64 = base64_encode(data);
    let mut s = str_concat("data:", mime);
    s.append(";base64,");
    s.append(b64.as_str());
    proof {
        assert(s@ =~= "data:"@ + mime_for_ext(path_extension_spec(path@)) + ";base64,"@
            + base64_of(data@));
    }
    s
}

} // verus!
