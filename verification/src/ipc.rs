//! Helpers of the commands the interface calls.
use vstd::prelude::*;

use crate::plan::ascii_lowercase;
use crate::scanner::{opt_view, path_extension, slash_extension, slash_separated};
use crate::text::str_eq;

verus! {

/// The data-URL prefix of a preview image, by the extension of its path:
/// PNG, WebP, and JPEG for everything else.
pub open spec fn spec_mime_for_extension(ext: Option<Seq<char>>) -> Seq<char> {
    match ext {
        Some(ext) => if ascii_lowercase(ext) == "png"@ {
            "data:image/png;base64,"@
        } else if ascii_lowercase(ext) == "webp"@ {
            "data:image/webp;base64,"@
        } else {
            "data:image/jpeg;base64,"@
        },
        None => "data:image/jpeg;base64,"@,
    }
}

/// The data-URL prefix for an extension as `Path::extension` gives it.
pub fn mime_for_extension(ext: &Option<String>) -> (r: &'static str)
    ensures
        r@ == spec_mime_for_extension(opt_view(*ext)),
{
    match ext {
        Some(ext) => {
            let lower = crate::text::string_of(&crate::manifest::lower_ascii_text(ext.as_str()));
            if str_eq(lower.as_str(), "png") {
                "data:image/png;base64,"
            } else if str_eq(lower.as_str(), "webp") {
                "data:image/webp;base64,"
            } else {
                "data:image/jpeg;base64,"
            }
        },
        None => "data:image/jpeg;base64,",
    }
}

/// The data-URL prefix of a preview image, by the extension that
/// `Path::extension` gives its path; for a `/`-separated path, by the
/// extension of its last component.
pub fn mime_for_path(path: &str) -> (r: &'static str)
    ensures
        slash_separated(path@) ==> r@ == spec_mime_for_extension(slash_extension(path@)),
        !path@.contains('.') ==> r@ == "data:image/jpeg;base64,"@,
{
    let ext = path_extension(path);
    mime_for_extension(&ext)
}

/// The standard Base64 text (RFC 4648 alphabet, with `=` padding) of a byte
/// string.
pub uninterp spec fn base64_standard(bytes: Seq<u8>) -> Seq<char>;

/// The length of padded Base64 text for `n` bytes: four characters for every
/// started group of three bytes.
pub open spec fn base64_len(n: nat) -> nat {
    4 * ((n + 2) / 3)
}

/// Calls `base64::engine::general_purpose::STANDARD.encode`; the result is
/// named by `base64_standard`. The standard engine pads, so the text has
/// four characters for every started group of three bytes; the call panics
/// where that length does not fit in a `usize`, which the requirement
/// leaves out.
#[verifier::external_body]
fn base64_encode(bytes: &[u8]) -> (r: String)
    requires
        base64_len(bytes@.len()) <= usize::MAX,
    ensures
        r@ == base64_standard(bytes@),
        r@.len() == base64_len(bytes@.len()),
{
    base64::Engine::encode(&base64::engine::general_purpose::STANDARD, bytes)
}

/// The data URL of image bytes whose path has the given extension, as
/// `Path::extension` gives it: the prefix of the extension's type, then the
/// bytes in standard Base64.
pub fn data_url_for(ext: &Option<String>, bytes: &[u8]) -> (r: String)
    requires
        base64_len(bytes@.len()) <= usize::MAX,
    ensures
        r@ == spec_mime_for_extension(opt_view(*ext)) + base64_standard(bytes@),
{
    crate::text::concat(mime_for_extension(ext), base64_encode(bytes).as_str())
}

/// The data URL of the image bytes read from `path`: the prefix of the type
/// its extension names (JPEG where it names none we know), then the bytes in
/// standard Base64. For a `/`-separated path the type is that of its last
/// component's extension.
pub fn data_url(path: &str, bytes: &[u8]) -> (r: String)
    requires
        base64_len(bytes@.len()) <= usize::MAX,
    ensures
        slash_separated(path@) ==> r@ == spec_mime_for_extension(slash_extension(path@)) + base64_standard(
            bytes@,
        ),
        exists|ext: Option<Seq<char>>| r@ == #[trigger] spec_mime_for_extension(ext) + base64_standard(bytes@),
{
    let ext = path_extension(path);
    let r = data_url_for(&ext, bytes);
    assert(r@ == spec_mime_for_extension(opt_view(ext)) + base64_standard(bytes@));
    r
}

/// The data URL of JPEG bytes (thumbnails and cached previews).
pub fn jpeg_data_url(bytes: &[u8]) -> (r: String)
    requires
        base64_len(bytes@.len()) <= usize::MAX,
    ensures
        r@ == "data:image/jpeg;base64,"@ + base64_standard(bytes@),
{
    crate::text::concat("data:image/jpeg;base64,", base64_encode(bytes).as_str())
}

} // verus!
