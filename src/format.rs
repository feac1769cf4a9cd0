use image::{ImageError, ImageFormat};
use uncased::UncasedStr;
use vstd::prelude::*;
use crate::error::Error;

verus! {

/// `image::ImageFormat`, carried through as an opaque value.
#[verifier::external_type_specification]
#[verifier::external_body]
pub struct ExImageFormat(ImageFormat);

/// `image::ImageError`, carried through as an opaque value.
#[verifier::external_type_specification]
#[verifier::external_body]
pub struct ExImageError(ImageError);

/// The extensions that `image` registers for a format, the preferred one first.
pub uninterp spec fn format_extensions(format: ImageFormat) -> Seq<Seq<char>>;

/// The format that `image` recognises from the signature at the start of `bytes`.
pub uninterp spec fn sniffed_format(bytes: Seq<u8>) -> Option<ImageFormat>;

/// The ASCII lower-case code of a character; other characters keep their code.
pub open spec fn ascii_lower(c: char) -> u32 {
    if 65 <= c as u32 <= 90 {
        (c as u32 + 32) as u32
    } else {
        c as u32
    }
}

/// Two strings are equal once ASCII letters are folded to lower case.
pub open spec fn eq_ignore_ascii_case(a: Seq<char>, b: Seq<char>) -> bool {
    &&& a.len() == b.len()
    &&& forall|i: int| 0 <= i < a.len() ==> ascii_lower(#[trigger] a[i]) == ascii_lower(b[i])
}

/// An extension is allowed when it matches one of `exts`, ignoring ASCII case.
pub open spec fn extension_allowed(ext: Seq<char>, exts: Seq<Seq<char>>) -> bool {
    exists|i: int| 0 <= i < exts.len() && eq_ignore_ascii_case(ext, #[trigger] exts[i])
}

/// Relies on `ImageFormat::extensions_str`: the registered extensions of a
/// format, the preferred one first. In image 0.25 every format lists one at least.
#[verifier::external_body]
fn registered_extensions(format: ImageFormat) -> (r: &'static [&'static str])
    ensures
        r@.len() == format_extensions(format).len(),
        forall|i: int| 0 <= i < r@.len() ==> (#[trigger] r@[i])@ == format_extensions(format)[i],
        r@.len() > 0,
{
    format.extensions_str()
}

/// Relies on uncased's `PartialEq` of `UncasedStr` with `str`, which is
/// `str::eq_ignore_ascii_case`.
#[verifier::external_body]
fn uncased_eq(a: &str, b: &str) -> (r: bool)
    ensures
        r == eq_ignore_ascii_case(a@, b@),
{
    UncasedStr::new(a) == b
}

/// Relies on `image::guess_format`: the format whose signature starts the
/// buffer, or an error when no known signature does.
#[verifier::external_body]
fn sniff(buffer: &[u8]) -> (r: Result<ImageFormat, ImageError>)
    ensures
        r is Ok <==> sniffed_format(buffer@) is Some,
        r matches Ok(f) ==> sniffed_format(buffer@) == Some(f),
{
    image::guess_format(buffer)
}

/// The canonical extension of a format: the first one registered for it.
pub fn preferred_extension(format: ImageFormat) -> (r: &'static str)
    ensures
        format_extensions(format).len() > 0,
        r@ == format_extensions(format)[0],
        extension_allowed(r@, format_extensions(format)),
{
    let exts = registered_extensions(format);
    let r = exts[0];
    assert(eq_ignore_ascii_case(r@, format_extensions(format)[0]));
    r
}

/// Whether `extension` names `format`, ignoring ASCII case.
pub fn is_allowed_extension(extension: &str, format: ImageFormat) -> (r: bool)
    ensures
        r == extension_allowed(extension@, format_extensions(format)),
{
    let exts = registered_extensions(format);
    let mut i: usize = 0;
    while i < exts.len()
        invariant
            i <= exts@.len(),
            exts@.len() == format_extensions(format).len(),
            forall|k: int| 0 <= k < exts@.len() ==> (#[trigger] exts@[k])@ == format_extensions(format)[k],
            forall|k: int| 0 <= k < i ==> !eq_ignore_ascii_case(extension@, #[trigger] format_extensions(format)[k]),
        decreases exts@.len() - i,
    {
        if uncased_eq(extension, exts[i]) {
            return true;
        }
        i = i + 1;
    }
    false
}


/// Sniffs the bytes of the file at `path` for an image format.
pub fn guess_format(path: &str, buffer: &[u8]) -> (r: Result<ImageFormat, Error>)
    ensures
        match sniffed_format(buffer@) {
            Some(f) => r == Ok::<ImageFormat, Error>(f),
            None => r matches Err(Error::Image(b)) && b.path@ == path@,
        },
{
    match sniff(buffer) {
        Ok(format) => Ok(format),
        Err(e) => Err(Error::bad_image(path, e)),
    }
}

} // verus!
