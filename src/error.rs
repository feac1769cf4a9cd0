use image::ImageError;
use vstd::prelude::*;
use vstd::string::{to_string_from_display_ensures, StringExecFns};

verus! {

/// A file whose bytes could not be recognised as an image.
#[derive(Debug)]
pub struct BadImage {
    pub path: String,
    pub error: ImageError,
}

/// Why a path could not be reconciled.
#[derive(Debug)]
pub enum Error {
    /// The bytes of the file carry no known image signature.
    Image(BadImage),
    /// The final segment of the path has no `.`.
    BadExtension(String),
}

impl Error {
    /// The error for a path whose final segment has no `.`.
    pub fn bad_extension(path: &str) -> (r: Error)
        ensures
            r matches Error::BadExtension(p) && p@ == path@,
    {
        Error::BadExtension(String::from_str(path))
    }

    /// The error for a file at `path` whose bytes `image` could not recognise.
    pub fn bad_image(path: &str, error: ImageError) -> (r: Error)
        ensures
            r matches Error::Image(b) && b.path@ == path@ && b.error == error,
    {
        Error::Image(BadImage { path: String::from_str(path), error })
    }

    /// The text shown to a user for this error.
    pub fn message(&self) -> (r: String)
        ensures
            self matches Error::BadExtension(p) ==> r@ == "no usable extension: "@ + p@,
            self matches Error::Image(b) ==> exists|cause: String|
                to_string_from_display_ensures::<ImageError>(&b.error, cause) && r@ == cause@
                    + " ("@ + b.path@ + ")"@,
    {
        match self {
            Error::BadExtension(p) => String::from_str("no usable extension: ").concat(p.as_str()),
            Error::Image(b) => {
                let cause = b.error.to_string();
                cause.concat(" (").concat(b.path.as_str()).concat(")")
            },
        }
    }
}

} // verus!
