use image::ImageFormat;
use vstd::prelude::*;
use vstd::string::StringExecFns;
use crate::error::Error;
use crate::format::{
    eq_ignore_ascii_case, extension_allowed, format_extensions, is_allowed_extension,
    preferred_extension,
};
use crate::paths::{
    basename_start, file_name_or_path, display_filename, extension, extension_dot,
    lemma_extension_dot_bounds, read_extension, replace_extension, stem, with_extension,
};

verus! {

/// What reconciling one path decides, as a mathematical value.
pub enum OutcomeModel {
    Match,
    Suggest(Seq<char>),
    Rename(Seq<char>),
}

/// What to do about one path once its format is known.
#[derive(Debug, PartialEq, Eq)]
pub enum Outcome {
    /// The extension already names the format: nothing to do or print.
    Match,
    /// Report the preferred extension; the file is left alone.
    Suggest { extension: String },
    /// Rename the file to `to`, which keeps its directory and stem.
    Rename { to: String },
}

impl View for Outcome {
    type V = OutcomeModel;

    open spec fn view(&self) -> OutcomeModel {
        match self {
            Outcome::Match => OutcomeModel::Match,
            Outcome::Suggest { extension } => OutcomeModel::Suggest(extension@),
            Outcome::Rename { to } => OutcomeModel::Rename(to@),
        }
    }
}

/// The decision for `path` when its bytes hold a format whose registered
/// extensions are `exts`; `None` when the path has no extension to compare.
pub open spec fn reconciliation(path: Seq<char>, exts: Seq<Seq<char>>, force: bool) -> Option<
    OutcomeModel,
> {
    match extension_dot(path) {
        None => None,
        Some(_) => if extension_allowed(extension(path), exts) {
            Some(OutcomeModel::Match)
        } else if force {
            Some(OutcomeModel::Rename(with_extension(path, exts[0])))
        } else {
            Some(OutcomeModel::Suggest(exts[0]))
        },
    }
}

/// The line printed for a decision on `path`, if any.
pub open spec fn report_line(path: Seq<char>, outcome: OutcomeModel) -> Option<Seq<char>> {
    match outcome {
        OutcomeModel::Match => None,
        OutcomeModel::Suggest(ext) => Some(file_name_or_path(path) + " -> "@ + ext),
        OutcomeModel::Rename(to) => Some(file_name_or_path(to)),
    }
}

/// Compares the extension of `path` with the extensions of the format its
/// bytes hold, and decides what to do: nothing, suggest the preferred
/// extension, or, when `force` is set, rename to it.
pub fn reconcile(path: &str, format: ImageFormat, force: bool) -> (r: Result<Outcome, Error>)
    ensures
        match reconciliation(path@, format_extensions(format), force) {
            None => r matches Err(Error::BadExtension(p)) && p@ == path@,
            Some(o) => r matches Ok(out) && out@ == o,
        },
{
    let ext = match read_extension(path) {
        Ok(e) => e,
        Err(e) => return Err(e),
    };
    if is_allowed_extension(ext, format) {
        return Ok(Outcome::Match);
    }
    let preferred = preferred_extension(format);
    if force {
        match replace_extension(path, preferred) {
            Some(to) => Ok(Outcome::Rename { to }),
            None => Err(Error::bad_extension(path)),
        }
    } else {
        Ok(Outcome::Suggest { extension: String::from_str(preferred) })
    }
}

impl Outcome {
    /// The line to print for this outcome on `path`: the file name and the
    /// preferred extension for a suggestion, the new file name after a rename.
    pub fn message(&self, path: &str) -> (r: Option<String>)
        ensures
            match report_line(path@, self@) {
                None => r is None,
                Some(line) => r matches Some(s) && s@ == line,
            },
    {
        match self {
            Outcome::Match => None,
            Outcome::Suggest { extension } => {
                let s = String::from_str(display_filename(path)).concat(" -> ").concat(
                    extension.as_str(),
                );
                Some(s)
            },
            Outcome::Rename { to } => Some(String::from_str(display_filename(to.as_str()))),
        }
    }
}

/// The preferred extension of a format is always one of its allowed extensions.
pub proof fn lemma_preferred_extension_is_allowed(format: ImageFormat)
    requires
        format_extensions(format).len() > 0,
    ensures
        extension_allowed(format_extensions(format)[0], format_extensions(format)),
{
    let exts = format_extensions(format);
    assert(eq_ignore_ascii_case(exts[0], exts[0]));
}

/// A path whose extension matches one of the format's extensions, in any
/// ASCII case, is left as it is and nothing is printed for it, forced or not.
pub proof fn lemma_matching_extension_is_kept(path: Seq<char>, exts: Seq<Seq<char>>, force: bool)
    requires
        extension_dot(path) is Some,
        extension_allowed(extension(path), exts),
    ensures
        reconciliation(path, exts, force) == Some(OutcomeModel::Match),
        report_line(path, OutcomeModel::Match) is None,
{
}

/// Without `force`, a mismatched extension yields exactly the line
/// `<file name> -> <preferred extension>`, and no rename.
pub proof fn lemma_mismatch_is_suggested(path: Seq<char>, exts: Seq<Seq<char>>)
    requires
        extension_dot(path) is Some,
        !extension_allowed(extension(path), exts),
    ensures
        reconciliation(path, exts, false) == Some(OutcomeModel::Suggest(exts[0])),
        report_line(path, OutcomeModel::Suggest(exts[0])) == Some(
            file_name_or_path(path) + " -> "@ + exts[0],
        ),
{
}

/// With `force`, a mismatched extension is renamed to `<stem>.<preferred
/// extension>`, and the line printed is the new file name.
pub proof fn lemma_mismatch_is_renamed(path: Seq<char>, exts: Seq<Seq<char>>)
    requires
        extension_dot(path) is Some,
        !extension_allowed(extension(path), exts),
    ensures
        reconciliation(path, exts, true) == Some(
            OutcomeModel::Rename(stem(path) + "."@ + exts[0]),
        ),
        report_line(path, OutcomeModel::Rename(stem(path) + "."@ + exts[0])) == Some(
            file_name_or_path(stem(path) + "."@ + exts[0]),
        ),
{
}

/// A path with no `.` in its final segment has no extension and is
/// rejected, whether or not renaming is forced.
pub proof fn lemma_no_dot_is_rejected(path: Seq<char>, exts: Seq<Seq<char>>)
    requires
        forall|k: int| basename_start(path) <= k < path.len() ==> path[k] != '.',
    ensures
        extension_dot(path) is None,
        reconciliation(path, exts, false) is None,
        reconciliation(path, exts, true) is None,
{
    lemma_extension_dot_bounds(path);
}

} // verus!
