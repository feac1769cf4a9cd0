//! Reconciles image file names with the format their bytes actually hold.
//!
//! The library decides; the caller reads files, renames them and prints.
//! A path's extension is read from its final segment, the file's bytes are
//! sniffed for a known image signature, and the extension is compared,
//! ignoring ASCII case, with the extensions registered for that format.

mod args;
mod error;
mod format;
mod paths;
mod reconcile;

pub use args::{Args, SniffPolicy};
pub use error::{BadImage, Error};
pub use format::{
    ascii_lower, eq_ignore_ascii_case, extension_allowed, format_extensions, guess_format,
    is_allowed_extension, preferred_extension, sniffed_format,
};
pub use paths::{
    basename_start, display_filename, extension, extension_dot, file_name, file_name_or_path,
    is_current_dir, is_parent_dir, lemma_extension_dot_bounds, read_extension, replace_extension,
    stem, with_extension,
};
pub use reconcile::{
    lemma_matching_extension_is_kept, lemma_mismatch_is_renamed, lemma_mismatch_is_suggested,
    lemma_no_dot_is_rejected, lemma_preferred_extension_is_allowed, reconcile, reconciliation,
    report_line, Outcome, OutcomeModel,
};
