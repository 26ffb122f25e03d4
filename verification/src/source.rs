//! Input-source disambiguation for `push`.
//!
//! Content may come from exactly one of: an inline data string, a file path,
//! the system clipboard, or (by default) standard input. Naming more than
//! one explicit source is an error, whichever combination it is.

use vstd::prelude::*;

use crate::errors::PushError;

verus! {

/// Greatest number of content bytes a single stashed item may hold
/// (50 MiB). Checked after the source is read in full.
pub const CONTENT_MAX_BYTES: usize = 50 * 1024 * 1024;

/// The single place content is to be read from.
#[derive(Debug, Clone, Copy, PartialEq, Eq, Structural)]
pub enum ContentSource {
    /// An inline data string was given.
    Data,
    /// A file path was given.
    FilePath,
    /// The clipboard flag was set.
    Clipboard,
    /// Nothing was given: read standard input to its end.
    Stdin,
}

/// How many of the explicit source designators are active.
pub open spec fn active_source_count(data: bool, file_path: bool, clipboard: bool) -> int {
    (if data { 1int } else { 0int }) + (if file_path { 1int } else { 0int })
        + (if clipboard { 1int } else { 0int })
}

/// The source that a given combination of designators selects, owed
/// whenever at most one designator is active.
pub open spec fn selected_source(data: bool, file_path: bool, clipboard: bool) -> ContentSource {
    if data {
        ContentSource::Data
    } else if file_path {
        ContentSource::FilePath
    } else if clipboard {
        ContentSource::Clipboard
    } else {
        ContentSource::Stdin
    }
}

/// Decides where `push` content comes from. Each designator is `true` when
/// the caller supplied it. Fails if and only if more than one designator is
/// active; with none active, standard input is selected.
pub fn resolve_input_source(data: bool, file_path: bool, clipboard: bool) -> (r: Result<
    ContentSource,
    PushError,
>)
    ensures
        active_source_count(data, file_path, clipboard) > 1 ==> r == Err::<
            ContentSource,
            PushError,
        >(PushError::MultipleInputSourcesProvided),
        active_source_count(data, file_path, clipboard) <= 1 ==> r == Ok::<
            ContentSource,
            PushError,
        >(selected_source(data, file_path, clipboard)),
{
    match (data, file_path, clipboard) {
        (true, true, _) | (true, _, true) | (_, true, true) => Err(
            PushError::MultipleInputSourcesProvided,
        ),
        (true, false, false) => Ok(ContentSource::Data),
        (false, true, false) => Ok(ContentSource::FilePath),
        (false, false, true) => Ok(ContentSource::Clipboard),
        (false, false, false) => Ok(ContentSource::Stdin),
    }
}

/// Decides whether resolved content of `len` bytes fits under the size
/// ceiling. Fails, carrying the actual length, if and only if it does not.
pub fn check_content_size(len: usize) -> (r: Result<(), PushError>)
    ensures
        len <= CONTENT_MAX_BYTES ==> r == Ok::<(), PushError>(()),
        len > CONTENT_MAX_BYTES ==> r == Err::<(), PushError>(PushError::ContentTooLarge(len)),
{
    if len > CONTENT_MAX_BYTES {
        Err(PushError::ContentTooLarge(len))
    } else {
        Ok(())
    }
}

} // verus!
