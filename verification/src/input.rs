use crate::error::ChangelogError;
use vstd::prelude::*;

verus! {

/// Where the changelog comes from.
#[derive(Clone, Debug, PartialEq, Eq)]
pub enum Source {
    /// The changelog itself was given.
    Inline(String),
    /// The path of the file that holds the changelog was given.
    File(String),
}

/// Decides where the changelog comes from: exactly one of the two must be given.
pub fn choose_source(content: Option<String>, path: Option<String>) -> (r: Result<
    Source,
    ChangelogError,
>)
    ensures
        match (content, path) {
            (Some(text), None) => r == Ok::<Source, ChangelogError>(Source::Inline(text)),
            (None, Some(file)) => r == Ok::<Source, ChangelogError>(Source::File(file)),
            _ => r == Err::<Source, ChangelogError>(ChangelogError::InputConflict),
        },
{
    match (content, path) {
        (Some(text), None) => Ok(Source::Inline(text)),
        (None, Some(file)) => Ok(Source::File(file)),
        _ => Err(ChangelogError::InputConflict),
    }
}

} // verus!
