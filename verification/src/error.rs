use vstd::prelude::*;
use vstd::string::StringExecFns;

verus! {

/// Why an operation on a changelog failed.
#[derive(Clone, Copy, Debug, PartialEq, Eq, Structural)]
pub enum ChangelogError {
    /// The text given for the target version is not a semantic version.
    VersionParse,
    /// A range expression that was to be evaluated is not a valid one.
    RangeParse,
    /// Both an inline changelog and a path were given, or neither.
    InputConflict,
    /// No level-2 heading names the target version exactly.
    NoVersionHeadingFound,
    /// More than one level-2 heading names the target version exactly.
    MultipleVersionHeadings,
    /// The operation selected nothing to print.
    NoContentFound,
    /// The document could not be written back as text.
    Render,
}

impl ChangelogError {
    /// The text of the message for each error.
    pub open spec fn message_text(self) -> Seq<char> {
        match self {
            ChangelogError::VersionParse => "Invalid target version"@,
            ChangelogError::RangeParse => "Invalid version range"@,
            ChangelogError::InputConflict => "You must specify either `content` or `path`."@,
            ChangelogError::NoVersionHeadingFound => "No version heading found"@,
            ChangelogError::MultipleVersionHeadings => "Multiple version headings"@,
            ChangelogError::NoContentFound => "No changelog content found"@,
            ChangelogError::Render => "The changelog could not be rendered"@,
        }
    }

    /// A message for the user.
    pub fn message(&self) -> (r: String)
        ensures
            r@ == self.message_text(),
    {
        match self {
            ChangelogError::VersionParse => String::from_str("Invalid target version"),
            ChangelogError::RangeParse => String::from_str("Invalid version range"),
            ChangelogError::InputConflict => String::from_str(
                "You must specify either `content` or `path`.",
            ),
            ChangelogError::NoVersionHeadingFound => String::from_str("No version heading found"),
            ChangelogError::MultipleVersionHeadings => String::from_str(
                "Multiple version headings",
            ),
            ChangelogError::NoContentFound => String::from_str("No changelog content found"),
            ChangelogError::Render => String::from_str("The changelog could not be rendered"),
        }
    }
}

} // verus!
