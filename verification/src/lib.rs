//! Picks out, and merges, the sections of a changelog that is written in Markdown with one
//! heading of level 2 for each version.

pub mod assemble;
pub mod document;
pub mod entry;
pub mod error;
pub mod extract;
pub mod input;
pub mod merge;
pub mod segment;
pub mod text;
pub mod version;

pub use assemble::assemble;
pub use document::{Block, NodeKind, VersionTitle};
pub use entry::{Entry, Role};
pub use error::ChangelogError;
pub use extract::{extract_blocks, extract_content, extract_entries};
pub use input::{choose_source, Source};
pub use merge::{merge_blocks, merge_entries, merge_pre_release_changelogs};
pub use segment::{segment, MergePart, Segmentation};
pub use version::Version;
