//! Checks container image tags for newer versions.
//!
//! A version pattern such as `<!>.<>.<>` says which parts of a tag are
//! numbers and which of those numbers signal a breaking change. Tags are
//! turned into versions through the pattern, compared, and the newest
//! compatible and breaking candidates are gathered into reports.

pub mod docker_compose;
pub mod dockerfile;
pub mod image;
pub mod matching;
pub mod pattern;
pub mod report;
pub mod search;
pub mod tag_fetcher;
pub mod text;
pub mod version;
pub mod yaml;

pub use crate::report::display_error;
pub use crate::search::{CurrentTagStatus, FindUpdateError, Update, Uptag};
