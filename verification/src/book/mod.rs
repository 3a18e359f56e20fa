//! A book's layout on disk, its configuration, and how its chapters are
//! rendered.

pub mod chapters;
pub mod init;
pub mod output;
pub mod paths;

pub use crate::book::init::BookConfig;
pub use crate::book::output::{OutputConfig, StructuredChapter};
pub use crate::book::paths::BookLayout;
