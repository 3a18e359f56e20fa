//! Translating chapters: prompts, previews, rerun decisions and the
//! decisions of the translation run.

pub mod cmd;
pub mod orchestrate;
pub mod preview;
pub mod prompt;
pub mod providers;
pub mod rerun;
pub mod test_helpers;
pub mod types;

pub use crate::translate::types::TranslationUsage;
