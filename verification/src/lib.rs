pub mod book;
pub mod config;
pub mod error;
pub mod glossary;
pub mod import;
pub mod state;
pub mod strmap;
pub mod text;
pub mod translate;
pub mod validate;

use vstd::prelude::*;

verus! {

/// Which kinds of change a rerun looks for.
#[derive(Debug, Clone, Copy, PartialEq, Eq, Structural)]
pub enum RerunMode {
    All,
    Glossary,
    Source,
}

/// The name of a rerun mode on the command line.
pub open spec fn rerun_mode_name(m: RerunMode) -> Seq<char> {
    match m {
        RerunMode::All => "all"@,
        RerunMode::Glossary => "glossary"@,
        RerunMode::Source => "source"@,
    }
}

impl RerunMode {
    /// The mode's name, as the command line spells it.
    pub fn to_string(&self) -> (r: String)
        ensures
            r@ == rerun_mode_name(*self),
    {
        match self {
            RerunMode::All => crate::text::lit("all"),
            RerunMode::Glossary => crate::text::lit("glossary"),
            RerunMode::Source => crate::text::lit("source"),
        }
    }
}

} // verus!
