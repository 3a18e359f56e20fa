//! Deciding which already translated chapters a rerun must translate again,
//! and when the glossary baseline moves.

pub mod baseline;
pub mod decisions;
pub mod glossary;
pub mod types;
