//! Completing a loose patch: hunks that come without line numbers, and with
//! context that is only nearly that of the file, are located in the file and
//! rewritten as exact unified-diff hunks.

pub mod complete;
pub mod exact;
pub mod hunk;
pub mod laws;
pub mod matching;
pub mod search;
pub mod strict;

pub use complete::complete;
pub use matching::MatchTier;
