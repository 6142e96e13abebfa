//! Incremental match-and-rank engine for an application launcher.
//!
//! The engine owns an ordered list of candidates, a score table aligned
//! with it slot by slot, and a pending-update level. A presentation layer
//! feeds it reload / query / clear commands and polls the level once per
//! render pass to learn the cheapest refresh that suffices.

pub mod candidate;
pub mod compose;
pub mod config;
pub mod engine;
pub mod level;
pub mod matcher;
