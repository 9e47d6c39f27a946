//! Earlier designs kept for reference: a one-pole DC blocker and a Moog-style
//! ladder filter, superseded by the [`crate::simper`] filters.

pub mod dc_blocker;
pub mod moog;
