//! Fantasy-league scoring for motorsport results: a normalised result model,
//! a roster resolver that puts every entry at its fixed display ordinal, a
//! scoring engine, and a report builder.

pub mod display_order;
pub mod error;
pub mod puller;
pub mod result;
pub mod roster;
pub mod score;
pub mod text;
pub mod withdrawn;
