//! Tagged-value parsing and dispatch.
//!
//! A closed set of value variants (integer, float, text, string list,
//! integer list, JSON object, JSON object list) is parsed from a
//! prefix-tagged textual form, rendered back to a display string, and
//! dispatched through a container that tracks a per-value mutation counter.

pub mod container;
pub mod counter;
pub mod data;
pub mod jsonio;
pub mod numtext;
pub mod textfmt;
