use vstd::prelude::*;

pub mod text;
pub mod ordered_map;
pub mod types_bridge;
pub mod error;
pub mod model;
pub mod parse;
pub mod serial;
pub mod ch10;
pub mod version;
pub mod validate;
pub mod query;
pub mod repair;
pub mod generate;
pub mod xml;
pub mod xml_read_back;
pub mod cli;
pub mod round_trip;

verus! {

/// The version of this library, `MAJOR.MINOR.PATCH`, as its package carries it.
pub const VERSION: &'static str = "0.1.0";

} // verus!
