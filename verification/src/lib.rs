//! Verified core of a terminal git client: what its screens show, how the
//! cursor and selection move, and which git commands its operations run.
use vstd::prelude::*;

pub mod ai;
pub mod config;
pub mod diff;
pub mod error;
pub mod item_data;
pub mod items;
pub mod ops;
pub mod path;
pub mod screen;
pub mod sorted;
pub mod style;
pub mod text;

verus! {

} // verus!
