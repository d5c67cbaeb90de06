//! One item of a screen: its data, its nesting depth, whether the cursor
//! may rest on it and whether its section starts collapsed.
use vstd::prelude::*;

use crate::item_data::ItemData;

verus! {

pub struct Item {
    /// Identifies the item across refreshes (collapsed sections are kept by it).
    pub id: u64,
    pub data: ItemData,
    pub depth: usize,
    pub unselectable: bool,
    pub default_collapsed: bool,
}

} // verus!
