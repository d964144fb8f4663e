use crate::protocol::{decimal, push_decimal};
use std::cmp::Ordering;
use std::hash::{Hash, Hasher};
use vstd::prelude::*;
use vstd::std_specs::cmp::{PartialEqSpecImpl, PartialOrdSpecImpl};
use vstd::string::StringExecFns;

verus! {

/// What the registry knows of one block type. The ordinal identifies it:
/// equality, order and hash go by the ordinal alone.
#[derive(Clone, Copy, Debug)]
pub struct AvailableBlockData {
    pub block_ordinal: usize,
    pub block_id: i32,
    pub item_id: i32,
    pub initial_health: u128,
}

impl PartialEq for AvailableBlockData {
    fn eq(&self, other: &Self) -> (r: bool) {
        self.block_ordinal == other.block_ordinal
    }
}

impl PartialEqSpecImpl for AvailableBlockData {
    open spec fn obeys_eq_spec() -> bool {
        true
    }

    open spec fn eq_spec(&self, other: &Self) -> bool {
        self.block_ordinal == other.block_ordinal
    }
}

impl Eq for AvailableBlockData {

}

impl PartialOrd for AvailableBlockData {
    fn partial_cmp(&self, other: &Self) -> (r: Option<Ordering>) {
        if self.block_ordinal < other.block_ordinal {
            Some(Ordering::Less)
        } else if self.block_ordinal == other.block_ordinal {
            Some(Ordering::Equal)
        } else {
            Some(Ordering::Greater)
        }
    }
}

impl PartialOrdSpecImpl for AvailableBlockData {
    open spec fn obeys_partial_cmp_spec() -> bool {
        true
    }

    open spec fn partial_cmp_spec(&self, other: &Self) -> Option<Ordering> {
        if self.block_ordinal < other.block_ordinal {
            Some(Ordering::Less)
        } else if self.block_ordinal == other.block_ordinal {
            Some(Ordering::Equal)
        } else {
            Some(Ordering::Greater)
        }
    }
}

/// `Hash::hash` of std for `usize`: feeds the number to the hasher. Nothing
/// is claimed of the hasher's state.
pub assume_specification<H: Hasher>[ <usize as Hash>::hash ](value: &usize, state: &mut H);

impl Hash for AvailableBlockData {
    fn hash<H: Hasher>(&self, state: &mut H) {
        self.block_ordinal.hash(state)
    }
}

/// A block type as the registry lists it: its data, the name shown to
/// players, and whether every new player has it unlocked.
#[derive(Clone, Debug)]
pub struct AvailableBlock {
    pub block_data: AvailableBlockData,
    pub friendly_name: String,
    pub is_default: bool,
}

/// What the item of a block type shows in a menu.
#[derive(Clone, Debug, PartialEq, Eq)]
pub struct ItemLabel {
    pub item_id: i32,
    pub display_name: String,
    /// The line of the lore that tells how many blocks were mined.
    pub mined_line: String,
}

impl AvailableBlock {
    /// The item that stands for the block type in the statistics menu: the
    /// block's item under its friendly name, with the number of blocks
    /// mined in decimal behind `Mined: x`.
    pub fn create_item(&self, mined_count: u128) -> (item: ItemLabel)
        ensures
            item.item_id == self.block_data.item_id,
            item.display_name@ == self.friendly_name@,
            item.mined_line@ == "Mined: x"@ + decimal(mined_count as nat),
    {
        let mut mined_line = String::from_str("Mined: x");
        push_decimal(&mut mined_line, mined_count);
        ItemLabel {
            item_id: self.block_data.item_id,
            display_name: self.friendly_name.clone(),
            mined_line,
        }
    }
}

/// What one player has unlocked and mined. `mined_blocks` counts the blocks
/// mined of each block type, by ordinal; `changed` says whether anything
/// here is newer than what was last saved.
#[derive(Clone, Debug, PartialEq)]
pub struct PlayerBlockData {
    pub unlocked_blocks: Vec<AvailableBlockData>,
    pub mined_blocks: Vec<u128>,
    pub changed: bool,
}

impl Default for PlayerBlockData {
    fn default() -> (r: Self)
        ensures
            r.unlocked_blocks@ == Seq::<AvailableBlockData>::empty(),
            r.mined_blocks@ == Seq::<u128>::empty(),
            !r.changed,
    {
        PlayerBlockData { unlocked_blocks: Vec::new(), mined_blocks: Vec::new(), changed: false }
    }
}

} // verus!
