use crate::game::descriptor::{AvailableBlock, PlayerBlockData};
use crate::game::registry::GlobalBlockRegistry;
use vstd::prelude::*;

verus! {

/// The number of slots in a row of a menu.
pub const ROW_SLOTS: usize = 9;

/// One item of the statistics menu: its slot, by column and row, the block
/// type and the number of blocks mined of it.
#[derive(Clone, Copy, Debug)]
pub struct StatisticsEntry<'a> {
    pub x: usize,
    pub y: usize,
    pub block: &'a AvailableBlock,
    pub mined_count: u128,
}

/// The ordinals below `upto` that the registry knows, in rising order.
pub open spec fn known_ordinals(registry: Map<usize, AvailableBlock>, upto: int) -> Seq<usize>
    decreases upto,
{
    if upto <= 0 {
        seq![]
    } else if registry.contains_key((upto - 1) as usize) {
        known_ordinals(registry, upto - 1).push((upto - 1) as usize)
    } else {
        known_ordinals(registry, upto - 1)
    }
}

/// Whether the entry is the item number `k` of the menu and shows the
/// block type of the ordinal with the player's count for it.
pub open spec fn shows(
    entry: StatisticsEntry,
    registry: Map<usize, AvailableBlock>,
    mined: Seq<u128>,
    ordinal: usize,
    k: int,
) -> bool {
    &&& ordinal < mined.len()
    &&& registry.contains_key(ordinal)
    &&& *entry.block == registry[ordinal]
    &&& entry.mined_count == mined[ordinal as int]
    &&& entry.x == k % 9
    &&& entry.y == k / 9
}

/// The statistics menu of a player: one item for each ordinal that the
/// player has a count for and the registry knows, in rising order of the
/// ordinals, filling the rows from the left, row after row.
pub fn mined_statistics_page<'a>(
    data: &PlayerBlockData,
    registry: &'a GlobalBlockRegistry,
) -> (entries: Vec<StatisticsEntry<'a>>)
    ensures
        entries@.len() == known_ordinals(registry@, data.mined_blocks@.len() as int).len(),
        forall|k: int|
            0 <= k < entries@.len() ==> shows(
                #[trigger] entries@[k],
                registry@,
                data.mined_blocks@,
                known_ordinals(registry@, data.mined_blocks@.len() as int)[k],
                k,
            ),
{
    let mut entries: Vec<StatisticsEntry<'a>> = Vec::new();
    let mut counter_x: usize = 0;
    let mut counter_y: usize = 0;
    let mut ordinal: usize = 0;
    while ordinal < data.mined_blocks.len()
        invariant
            ordinal <= data.mined_blocks@.len(),
            entries@.len() == known_ordinals(registry@, ordinal as int).len(),
            entries@.len() <= ordinal,
            counter_x == entries@.len() % 9,
            counter_y == entries@.len() / 9,
            forall|k: int|
                0 <= k < entries@.len() ==> shows(
                    #[trigger] entries@[k],
                    registry@,
                    data.mined_blocks@,
                    known_ordinals(registry@, ordinal as int)[k],
                    k,
                ),
        decreases data.mined_blocks@.len() - ordinal,
    {
        let ghost before = entries@;
        let ghost known = known_ordinals(registry@, ordinal as int);
        if let Some(block) = registry.search_by_ordinal(ordinal) {
            entries.push(
                StatisticsEntry {
                    x: counter_x,
                    y: counter_y,
                    block,
                    mined_count: data.mined_blocks[ordinal],
                },
            );
            counter_x += 1;
            if counter_x == ROW_SLOTS {
                counter_y += 1;
                counter_x = 0;
            }
        }
        proof {
            let next = known_ordinals(registry@, ordinal + 1);
            assert(next == if registry@.contains_key(ordinal) {
                known.push(ordinal)
            } else {
                known
            });
            assert forall|k: int| 0 <= k < entries@.len() implies shows(
                #[trigger] entries@[k],
                registry@,
                data.mined_blocks@,
                next[k],
                k,
            ) by {
                if k < before.len() {
                    assert(entries@[k] == before[k]);
                    assert(next[k] == known[k]);
                }
            }
        }
        ordinal += 1;
    }
    entries
}

} // verus!
