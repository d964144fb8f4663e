use crate::game::descriptor::{AvailableBlock, AvailableBlockData};
use std::collections::HashMap;
use vstd::prelude::*;
use vstd::std_specs::hash::spec_values_iter;
use vstd::std_specs::iter::IteratorSpec;

verus! {

broadcast use vstd::std_specs::hash::group_hash_axioms;

/// The registry that lists the items in their order: each block type under
/// its ordinal, a later item in place of an earlier one with the same
/// ordinal.
pub open spec fn registered(items: Seq<AvailableBlock>) -> Map<usize, AvailableBlock>
    decreases items.len(),
{
    if items.len() == 0 {
        Map::empty()
    } else {
        registered(items.drop_last()).insert(items.last().block_data.block_ordinal, items.last())
    }
}

/// Every block type of [`registered`] stands under its own ordinal.
pub proof fn lemma_registered_by_ordinal(items: Seq<AvailableBlock>, ordinal: usize)
    requires
        registered(items).contains_key(ordinal),
    ensures
        registered(items)[ordinal].block_data.block_ordinal == ordinal,
        items.contains(registered(items)[ordinal]),
    decreases items.len(),
{
    if items.len() > 0 {
        if items.last().block_data.block_ordinal == ordinal {
            assert(items[items.len() - 1] == items.last());
        } else {
            lemma_registered_by_ordinal(items.drop_last(), ordinal);
            let found = registered(items.drop_last())[ordinal];
            let earlier = items.drop_last();
            let i = choose|i: int| 0 <= i < earlier.len() && earlier[i] == found;
            assert(items[i] == found);
        }
    }
}

/// Whether `data` is that of a default block type among the first `upto`
/// of `blocks`.
spec fn default_among(blocks: Seq<&AvailableBlock>, upto: int, data: AvailableBlockData) -> bool {
    exists|j: int|
        0 <= j < upto && (#[trigger] blocks[j]).is_default && blocks[j].block_data == data
}

/// The block types that exist, by ordinal. Read-only once made.
pub struct GlobalBlockRegistry {
    available_blocks: HashMap<usize, AvailableBlock>,
}

impl View for GlobalBlockRegistry {
    type V = Map<usize, AvailableBlock>;

    closed spec fn view(&self) -> Map<usize, AvailableBlock> {
        self.available_blocks@
    }
}

impl GlobalBlockRegistry {
    #[verifier::type_invariant]
    spec fn keyed_by_ordinal(&self) -> bool {
        forall|k: usize| #[trigger]
            self.available_blocks@.contains_key(k)
                ==> self.available_blocks@[k].block_data.block_ordinal == k
    }

    /// Makes the registry of the listed block types.
    pub fn create(items: Vec<AvailableBlock>) -> (r: Self)
        ensures
            r@ == registered(items@),
    {
        let ghost all = items@;
        let mut available_blocks: HashMap<usize, AvailableBlock> = HashMap::with_capacity(
            items.len(),
        );
        assert(all.take(0) =~= Seq::<AvailableBlock>::empty());
        for item in iter: items
            invariant
                iter.seq() == all,
                available_blocks@ == registered(all.take(iter.index() as int)),
                forall|k: usize| #[trigger]
                    available_blocks@.contains_key(k)
                        ==> available_blocks@[k].block_data.block_ordinal == k,
        {
            assert(all.take(iter.index() + 1).drop_last() =~= all.take(iter.index() as int));
            available_blocks.insert(item.block_data.block_ordinal, item);
        }
        assert(all.take(all.len() as int) =~= all);
        GlobalBlockRegistry { available_blocks }
    }

    /// The block type with the ordinal, if the registry has one.
    pub fn search_by_ordinal(&self, ordinal: usize) -> (r: Option<&AvailableBlock>)
        ensures
            match r {
                Some(block) => self@.contains_key(ordinal) && *block == self@[ordinal]
                    && block.block_data.block_ordinal == ordinal,
                None => !self@.contains_key(ordinal),
            },
    {
        proof {
            use_type_invariant(self);
        }
        self.available_blocks.get(&ordinal)
    }

    /// The registry's block type that equals `data`, which is to say: has
    /// its ordinal.
    pub fn get(&self, data: &AvailableBlockData) -> (r: Option<&AvailableBlock>)
        ensures
            match r {
                Some(block) => self@.contains_key(data.block_ordinal) && *block
                    == self@[data.block_ordinal] && block.block_data.block_ordinal
                    == data.block_ordinal,
                None => !self@.contains_key(data.block_ordinal),
            },
    {
        proof {
            use_type_invariant(self);
        }
        self.available_blocks.get(&data.block_ordinal)
    }

    /// Every block type of the registry, each once, in no particular order.
    pub fn get_all(&self) -> (all: Vec<&AvailableBlock>)
        ensures
            all@.len() == self@.len(),
            all@.unref().to_set() == self@.values(),
            all@.unref().no_duplicates(),
            forall|i: int|
                0 <= i < all@.len() ==> self@.contains_key(
                    (#[trigger] all@[i]).block_data.block_ordinal,
                ) && self@[all@[i].block_data.block_ordinal] == *all@[i],
    {
        let mut all: Vec<&AvailableBlock> = Vec::new();
        for block in iter: self.available_blocks.values()
            invariant
                all@ == iter.seq().take(iter.index() as int),
                iter.seq() == spec_values_iter(&self.available_blocks).remaining(),
        {
            all.push(block);
        }
        assert(all@ =~= spec_values_iter(&self.available_blocks).remaining());
        proof {
            use_type_invariant(self);
            let blocks = all@.unref();
            assert(self@.is_injective());
            self@.lemma_injective_values_len();
            blocks.lemma_no_dup_set_cardinality();
            assert forall|i: int| 0 <= i < all@.len() implies self@.contains_key(
                (#[trigger] all@[i]).block_data.block_ordinal,
            ) && self@[all@[i].block_data.block_ordinal] == *all@[i] by {
                assert(blocks[i] == *all@[i]);
                assert(blocks.to_set().contains(blocks[i]));
                assert(self@.values().contains(*all@[i]));
            }
        }
        all
    }

    /// The data of the block types that every new player has unlocked:
    /// each of the registry's default block types once, in no particular
    /// order.
    pub fn default_blocks(&self) -> (unlocked: Vec<AvailableBlockData>)
        ensures
            unlocked@.no_duplicates(),
            forall|data: AvailableBlockData|
                unlocked@.contains(data) <==> self@.contains_key(data.block_ordinal)
                    && self@[data.block_ordinal].is_default && self@[data.block_ordinal].block_data
                    == data,
    {
        let all = self.get_all();
        let mut unlocked: Vec<AvailableBlockData> = Vec::new();
        let mut i: usize = 0;
        while i < all.len()
            invariant
                i <= all@.len(),
                all@.unref().no_duplicates(),
                all@.unref().to_set() == self@.values(),
                forall|j: int|
                    0 <= j < all@.len() ==> self@.contains_key(
                        (#[trigger] all@[j]).block_data.block_ordinal,
                    ) && self@[all@[j].block_data.block_ordinal] == *all@[j],
                forall|k: int|
                    0 <= k < unlocked@.len() ==> default_among(
                        all@,
                        i as int,
                        #[trigger] unlocked@[k],
                    ),
                forall|j: int|
                    0 <= j < i && all@[j].is_default ==> unlocked@.contains(
                        (#[trigger] all@[j]).block_data,
                    ),
                unlocked@.no_duplicates(),
            decreases all@.len() - i,
        {
            let block = all[i];
            let ghost before = unlocked@;
            if block.is_default {
                assert(!before.contains(block.block_data)) by {
                    if before.contains(block.block_data) {
                        let k = choose|k: int|
                            0 <= k < before.len() && before[k] == block.block_data;
                        assert(default_among(all@, i as int, before[k]));
                        let j = choose|j: int|
                            0 <= j < i && (#[trigger] all@[j]).is_default && all@[j].block_data
                                == before[k];
                        assert(self@[all@[j].block_data.block_ordinal] == *all@[j]);
                        assert(self@[all@[i as int].block_data.block_ordinal] == *all@[i as int]);
                        assert(all@.unref()[j] == all@.unref()[i as int]);
                    }
                }
                unlocked.push(block.block_data);
                assert forall|j: int|
                    0 <= j < i + 1 && all@[j].is_default implies unlocked@.contains(
                    (#[trigger] all@[j]).block_data,
                ) by {
                    if j < i {
                        let k = choose|k: int|
                            0 <= k < before.len() && before[k] == all@[j].block_data;
                        assert(unlocked@[k] == all@[j].block_data);
                    } else {
                        assert(unlocked@[before.len() as int] == all@[j].block_data);
                    }
                }
            }
            assert forall|k: int| 0 <= k < unlocked@.len() implies default_among(
                all@,
                i + 1,
                #[trigger] unlocked@[k],
            ) by {
                if k < before.len() {
                    assert(default_among(all@, i as int, before[k]));
                    let j = choose|j: int|
                        0 <= j < i && (#[trigger] all@[j]).is_default && all@[j].block_data
                            == before[k];
                    assert(all@[j].is_default && all@[j].block_data == unlocked@[k]);
                } else {
                    assert(all@[i as int].is_default && all@[i as int].block_data == unlocked@[k]);
                }
            }
            i += 1;
        }
        proof {
            assert forall|data: AvailableBlockData|
                unlocked@.contains(data) <==> self@.contains_key(data.block_ordinal)
                    && self@[data.block_ordinal].is_default && self@[data.block_ordinal].block_data
                    == data by {
                if unlocked@.contains(data) {
                    let k = choose|k: int| 0 <= k < unlocked@.len() && unlocked@[k] == data;
                    assert(default_among(all@, i as int, unlocked@[k]));
                    let j = choose|j: int|
                        0 <= j < i && (#[trigger] all@[j]).is_default && all@[j].block_data
                            == unlocked@[k];
                    assert(self@[all@[j].block_data.block_ordinal] == *all@[j]);
                }
                if self@.contains_key(data.block_ordinal) && self@[data.block_ordinal].is_default
                    && self@[data.block_ordinal].block_data == data {
                    let block = self@[data.block_ordinal];
                    assert(self@.values().contains(block));
                    assert(all@.unref().to_set().contains(block));
                    assert(all@.unref().contains(block));
                    let j = choose|j: int| 0 <= j < all@.unref().len() && all@.unref()[j] == block;
                    assert(*all@[j] == block);
                    assert(unlocked@.contains(all@[j].block_data));
                }
            }
        }
        unlocked
    }
}

} // verus!
