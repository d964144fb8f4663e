use crate::game::descriptor::AvailableBlockData;
use crate::protocol::{
    batch_updates, batched, lemma_pos_key_injective, pos_key, BlockPos, BlockUpdateInfo,
    ClientboundPacket, PacketView,
};
use rand::rngs::StdRng;
use rand::seq::SliceRandom;
use std::collections::HashMap;
use vstd::prelude::*;

verus! {

broadcast use vstd::std_specs::hash::group_hash_axioms;

/// The generator of `rand` that the store draws from. Nothing of its state is
/// visible to the proofs.
#[verifier::external_type_specification]
#[verifier::external_body]
pub struct ExStdRng(StdRng);

/// One destructible voxel: its block type and the health it has left.
#[derive(Clone, Copy, Debug)]
pub struct DamageableBlock {
    pub block_data: AvailableBlockData,
    pub health: u128,
}

/// The voxels of one player, by position.
pub type Partition = Map<BlockPos, DamageableBlock>;

/// A voxel after one hit: a live voxel loses one point of health, a dead one
/// stays as it is.
pub open spec fn hit(v: DamageableBlock) -> DamageableBlock {
    if v.health == 0 {
        v
    } else {
        DamageableBlock { block_data: v.block_data, health: (v.health - 1) as u128 }
    }
}

/// What a hit on `v` reports: `(0, 0)` where `v` was dead already, else the
/// health left after the hit and the health the voxel started with.
pub open spec fn hit_report(v: DamageableBlock) -> (u128, u128) {
    if v.health == 0 {
        (0, 0)
    } else {
        ((v.health - 1) as u128, v.block_data.initial_health)
    }
}

/// A voxel at full health.
pub open spec fn restored(v: DamageableBlock) -> DamageableBlock {
    DamageableBlock { block_data: v.block_data, health: v.block_data.initial_health }
}

/// Whether the store holds a voxel of the player at the position.
pub open spec fn holds(store: Map<u128, Partition>, player: u128, pos: BlockPos) -> bool {
    store.contains_key(player) && store[player].contains_key(pos)
}

/// The store with `v` as the player's voxel at the position.
pub open spec fn with_voxel(
    store: Map<u128, Partition>,
    player: u128,
    pos: BlockPos,
    v: DamageableBlock,
) -> Map<u128, Partition> {
    store.insert(player, store[player].insert(pos, v))
}

/// The store after a hit on the player's voxel at the position; unchanged
/// where there is none.
pub open spec fn damaged(store: Map<u128, Partition>, player: u128, pos: BlockPos) -> Map<
    u128,
    Partition,
> {
    if holds(store, player, pos) {
        with_voxel(store, player, pos, hit(store[player][pos]))
    } else {
        store
    }
}

/// The store with the player's voxel at the position back at full health;
/// unchanged where there is none.
pub open spec fn reset(store: Map<u128, Partition>, player: u128, pos: BlockPos) -> Map<
    u128,
    Partition,
> {
    if holds(store, player, pos) {
        with_voxel(store, player, pos, restored(store[player][pos]))
    } else {
        store
    }
}

/// The store without the player's voxel at the position; unchanged where
/// there is none.
pub open spec fn without(store: Map<u128, Partition>, player: u128, pos: BlockPos) -> Map<
    u128,
    Partition,
> {
    if holds(store, player, pos) {
        store.insert(player, store[player].remove(pos))
    } else {
        store
    }
}

/// The store after `n` hits in a row on the player's voxel at the position.
pub open spec fn damaged_times(
    store: Map<u128, Partition>,
    player: u128,
    pos: BlockPos,
    n: nat,
) -> Map<u128, Partition>
    decreases n,
{
    if n == 0 {
        store
    } else {
        damaged(damaged_times(store, player, pos, (n - 1) as nat), player, pos)
    }
}

/// Hits count a voxel's health down by one each and stop at zero: after `n`
/// hits in a row a voxel that had health `h` has `h - n` left, or none once
/// `n` has reached `h`; its block type is the same; and the next hit reports
/// the health left after it with the initial health, or `(0, 0)` where there
/// was none left to take.
pub proof fn lemma_damage_counts_down(
    store: Map<u128, Partition>,
    player: u128,
    pos: BlockPos,
    n: nat,
)
    requires
        holds(store, player, pos),
    ensures
        holds(damaged_times(store, player, pos, n), player, pos),
        damaged_times(store, player, pos, n)[player][pos].block_data
            == store[player][pos].block_data,
        damaged_times(store, player, pos, n)[player][pos].health == if n
            <= store[player][pos].health {
            store[player][pos].health - n
        } else {
            0
        },
        hit_report(damaged_times(store, player, pos, n)[player][pos]) == if n
            < store[player][pos].health {
            (
                (store[player][pos].health - n - 1) as u128,
                store[player][pos].block_data.initial_health,
            )
        } else {
            (0u128, 0u128)
        },
    decreases n,
{
    if n > 0 {
        lemma_damage_counts_down(store, player, pos, (n - 1) as nat);
    }
}

/// A voxel at full health `h` is brought to zero by exactly `h` hits: each
/// of the first `h - 1` reports health left, the hit number `h` reports 0
/// left of `h`, and the hit after that reports `(0, 0)`.
pub proof fn lemma_full_health_takes_initial_hits(
    store: Map<u128, Partition>,
    player: u128,
    pos: BlockPos,
    k: nat,
)
    requires
        holds(store, player, pos),
        store[player][pos].health == store[player][pos].block_data.initial_health,
        store[player][pos].health >= 1,
    ensures
        ({
            let h = store[player][pos].health;
            let report = hit_report(damaged_times(store, player, pos, k)[player][pos]);
            &&& k + 1 < h ==> report == (((h - k - 1) as u128), h) && report.0 > 0
            &&& k + 1 == h ==> report == (0u128, h)
            &&& k + 1 > h ==> report == (0u128, 0u128)
        }),
{
    lemma_damage_counts_down(store, player, pos, k);
}

/// Whatever number of hits came before, a reset leaves the voxel with
/// exactly the health that its block type starts with, and with the same
/// block type.
pub proof fn lemma_reset_restores_initial_health(
    store: Map<u128, Partition>,
    player: u128,
    pos: BlockPos,
    n: nat,
)
    requires
        holds(store, player, pos),
    ensures
        holds(reset(damaged_times(store, player, pos, n), player, pos), player, pos),
        reset(damaged_times(store, player, pos, n), player, pos)[player][pos] == restored(
            store[player][pos],
        ),
        restored(store[player][pos]).health == store[player][pos].block_data.initial_health,
{
    lemma_damage_counts_down(store, player, pos, n);
}

/// A new voxel of the block type, at full health.
pub open spec fn fresh(block: AvailableBlockData) -> DamageableBlock {
    DamageableBlock { block_data: block, health: block.initial_health }
}

/// Whether placement runs in this tick: in every twentieth tick, and in
/// every tick while the player is destroying.
pub open spec fn replenishes(current_tick: usize, destroying: bool) -> bool {
    current_tick % 20 == 0 || destroying
}

/// The two slots that placement keeps populated, relative to the anchor.
pub open spec fn placement_slots(offset: BlockPos) -> (BlockPos, BlockPos) {
    (
        BlockPos { x: offset.x, y: (offset.y + 2) as i32, z: offset.z },
        BlockPos { x: (offset.x - 1) as i32, y: (offset.y + 2) as i32, z: offset.z },
    )
}

/// What a draw from the unlocked block types may give: nothing where there
/// are none, else one of them.
pub open spec fn is_pick(
    unlocked: Seq<AvailableBlockData>,
    pick: Option<AvailableBlockData>,
) -> bool {
    match pick {
        Some(block) => unlocked.contains(block),
        None => unlocked.len() == 0,
    }
}

/// The store with a partition for the player: an empty one where the player
/// had none.
pub open spec fn with_partition(store: Map<u128, Partition>, player: u128) -> Map<
    u128,
    Partition,
> {
    if store.contains_key(player) {
        store
    } else {
        store.insert(player, Map::empty())
    }
}

/// Whether the pick goes into the slot: there is a pick, and the slot is empty.
pub open spec fn fills(
    store: Map<u128, Partition>,
    player: u128,
    slot: BlockPos,
    pick: Option<AvailableBlockData>,
) -> bool {
    pick is Some && !holds(store, player, slot)
}

/// The store after the slot was offered the pick.
pub open spec fn populated(
    store: Map<u128, Partition>,
    player: u128,
    slot: BlockPos,
    pick: Option<AvailableBlockData>,
) -> Map<u128, Partition> {
    let prepared = with_partition(store, player);
    if fills(store, player, slot, pick) {
        with_voxel(prepared, player, slot, fresh(pick.unwrap()))
    } else {
        prepared
    }
}

/// The block change that goes with [`populated`]: the new block where the
/// slot was filled.
pub open spec fn slot_change(
    store: Map<u128, Partition>,
    player: u128,
    slot: BlockPos,
    pick: Option<AvailableBlockData>,
) -> Option<BlockUpdateInfo> {
    if fills(store, player, slot, pick) {
        Some(BlockUpdateInfo { block_pos: slot, block_id: pick.unwrap().block_id })
    } else {
        None
    }
}

/// [`slot_change`] as a list of one entry or none.
pub open spec fn slot_update(
    store: Map<u128, Partition>,
    player: u128,
    slot: BlockPos,
    pick: Option<AvailableBlockData>,
) -> Seq<BlockUpdateInfo> {
    match slot_change(store, player, slot, pick) {
        Some(update) => seq![update],
        None => seq![],
    }
}

/// The store after placement ran at the anchor with the two draws: the
/// upper slot is offered the first, then the lower slot the second.
pub open spec fn placed(
    store: Map<u128, Partition>,
    player: u128,
    offset: BlockPos,
    first: Option<AvailableBlockData>,
    second: Option<AvailableBlockData>,
) -> Map<u128, Partition> {
    let slots = placement_slots(offset);
    populated(populated(store, player, slots.0, first), player, slots.1, second)
}

/// The block changes that go with [`placed`], in the order of the slots.
pub open spec fn placement_updates(
    store: Map<u128, Partition>,
    player: u128,
    offset: BlockPos,
    first: Option<AvailableBlockData>,
    second: Option<AvailableBlockData>,
) -> Seq<BlockUpdateInfo> {
    let slots = placement_slots(offset);
    slot_update(store, player, slots.0, first) + slot_update(
        populated(store, player, slots.0, first),
        player,
        slots.1,
        second,
    )
}

/// No voxel of the store has more health than its block type starts with.
pub open spec fn bounded(store: Map<u128, Partition>) -> bool {
    forall|player: u128, pos: BlockPos|
        store.contains_key(player) && #[trigger] store[player].contains_key(pos)
            ==> store[player][pos].health <= store[player][pos].block_data.initial_health
}

/// Placement for a player without a partition, with block types to draw
/// from: afterwards the player has exactly two voxels, one in each slot,
/// each at full health and of a block type among the unlocked ones, and one
/// batched update tells of both, the upper slot first.
pub proof fn lemma_fresh_partition_gets_two_voxels(
    store: Map<u128, Partition>,
    player: u128,
    offset: BlockPos,
    unlocked: Seq<AvailableBlockData>,
    first: Option<AvailableBlockData>,
    second: Option<AvailableBlockData>,
)
    requires
        !store.contains_key(player),
        unlocked.len() > 0,
        is_pick(unlocked, first),
        is_pick(unlocked, second),
        offset.y <= i32::MAX - 2,
        offset.x > i32::MIN,
    ensures
        ({
            let slots = placement_slots(offset);
            let after = placed(store, player, offset, first, second);
            &&& first is Some && unlocked.contains(first.unwrap())
            &&& second is Some && unlocked.contains(second.unwrap())
            &&& after.contains_key(player)
            &&& after[player].dom() == set![slots.0, slots.1]
            &&& slots.0 != slots.1
            &&& after[player][slots.0] == fresh(first.unwrap())
            &&& after[player][slots.1] == fresh(second.unwrap())
            &&& forall|other: u128|
                other != player ==> after.contains_key(other) == store.contains_key(other)
                    && after[other] == store[other]
            &&& batched(placement_updates(store, player, offset, first, second)) == seq![
                PacketView::SectionBlocksUpdate {
                    update_info: seq![
                        BlockUpdateInfo { block_pos: slots.0, block_id: first.unwrap().block_id },
                        BlockUpdateInfo { block_pos: slots.1, block_id: second.unwrap().block_id },
                    ],
                },
            ]
        }),
{
    let slots = placement_slots(offset);
    let after = placed(store, player, offset, first, second);
    assert(after[player].dom() =~= set![slots.0, slots.1]);
    let updates = placement_updates(store, player, offset, first, second);
    assert(updates =~= seq![
        BlockUpdateInfo { block_pos: slots.0, block_id: first.unwrap().block_id },
        BlockUpdateInfo { block_pos: slots.1, block_id: second.unwrap().block_id },
    ]);
}

/// The positions of a hash map keyed by [`pos_key`].
pub closed spec fn partition_of(m: Map<u128, DamageableBlock>) -> Partition {
    Map::new(|p: BlockPos| m.contains_key(pos_key(p)), |p: BlockPos| m[pos_key(p)])
}

proof fn lemma_partition_insert(m: Map<u128, DamageableBlock>, pos: BlockPos, v: DamageableBlock)
    ensures
        partition_of(m.insert(pos_key(pos), v)) == partition_of(m).insert(pos, v),
{
    assert forall|q: BlockPos| pos_key(q) == pos_key(pos) implies q == pos by {
        lemma_pos_key_injective(q, pos);
    }
    assert(partition_of(m.insert(pos_key(pos), v)) =~= partition_of(m).insert(pos, v));
}

proof fn lemma_partition_remove(m: Map<u128, DamageableBlock>, pos: BlockPos)
    ensures
        partition_of(m.remove(pos_key(pos))) == partition_of(m).remove(pos),
{
    assert forall|q: BlockPos| pos_key(q) == pos_key(pos) implies q == pos by {
        lemma_pos_key_injective(q, pos);
    }
    assert(partition_of(m.remove(pos_key(pos))) =~= partition_of(m).remove(pos));
}

/// The per-player store of destructible voxels, with the generator that
/// picks the block types of new ones.
pub struct BlockSystem {
    placed_blocks: HashMap<u128, HashMap<u128, DamageableBlock>>,
    rand_state: StdRng,
}

/// The generator that `SeedableRng::from_seed` of `rand` makes of a seed,
/// before anything was drawn from it.
pub uninterp spec fn seeded(seed: Seq<u8>) -> StdRng;

/// `SeedableRng::from_seed` of `rand` for its standard generator: the
/// generator that comes back is made of the seed and of nothing else, so
/// that the same seed gives the same generator. [`seeded`] names it; what it
/// will draw is not claimed.
#[verifier::external_body]
fn seeded_rng(seed: [u8; 32]) -> (rng: StdRng)
    ensures
        rng == seeded(seed@),
{
    rand::SeedableRng::from_seed(seed)
}

/// `SliceRandom::choose` of `rand` on the block types: `None` for an empty
/// list, else a copy of the element at an index that the generator drew.
/// Which one is not claimed.
#[verifier::external_body]
fn choose_block(blocks: &Vec<AvailableBlockData>, rng: &mut StdRng) -> (r: Option<
    AvailableBlockData,
>)
    ensures
        is_pick(blocks@, r),
{
    blocks.choose(rng).copied()
}

impl View for BlockSystem {
    type V = Map<u128, Partition>;

    closed spec fn view(&self) -> Map<u128, Partition> {
        Map::new(
            |u: u128| self.placed_blocks@.contains_key(u),
            |u: u128| partition_of(self.placed_blocks@[u]@),
        )
    }
}

impl Default for BlockSystem {
    fn default() -> (r: Self)
        ensures
            r@ == Map::<u128, Partition>::empty(),
            r.wf(),
    {
        let r = Self {
            placed_blocks: HashMap::with_capacity(1),
            rand_state: seeded_rng([0u8; 32]),
        };
        assert(r@ =~= Map::<u128, Partition>::empty());
        r
    }
}

impl BlockSystem {
    /// No voxel has more health than its block type starts with.
    pub open spec fn wf(&self) -> bool {
        bounded(self@)
    }

    /// Whether the player has a voxel at the position.
    pub open spec fn tracks(&self, player: u128, pos: BlockPos) -> bool {
        holds(self@, player, pos)
    }

    /// The player's voxel at the position, where there is one.
    pub open spec fn voxel(&self, player: u128, pos: BlockPos) -> DamageableBlock {
        self@[player][pos]
    }

    /// The generator that the store draws from, as it stands.
    pub closed spec fn generator(&self) -> StdRng {
        self.rand_state
    }

    /// Starts the generator anew from the seed: whatever was drawn before,
    /// the store draws from now on as a generator fresh from this seed does.
    /// The voxels stay as they are. A new store draws from the all-zero seed.
    pub fn reseed(&mut self, seed: [u8; 32])
        ensures
            final(self)@ == old(self)@,
            final(self).generator() == seeded(seed@),
    {
        self.rand_state = seeded_rng(seed);
    }

    /// The voxel at the position, if the player has one there.
    pub fn block_at(&self, player: u128, pos: BlockPos) -> (r: Option<DamageableBlock>)
        ensures
            r == if self.tracks(player, pos) {
                Some(self.voxel(player, pos))
            } else {
                None::<DamageableBlock>
            },
    {
        let key: u128 = pos.key();
        match self.placed_blocks.get(&player) {
            Some(placed) => match placed.get(&key) {
                Some(block) => Some(*block),
                None => None,
            },
            None => None,
        }
    }

    /// The block type of the player's voxel at the position, if there is one.
    pub fn current_state(&self, player: u128, pos: BlockPos) -> (r: Option<AvailableBlockData>)
        ensures
            r == if self.tracks(player, pos) {
                Some(self.voxel(player, pos).block_data)
            } else {
                None::<AvailableBlockData>
            },
    {
        match self.block_at(player, pos) {
            Some(block) => Some(block.block_data),
            None => None,
        }
    }

    /// Whether the player has a voxel at the position with no health left.
    pub fn check_destroy(&self, player: u128, pos: BlockPos) -> (r: bool)
        ensures
            r == (self.tracks(player, pos) && self.voxel(player, pos).health == 0),
    {
        match self.block_at(player, pos) {
            Some(block) => block.health == 0,
            None => false,
        }
    }

    /// Takes the player's voxel at the position out of the store and
    /// returns its block type. Nothing changes where there is none.
    pub fn remove(&mut self, player: u128, pos: BlockPos) -> (r: Option<AvailableBlockData>)
        requires
            old(self).wf(),
        ensures
            final(self).wf(),
            r == if old(self).tracks(player, pos) {
                Some(old(self).voxel(player, pos).block_data)
            } else {
                None::<AvailableBlockData>
            },
            final(self)@ == without(old(self)@, player, pos),
    {
        match self.block_at(player, pos) {
            Some(block) => {
                self.unset_voxel(player, pos);
                Some(block.block_data)
            },
            None => None,
        }
    }

    /// Restores the player's voxel at the position to full health. Returns
    /// `None`, and changes nothing, where there is no such voxel.
    pub fn reset_progress(&mut self, player: u128, pos: BlockPos) -> (r: Option<()>)
        requires
            old(self).wf(),
        ensures
            final(self).wf(),
            r is Some == old(self).tracks(player, pos),
            final(self)@ == reset(old(self)@, player, pos),
    {
        match self.block_at(player, pos) {
            Some(block) => {
                let full = DamageableBlock {
                    block_data: block.block_data,
                    health: block.block_data.initial_health,
                };
                self.set_voxel(player, pos, full);
                Some(())
            },
            None => None,
        }
    }

    /// Hits the player's voxel at the position once. Returns `None`, and
    /// changes nothing, where there is no such voxel; `(0, 0)` where the
    /// voxel had no health left; else the health left after the hit, with
    /// the health the voxel started with. A voxel that reaches 0 stays in
    /// the store.
    pub fn attempt_damage_block(&mut self, pos: BlockPos, player: u128) -> (r: Option<
        (u128, u128),
    >)
        requires
            old(self).wf(),
        ensures
            final(self).wf(),
            r == if old(self).tracks(player, pos) {
                Some(hit_report(old(self).voxel(player, pos)))
            } else {
                None::<(u128, u128)>
            },
            final(self)@ == damaged(old(self)@, player, pos),
            r matches Some(report) ==> report.0 < report.1 || report == (0u128, 0u128),
    {
        match self.block_at(player, pos) {
            Some(block) => {
                if block.health == 0 {
                    assert(old(self)@[player].insert(pos, block) =~= old(self)@[player]);
                    assert(self@ =~= old(self)@.insert(player, old(self)@[player]));
                    return Some((0, 0));
                }
                let left: u128 = block.health - 1;
                self.set_voxel(
                    player,
                    pos,
                    DamageableBlock { block_data: block.block_data, health: left },
                );
                Some((left, block.block_data.initial_health))
            },
            None => None,
        }
    }

    /// Offers the slot a block type: where the player has no voxel there
    /// and `pick` holds one, a voxel of it at full health is created and the
    /// block change is returned. The player has a partition afterwards in
    /// any case.
    pub fn populate(
        &mut self,
        player: u128,
        placement: BlockPos,
        pick: Option<AvailableBlockData>,
    ) -> (r: Option<BlockUpdateInfo>)
        requires
            old(self).wf(),
        ensures
            final(self).wf(),
            final(self)@ == populated(old(self)@, player, placement, pick),
            r == slot_change(old(self)@, player, placement, pick),
    {
        self.ensure_partition(player);
        if self.block_at(player, placement).is_some() {
            return None;
        }
        match pick {
            Some(block) => {
                self.set_voxel(
                    player,
                    placement,
                    DamageableBlock { block_data: block, health: block.initial_health },
                );
                Some(BlockUpdateInfo { block_pos: placement, block_id: block.block_id })
            },
            None => None,
        }
    }

    /// The placement policy, once per tick. Where placement runs (see
    /// [`replenishes`]), each of the two slots above the anchor that is
    /// empty gets a voxel of a block type drawn from `unlocked`, at full
    /// health; the block changes come back as [`batched`] packets. Which
    /// block types were drawn is the generator's choice: the contract holds
    /// for some pair of draws from `unlocked`.
    pub fn tick_for(
        &mut self,
        offset: BlockPos,
        player: u128,
        current_tick: usize,
        destroying: bool,
        unlocked: &Vec<AvailableBlockData>,
    ) -> (packets: Vec<ClientboundPacket>)
        requires
            old(self).wf(),
            replenishes(current_tick, destroying) ==> offset.y <= i32::MAX - 2 && offset.x
                > i32::MIN,
        ensures
            final(self).wf(),
            !replenishes(current_tick, destroying) ==> final(self)@ == with_partition(
                old(self)@,
                player,
            ) && packets.deep_view() == Seq::<PacketView>::empty(),
            replenishes(current_tick, destroying) ==> exists|
                first: Option<AvailableBlockData>,
                second: Option<AvailableBlockData>,
            |
                {
                    &&& is_pick(unlocked@, first)
                    &&& is_pick(unlocked@, second)
                    &&& final(self)@ == #[trigger] placed(
                        old(self)@,
                        player,
                        offset,
                        first,
                        second,
                    )
                    &&& packets.deep_view() == batched(
                        placement_updates(old(self)@, player, offset, first, second),
                    )
                },
    {
        self.ensure_partition(player);
        if !(current_tick % 20 == 0 || destroying) {
            return batch_updates(Vec::new());
        }
        let upper = BlockPos { x: offset.x, y: offset.y + 2, z: offset.z };
        let lower = BlockPos { x: offset.x - 1, y: offset.y + 2, z: offset.z };
        let mut updates: Vec<BlockUpdateInfo> = Vec::new();

        let first = if self.block_at(player, upper).is_none() {
            choose_block(unlocked, &mut self.rand_state)
        } else {
            None
        };
        let ghost first_pick = if first is Some || unlocked@.len() == 0 {
            first
        } else {
            Some(unlocked@[0])
        };
        if let Some(update) = self.populate(player, upper, first) {
            updates.push(update);
        }
        let ghost half = self@;
        assert(half == populated(old(self)@, player, upper, first_pick));
        assert(updates@ =~= slot_update(old(self)@, player, upper, first_pick));

        let second = if self.block_at(player, lower).is_none() {
            choose_block(unlocked, &mut self.rand_state)
        } else {
            None
        };
        let ghost second_pick = if second is Some || unlocked@.len() == 0 {
            second
        } else {
            Some(unlocked@[0])
        };
        if let Some(update) = self.populate(player, lower, second) {
            updates.push(update);
        }
        assert(self@ == populated(half, player, lower, second_pick));
        assert(updates@ =~= slot_update(old(self)@, player, upper, first_pick) + slot_update(
            half,
            player,
            lower,
            second_pick,
        ));
        assert(unlocked@.len() > 0 ==> unlocked@.contains(unlocked@[0]));
        assert(self@ == placed(old(self)@, player, offset, first_pick, second_pick));
        batch_updates(updates)
    }

    /// Gives the player an empty partition where the player has none.
    fn ensure_partition(&mut self, player: u128)
        requires
            old(self).wf(),
        ensures
            final(self).wf(),
            final(self)@ == with_partition(old(self)@, player),
    {
        if !self.placed_blocks.contains_key(&player) {
            self.placed_blocks.insert(player, HashMap::new());
            assert(partition_of(Map::<u128, DamageableBlock>::empty()) =~= Map::<
                BlockPos,
                DamageableBlock,
            >::empty());
            assert(self@ =~= with_partition(old(self)@, player));
        }
    }

    /// Puts `v` at the position, in a partition that exists.
    fn set_voxel(&mut self, player: u128, pos: BlockPos, v: DamageableBlock)
        requires
            old(self)@.contains_key(player),
        ensures
            final(self)@ == with_voxel(old(self)@, player, pos, v),
    {
        let key: u128 = pos.key();
        match self.placed_blocks.remove(&player) {
            Some(mut placed) => {
                let ghost inner = placed@;
                placed.insert(key, v);
                self.placed_blocks.insert(player, placed);
                proof {
                    lemma_partition_insert(inner, pos, v);
                    assert(self@ =~= old(self)@.insert(
                        player,
                        old(self)@[player].insert(pos, v),
                    ));
                }
            },
            None => {},
        }
    }

    /// Takes the voxel at the position out of a partition that exists.
    fn unset_voxel(&mut self, player: u128, pos: BlockPos)
        requires
            old(self)@.contains_key(player),
        ensures
            final(self)@ == old(self)@.insert(player, old(self)@[player].remove(pos)),
    {
        let key: u128 = pos.key();
        match self.placed_blocks.remove(&player) {
            Some(mut placed) => {
                let ghost inner = placed@;
                placed.remove(&key);
                self.placed_blocks.insert(player, placed);
                proof {
                    lemma_partition_remove(inner, pos);
                    assert(self@ =~= old(self)@.insert(player, old(self)@[player].remove(pos)));
                }
            },
            None => {},
        }
    }
}

} // verus!
