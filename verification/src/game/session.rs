use crate::console::ConsolePacket;
use crate::game::blocks::{
    is_pick, placed, placement_updates, replenishes, with_partition, BlockSystem,
};
use crate::game::descriptor::{AvailableBlockData, PlayerBlockData};
use crate::game::stateful::{GlobPlayerState, StatefulEvent};
use crate::protocol::{batched, BlockPos, ClientboundPacket, PacketView};
use crate::ranks::Rank;
use vstd::prelude::*;

verus! {

/// The number of ticks between two saves of a player.
pub const SAVE_INTERVAL: usize = 100;

/// The last chunk, counted from the origin in either direction, that a
/// player may stand in.
pub const ARENA_CHUNKS: i32 = 3;

/// The anchor below the two slots that placement keeps populated.
pub fn placement_anchor() -> (anchor: BlockPos)
    ensures
        anchor == (BlockPos { x: 8, y: 0, z: 24 }),
{
    BlockPos { x: 8, y: 0, z: 24 }
}

/// What a session holds of its player besides the connection.
pub struct GameSessionPlayer {
    pub uuid: u128,
    pub username: String,
    pub current_tick: usize,
    /// Whether rank or mined blocks are newer than what was last saved.
    pub top_level_change: bool,
    pub rank: Rank,
    pub block_data: PlayerBlockData,
    pub state: GlobPlayerState,
}

/// The counts of mined blocks after one more block of the ordinal was
/// mined: the list grows by zeros up to the ordinal where it is shorter.
pub open spec fn counted(mined: Seq<u128>, ordinal: int) -> Seq<u128> {
    let grown = if mined.len() <= ordinal {
        mined + Seq::new((ordinal + 1 - mined.len()) as nat, |i: int| 0u128)
    } else {
        mined
    };
    grown.update(ordinal, (grown[ordinal] + 1) as u128)
}

/// Whether a player at the block column `(block_x, block_z)` has left the
/// arena: below its floor, or in a chunk past [`ARENA_CHUNKS`].
pub open spec fn outside_arena(block_x: i32, block_z: i32, below_floor: bool) -> bool {
    below_floor || block_x >= 16 * (ARENA_CHUNKS + 1) || block_z >= 16 * (ARENA_CHUNKS + 1)
        || block_x < -16 * ARENA_CHUNKS || block_z < -16 * ARENA_CHUNKS
}

/// Computes [`outside_arena`].
pub fn has_left_arena(block_x: i32, block_z: i32, below_floor: bool) -> (left: bool)
    ensures
        left == outside_arena(block_x, block_z, below_floor),
{
    let chunk_x: i32 = block_x >> 4;
    let chunk_z: i32 = block_z >> 4;
    assert((block_x >> 4) > 3 <==> block_x >= 64) by (bit_vector);
    assert((block_x >> 4) < -3 <==> block_x < -48) by (bit_vector);
    assert((block_z >> 4) > 3 <==> block_z >= 64) by (bit_vector);
    assert((block_z >> 4) < -3 <==> block_z < -48) by (bit_vector);
    below_floor || chunk_x > ARENA_CHUNKS || chunk_z > ARENA_CHUNKS || chunk_x < -ARENA_CHUNKS
        || chunk_z < -ARENA_CHUNKS
}

impl GameSessionPlayer {
    /// A player in the first tick of a session.
    pub fn new(uuid: u128, username: String, rank: Rank, block_data: PlayerBlockData) -> (r: Self)
        ensures
            r.uuid == uuid,
            r.username == username,
            r.current_tick == 0,
            !r.top_level_change,
            r.rank == rank,
            r.block_data == block_data,
            r.state@ == GlobPlayerState::default_view(),
    {
        GameSessionPlayer {
            uuid,
            username,
            current_tick: 0,
            top_level_change: false,
            rank,
            block_data,
            state: GlobPlayerState::default(),
        }
    }

    /// The name under which the player's log lines stand.
    pub fn target(&self) -> (name: &str)
        ensures
            name@ == self.username@,
    {
        self.username.as_str()
    }

    /// Whether anything of the player is newer than what was last saved.
    pub fn changed(&self) -> (r: bool)
        ensures
            r == (self.block_data.changed || self.top_level_change),
    {
        self.block_data.changed || self.top_level_change
    }

    /// Notes that the player was saved as it is.
    pub fn unchanged(&mut self)
        ensures
            *final(self) == (GameSessionPlayer {
                top_level_change: false,
                block_data: PlayerBlockData { changed: false, ..old(self).block_data },
                ..*old(self)
            }),
    {
        self.block_data.changed = false;
        self.top_level_change = false;
    }

    /// Takes what the console tells the session: the player has the new
    /// rank, which is yet to be saved. Returns the player and the rank for
    /// the chat to take note of.
    pub fn apply_console_packet(&mut self, packet: ConsolePacket) -> (notice: (u128, Rank))
        ensures
            packet matches ConsolePacket::UpdateRank(rank) && notice == (old(self).uuid, rank)
                && *final(self) == (GameSessionPlayer {
                rank,
                top_level_change: true,
                ..*old(self)
            }),
    {
        match packet {
            ConsolePacket::UpdateRank(rank) => {
                self.rank = rank;
                self.top_level_change = true;
                (self.uuid, rank)
            },
        }
    }

    /// Counts a tick.
    pub fn advance_tick(&mut self)
        requires
            old(self).current_tick < usize::MAX,
        ensures
            *final(self) == (GameSessionPlayer {
                current_tick: (old(self).current_tick + 1) as usize,
                ..*old(self)
            }),
    {
        self.current_tick += 1;
    }

    /// Whether the player is to be saved in this tick: in every tick that
    /// [`SAVE_INTERVAL`] divides, where anything has changed.
    pub fn save_due(&self) -> (due: bool)
        ensures
            due == (self.current_tick % SAVE_INTERVAL == 0 && (self.block_data.changed
                || self.top_level_change)),
    {
        self.current_tick % SAVE_INTERVAL == 0 && self.changed()
    }

    /// Runs the placement policy for the player at the anchor: in every
    /// twentieth tick, and in every tick while an acknowledgement is owed
    /// for a destroy action. See [`BlockSystem::tick_for`].
    pub fn place_blocks(&self, system: &mut BlockSystem) -> (packets: Vec<ClientboundPacket>)
        requires
            old(system).wf(),
        ensures
            final(system).wf(),
            ({
                let active = replenishes(
                    self.current_tick,
                    self.state@.destroying.pending_ack is Some,
                );
                let anchor = BlockPos { x: 8, y: 0, z: 24 };
                &&& !active ==> final(system)@ == with_partition(old(system)@, self.uuid)
                    && packets.deep_view() == Seq::<PacketView>::empty()
                &&& active ==> exists|
                    first: Option<AvailableBlockData>,
                    second: Option<AvailableBlockData>,
                |
                    {
                        &&& is_pick(self.block_data.unlocked_blocks@, first)
                        &&& is_pick(self.block_data.unlocked_blocks@, second)
                        &&& final(system)@ == #[trigger] placed(
                            old(system)@,
                            self.uuid,
                            anchor,
                            first,
                            second,
                        )
                        &&& packets.deep_view() == batched(
                            placement_updates(old(system)@, self.uuid, anchor, first, second),
                        )
                    }
            }),
    {
        let destroying = self.state.player_destroying_state().destroying_block_sequence().is_some();
        system.tick_for(
            placement_anchor(),
            self.uuid,
            self.current_tick,
            destroying,
            &self.block_data.unlocked_blocks,
        )
    }

    /// Books an event of the player's state: a broken block counts as
    /// mined under the ordinal of its block type, which is yet to be saved.
    pub fn book(&mut self, event: StatefulEvent)
        requires
            event matches StatefulEvent::BlockBroken(_, block) && block.block_ordinal < usize::MAX
                && (block.block_ordinal < old(self).block_data.mined_blocks@.len()
                ==> old(self).block_data.mined_blocks@[block.block_ordinal as int] < u128::MAX),
        ensures
            event matches StatefulEvent::BlockBroken(_, block)
                && final(self).block_data.mined_blocks@ == counted(
                old(self).block_data.mined_blocks@,
                block.block_ordinal as int,
            ),
            *final(self) == (GameSessionPlayer {
                top_level_change: true,
                block_data: PlayerBlockData {
                    mined_blocks: final(self).block_data.mined_blocks,
                    ..old(self).block_data
                },
                ..*old(self)
            }),
    {
        match event {
            StatefulEvent::BlockBroken(_, block) => {
                let ghost before = self.block_data.mined_blocks@;
                if self.block_data.mined_blocks.len() <= block.block_ordinal {
                    self.block_data.mined_blocks.resize(block.block_ordinal + 1, 0);
                    assert(self.block_data.mined_blocks@ =~= before + Seq::new(
                        (block.block_ordinal + 1 - before.len()) as nat,
                        |i: int| 0u128,
                    ));
                }
                let count: u128 = self.block_data.mined_blocks[block.block_ordinal];
                self.block_data.mined_blocks.set(block.block_ordinal, count + 1);
                self.top_level_change = true;
            },
        }
    }
}

} // verus!
