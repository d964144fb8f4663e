use crate::game::blocks::{
    bounded, damaged, hit_report, holds, reset, without, BlockSystem, Partition,
};
use crate::game::descriptor::AvailableBlockData;
use crate::protocol::{
    BlockPos, ClientboundPacket, InteractionHand, OverlayMessage, PacketView, PlayerActionType,
    PlayerCommandType, ServerboundPacket,
};
use vstd::prelude::*;

verus! {

/// What the session has to book after a tick.
#[derive(Clone, Copy, Debug, PartialEq)]
pub enum StatefulEvent {
    /// The player broke the voxel of this block type at this position.
    BlockBroken(BlockPos, AvailableBlockData),
}

/// The phase of a player's destruction: not destroying, destroying the voxel
/// at a position, or interrupted while destroying it.
#[derive(Clone, Copy, Debug, PartialEq, Eq, Structural)]
pub enum CurrentDestroyingState {
    Idle,
    Started(BlockPos),
    Aborted(BlockPos),
}

impl Default for CurrentDestroyingState {
    fn default() -> (r: Self)
        ensures
            r == CurrentDestroyingState::Idle,
    {
        CurrentDestroyingState::Idle
    }
}

/// The progress value of a `BlockDestruction` packet that clears the crack
/// overlay.
pub const BLOCK_BROKEN_FLAG: u8 = 255;

/// A player's destruction state machine as a mathematical value.
pub struct DestructionSession {
    pub phase: CurrentDestroyingState,
    /// The acknowledgement that is owed to the client, if any.
    pub pending_ack: Option<i32>,
    /// Whether the continuation has run in this tick.
    pub damaged_this_tick: bool,
}

/// What a transition of the state machine leaves behind: the machine, the
/// store, the packets for the acting player in their order, and the event
/// for the session.
pub struct Outcome {
    pub session: DestructionSession,
    pub store: Map<u128, Partition>,
    pub packets: Seq<PacketView>,
    pub event: Option<StatefulEvent>,
}

/// The voxel that the phase speaks of.
pub open spec fn target_of(phase: CurrentDestroyingState) -> Option<BlockPos> {
    match phase {
        CurrentDestroyingState::Idle => None,
        CurrentDestroyingState::Started(pos) | CurrentDestroyingState::Aborted(pos) => Some(pos),
    }
}

/// The acknowledgement that is owed after a request with number `seq` came
/// in while `pending` was owed: the larger of the two.
pub open spec fn coalesced(pending: Option<i32>, seq: i32) -> Option<i32> {
    match pending {
        None => Some(seq),
        Some(n) => Some(if n >= seq { n } else { seq }),
    }
}

/// The packets that flush an acknowledgement: one where one is owed.
pub open spec fn ack_packets(pending: Option<i32>) -> Seq<PacketView> {
    match pending {
        Some(seq) => seq![PacketView::BlockChangedAck { sequence_id: seq }],
        None => seq![],
    }
}

/// The block state that the store gives for the position: that of the
/// player's voxel there, else air.
pub open spec fn tracked_state(store: Map<u128, Partition>, player: u128, pos: BlockPos) -> i32 {
    if holds(store, player, pos) {
        store[player][pos].block_data.block_id
    } else {
        0
    }
}

/// The authoritative block state at the position: that of the player's
/// voxel there, else the static world's block, else air.
pub open spec fn authoritative_state(
    store: Map<u128, Partition>,
    player: u128,
    pos: BlockPos,
    world_block: Option<i32>,
) -> i32 {
    if holds(store, player, pos) {
        store[player][pos].block_data.block_id
    } else {
        match world_block {
            Some(id) => id,
            None => 0,
        }
    }
}

/// Whether a hit on the player's voxel at the position takes, or finds
/// taken, the last of its health.
pub open spec fn breaks(store: Map<u128, Partition>, player: u128, pos: BlockPos) -> bool {
    holds(store, player, pos) && hit_report(store[player][pos]).0 == 0
}

/// The request with number `seq` wants an acknowledgement.
pub open spec fn acked(session: DestructionSession, seq: i32) -> DestructionSession {
    DestructionSession { pending_ack: coalesced(session.pending_ack, seq), ..session }
}

/// The packets at the start of a destruction: where another destruction
/// was running, the crack overlay on its voxel is cleared.
pub open spec fn start_packets(phase: CurrentDestroyingState, entity_id: i32) -> Seq<PacketView> {
    match phase {
        CurrentDestroyingState::Started(other) => seq![
            PacketView::BlockDestruction { id: entity_id, pos: other, progress: BLOCK_BROKEN_FLAG },
        ],
        _ => seq![],
    }
}

/// Start of a destruction at `at`: the phase becomes `Started(at)`, with
/// the packets of [`start_packets`]. The store is not touched.
pub open spec fn started(
    session: DestructionSession,
    store: Map<u128, Partition>,
    entity_id: i32,
    at: BlockPos,
) -> Outcome {
    Outcome {
        session: DestructionSession { phase: CurrentDestroyingState::Started(at), ..session },
        store,
        packets: start_packets(session.phase, entity_id),
        event: None,
    }
}

/// Interruption of a destruction: outside `Idle` the phase becomes
/// `Aborted` at the same position; a voxel that the store holds there is
/// reset to full health, its crack overlay is cleared and its block state is
/// sent again. Nothing happens in `Idle`.
pub open spec fn aborted(
    session: DestructionSession,
    store: Map<u128, Partition>,
    player: u128,
    entity_id: i32,
) -> Outcome {
    match target_of(session.phase) {
        None => Outcome { session, store, packets: seq![], event: None },
        Some(pos) => Outcome {
            session: DestructionSession { phase: CurrentDestroyingState::Aborted(pos), ..session },
            store: reset(store, player, pos),
            packets: if holds(store, player, pos) {
                seq![
                    PacketView::BlockDestruction {
                        id: entity_id,
                        pos,
                        progress: BLOCK_BROKEN_FLAG,
                    },
                    PacketView::BlockUpdate { pos, state: tracked_state(store, player, pos) },
                ]
            } else {
                seq![]
            },
            event: None,
        },
    }
}

/// End of a destruction: outside `Idle` the authoritative block state at
/// the position is sent, and behind it the acknowledgement that is owed.
/// The phase stays. Nothing happens in `Idle`.
pub open spec fn stopped(
    session: DestructionSession,
    store: Map<u128, Partition>,
    player: u128,
    world_block: Option<i32>,
) -> Outcome {
    match target_of(session.phase) {
        None => Outcome { session, store, packets: seq![], event: None },
        Some(pos) => Outcome {
            session: DestructionSession { pending_ack: None, ..session },
            store,
            packets: seq![
                PacketView::BlockUpdate {
                    pos,
                    state: authoritative_state(store, player, pos, world_block),
                },
            ] + ack_packets(session.pending_ack),
            event: None,
        },
    }
}

/// The continuation of a destruction in a tick in which none has run yet,
/// with the voxels of `ray` in the player's line of sight.
///
/// An interrupted destruction resumes where its voxel is in the line of
/// sight: the voxel is reset to full health and its block state sent, and
/// it is not hit in this tick. Where it is not, the destruction ends.
///
/// A running destruction hits its voxel once. The hit that takes the last
/// of the health removes the voxel, sends an air block and the broken
/// overlay, and reports the broken block; any other hit sends the progress
/// overlay. Without a voxel nothing happens.
pub open spec fn advanced(
    session: DestructionSession,
    store: Map<u128, Partition>,
    player: u128,
    ray: Seq<BlockPos>,
) -> Outcome {
    let ticked = DestructionSession { damaged_this_tick: true, ..session };
    match session.phase {
        CurrentDestroyingState::Idle => Outcome {
            session: ticked,
            store,
            packets: seq![],
            event: None,
        },
        CurrentDestroyingState::Aborted(target) => if ray.contains(target) {
            Outcome {
                session: DestructionSession {
                    phase: CurrentDestroyingState::Started(target),
                    ..ticked
                },
                store: reset(store, player, target),
                packets: seq![
                    PacketView::BlockUpdate {
                        pos: target,
                        state: tracked_state(store, player, target),
                    },
                ],
                event: None,
            }
        } else {
            Outcome {
                session: DestructionSession { phase: CurrentDestroyingState::Idle, ..ticked },
                store,
                packets: seq![],
                event: None,
            }
        },
        CurrentDestroyingState::Started(target) => if !holds(store, player, target) {
            Outcome { session: ticked, store, packets: seq![], event: None }
        } else if breaks(store, player, target) {
            Outcome {
                session: ticked,
                store: without(store, player, target),
                packets: seq![
                    PacketView::BlockUpdate { pos: target, state: 0 },
                    PacketView::SystemChat { content: OverlayMessage::BlockBroken, overlay: true },
                ],
                event: Some(StatefulEvent::BlockBroken(target, store[player][target].block_data)),
            }
        } else {
            Outcome {
                session: ticked,
                store: damaged(store, player, target),
                packets: seq![
                    PacketView::SystemChat {
                        content: OverlayMessage::BreakProgress {
                            remaining: hit_report(store[player][target]).0,
                            initial: hit_report(store[player][target]).1,
                        },
                        overlay: true,
                    },
                ],
                event: None,
            }
        },
    }
}

/// The continuation of a destruction, which runs at most once per tick: a
/// second one in the same tick changes nothing. See [`advanced`].
pub open spec fn continued(
    session: DestructionSession,
    store: Map<u128, Partition>,
    player: u128,
    ray: Seq<BlockPos>,
) -> Outcome {
    if session.damaged_this_tick {
        Outcome { session, store, packets: seq![], event: None }
    } else {
        advanced(session, store, player, ray)
    }
}

/// Whether the position is among those of the ray.
pub fn ray_hits(ray: &Vec<BlockPos>, target: BlockPos) -> (found: bool)
    ensures
        found == ray@.contains(target),
{
    let mut i: usize = 0;
    while i < ray.len()
        invariant
            i <= ray.len(),
            forall|j: int| 0 <= j < i ==> ray@[j] != target,
        decreases ray.len() - i,
    {
        if ray[i] == target {
            return true;
        }
        i += 1;
    }
    false
}

/// One player's destruction state machine.
pub struct PlayerDestroyingState {
    destroying_state: CurrentDestroyingState,
    destroying_block_sequence: Option<i32>,
    damage_this_tick: bool,
}

impl View for PlayerDestroyingState {
    type V = DestructionSession;

    closed spec fn view(&self) -> DestructionSession {
        DestructionSession {
            phase: self.destroying_state,
            pending_ack: self.destroying_block_sequence,
            damaged_this_tick: self.damage_this_tick,
        }
    }
}

impl Default for PlayerDestroyingState {
    fn default() -> (r: Self)
        ensures
            r@ == (DestructionSession {
                phase: CurrentDestroyingState::Idle,
                pending_ack: None,
                damaged_this_tick: false,
            }),
    {
        PlayerDestroyingState {
            destroying_state: CurrentDestroyingState::Idle,
            destroying_block_sequence: None,
            damage_this_tick: false,
        }
    }
}

impl PlayerDestroyingState {
    /// The current phase.
    pub fn state(&self) -> (r: CurrentDestroyingState)
        ensures
            r == self@.phase,
    {
        self.destroying_state
    }

    /// The voxel that is being destroyed, or was when the destruction was
    /// interrupted.
    pub fn target(&self) -> (r: Option<BlockPos>)
        ensures
            r == target_of(self@.phase),
    {
        match self.destroying_state {
            CurrentDestroyingState::Idle => None,
            CurrentDestroyingState::Started(pos) | CurrentDestroyingState::Aborted(pos) => Some(
                pos,
            ),
        }
    }

    /// The acknowledgement that is owed to the client, if any.
    pub fn destroying_block_sequence(&self) -> (r: Option<i32>)
        ensures
            r == self@.pending_ack,
    {
        self.destroying_block_sequence
    }

    /// Whether the continuation has run in this tick.
    pub fn damage_this_tick(&self) -> (r: bool)
        ensures
            r == self@.damaged_this_tick,
    {
        self.damage_this_tick
    }

    /// Ends the tick: the continuation may run again.
    pub fn reset_tick(&mut self)
        ensures
            final(self)@ == (DestructionSession { damaged_this_tick: false, ..old(self)@ }),
    {
        self.damage_this_tick = false;
    }

    /// Flushes the acknowledgement that is owed, if any, as one packet.
    pub fn execute_ack(&mut self) -> (packets: Vec<ClientboundPacket>)
        ensures
            packets.deep_view() == ack_packets(old(self)@.pending_ack),
            final(self)@ == (DestructionSession { pending_ack: None, ..old(self)@ }),
    {
        let mut packets: Vec<ClientboundPacket> = Vec::new();
        if let Some(seq) = self.destroying_block_sequence {
            packets.push(ClientboundPacket::BlockChangedAck { sequence_id: seq });
        }
        self.destroying_block_sequence = None;
        assert(packets.deep_view() =~= ack_packets(old(self)@.pending_ack));
        packets
    }

    /// Notes that the request with number `seq` wants an acknowledgement.
    /// Nothing is sent: the numbers coalesce into the largest.
    pub fn ack(&mut self, seq: i32)
        ensures
            final(self)@ == acked(old(self)@, seq),
    {
        self.destroying_block_sequence = match self.destroying_block_sequence {
            None => Some(seq),
            Some(n) => Some(if n >= seq { n } else { seq }),
        };
    }

    /// The player starts to destroy the voxel at `at`. See [`started`].
    pub fn start_destroying(&mut self, entity_id: i32, at: BlockPos) -> (packets: Vec<
        ClientboundPacket,
    >)
        ensures
            final(self)@ == (DestructionSession {
                phase: CurrentDestroyingState::Started(at),
                ..old(self)@
            }),
            packets.deep_view() == start_packets(old(self)@.phase, entity_id),
    {
        let mut packets: Vec<ClientboundPacket> = Vec::new();
        match self.destroying_state {
            CurrentDestroyingState::Started(pos) => {
                packets.push(
                    ClientboundPacket::BlockDestruction {
                        id: entity_id,
                        pos,
                        progress: BLOCK_BROKEN_FLAG,
                    },
                );
            },
            _ => {},
        }
        self.destroying_state = CurrentDestroyingState::Started(at);
        assert(packets.deep_view() =~= start_packets(old(self)@.phase, entity_id));
        packets
    }

    /// The player lets go of the voxel. See [`aborted`].
    pub fn abort_destroying(
        &mut self,
        player: u128,
        entity_id: i32,
        system: &mut BlockSystem,
    ) -> (packets: Vec<ClientboundPacket>)
        requires
            old(system).wf(),
        ensures
            final(system).wf(),
            final(self)@ == aborted(old(self)@, old(system)@, player, entity_id).session,
            final(system)@ == aborted(old(self)@, old(system)@, player, entity_id).store,
            packets.deep_view() == aborted(old(self)@, old(system)@, player, entity_id).packets,
    {
        let mut packets: Vec<ClientboundPacket> = Vec::new();
        match self.destroying_state {
            CurrentDestroyingState::Idle => {},
            CurrentDestroyingState::Started(pos) | CurrentDestroyingState::Aborted(pos) => {
                self.destroying_state = CurrentDestroyingState::Aborted(pos);
                if system.reset_progress(player, pos).is_some() {
                    packets.push(
                        ClientboundPacket::BlockDestruction {
                            id: entity_id,
                            pos,
                            progress: BLOCK_BROKEN_FLAG,
                        },
                    );
                    let write_state: i32 = match system.current_state(player, pos) {
                        Some(block) => block.block_id,
                        None => 0,
                    };
                    packets.push(ClientboundPacket::BlockUpdate { pos, state: write_state });
                }
            },
        }
        assert(packets.deep_view() =~= aborted(
            old(self)@,
            old(system)@,
            player,
            entity_id,
        ).packets);
        packets
    }

    /// The player stops destroying. `world_block` is the block of the
    /// static world at the position of the destruction, if the world has
    /// one there. See [`stopped`].
    pub fn stop_destroying(
        &mut self,
        player: u128,
        system: &BlockSystem,
        world_block: Option<i32>,
    ) -> (packets: Vec<ClientboundPacket>)
        ensures
            final(self)@ == stopped(old(self)@, system@, player, world_block).session,
            packets.deep_view() == stopped(old(self)@, system@, player, world_block).packets,
    {
        let mut packets: Vec<ClientboundPacket> = Vec::new();
        match self.destroying_state {
            CurrentDestroyingState::Idle => {},
            CurrentDestroyingState::Started(pos) | CurrentDestroyingState::Aborted(pos) => {
                let write_state: i32 = match system.current_state(player, pos) {
                    Some(block) => block.block_id,
                    None => match world_block {
                        Some(id) => id,
                        None => 0,
                    },
                };
                packets.push(ClientboundPacket::BlockUpdate { pos, state: write_state });
                if let Some(seq) = self.destroying_block_sequence {
                    packets.push(ClientboundPacket::BlockChangedAck { sequence_id: seq });
                }
                self.destroying_block_sequence = None;
            },
        }
        assert(packets.deep_view() =~= stopped(old(self)@, system@, player, world_block).packets);
        packets
    }

    /// The continuation of a destruction. `ray` holds the voxels in the
    /// player's line of sight, nearest first. See [`continued`].
    pub fn continue_destroying(
        &mut self,
        player: u128,
        system: &mut BlockSystem,
        ray: &Vec<BlockPos>,
    ) -> (r: (Vec<ClientboundPacket>, Option<StatefulEvent>))
        requires
            old(system).wf(),
        ensures
            final(system).wf(),
            final(self)@ == continued(old(self)@, old(system)@, player, ray@).session,
            final(system)@ == continued(old(self)@, old(system)@, player, ray@).store,
            r.0.deep_view() == continued(old(self)@, old(system)@, player, ray@).packets,
            r.1 == continued(old(self)@, old(system)@, player, ray@).event,
    {
        let ghost expected = continued(old(self)@, old(system)@, player, ray@);
        let mut packets: Vec<ClientboundPacket> = Vec::new();
        if self.damage_this_tick {
            assert(packets.deep_view() =~= expected.packets);
            return (packets, None);
        }
        self.damage_this_tick = true;
        match self.destroying_state {
            CurrentDestroyingState::Idle => {
                assert(packets.deep_view() =~= expected.packets);
                (packets, None)
            },
            CurrentDestroyingState::Aborted(target) => {
                if ray_hits(ray, target) {
                    system.reset_progress(player, target);
                    let write_state: i32 = match system.current_state(player, target) {
                        Some(block) => block.block_id,
                        None => 0,
                    };
                    packets.push(
                        ClientboundPacket::BlockUpdate { pos: target, state: write_state },
                    );
                    self.destroying_state = CurrentDestroyingState::Started(target);
                } else {
                    self.destroying_state = CurrentDestroyingState::Idle;
                }
                assert(packets.deep_view() =~= expected.packets);
                (packets, None)
            },
            CurrentDestroyingState::Started(target) => {
                match system.attempt_damage_block(target, player) {
                    None => {
                        assert(packets.deep_view() =~= expected.packets);
                        (packets, None)
                    },
                    Some(progress) => {
                        if progress.0 == 0 {
                            match system.remove(player, target) {
                                Some(current) => {
                                    packets.push(
                                        ClientboundPacket::BlockUpdate { pos: target, state: 0 },
                                    );
                                    packets.push(
                                        ClientboundPacket::SystemChat {
                                            content: OverlayMessage::BlockBroken,
                                            overlay: true,
                                        },
                                    );
                                    assert(packets.deep_view() =~= expected.packets);
                                    assert(system@ =~= expected.store) by {
                                        assert(system@[player] =~= old(system)@[player].remove(
                                            target,
                                        ));
                                    }
                                    (packets, Some(StatefulEvent::BlockBroken(target, current)))
                                },
                                None => (packets, None),
                            }
                        } else {
                            packets.push(
                                ClientboundPacket::SystemChat {
                                    content: OverlayMessage::BreakProgress {
                                        remaining: progress.0,
                                        initial: progress.1,
                                    },
                                    overlay: true,
                                },
                            );
                            assert(packets.deep_view() =~= expected.packets);
                            (packets, None)
                        }
                    },
                }
            },
        }
    }
}

/// The menu that a player has open.
#[derive(Clone, Copy, Debug, PartialEq, Eq, Structural)]
pub enum MenuState {
    /// No menu is open.
    Closed,
    /// The player's own inventory.
    Own,
    /// A menu of the server, by its container id.
    Other(u8),
}

impl Default for MenuState {
    fn default() -> (r: Self)
        ensures
            r == MenuState::Closed,
    {
        MenuState::Closed
    }
}

/// The button of a click in a menu.
#[derive(Clone, Copy, Debug, PartialEq, Eq, Structural)]
pub enum ClickWith {
    Left,
    Right,
}

/// What the session has to do for a packet besides sending the packets
/// that the player's state made for it.
#[derive(Clone, Copy, Debug, PartialEq, Eq, Structural)]
pub enum SessionAction {
    Nothing,
    /// Send the player's inventory again.
    RefreshInventory,
    /// Build the statistics menu and send it.
    OpenStatistics,
    /// Hand the click to the open menu's slot.
    MenuClick { state_id: i32, slot: i16, click_with: ClickWith },
    /// Make this the player's current hotbar slot.
    SetCurrentSlot(u8),
    /// Log the packet as unhandled.
    Unhandled,
}

/// The hotbar slot of the tool that destroys blocks.
pub const TOOL_SLOT: u8 = 0;

/// The hotbar slot of the item that opens the statistics menu.
pub const MENU_SLOT: u8 = 8;

/// The container id of the statistics menu.
pub const STATISTICS_CONTAINER: u8 = 1;

/// A player's state as a mathematical value.
pub struct PlayerState {
    pub destroying: DestructionSession,
    pub keepalive_seq: u64,
    pub menu: MenuState,
}

/// What handling a packet leaves behind.
pub struct Handling {
    pub state: PlayerState,
    pub store: Map<u128, Partition>,
    pub packets: Seq<PacketView>,
    pub event: Option<StatefulEvent>,
    pub action: SessionAction,
}

/// What the player's state reads of the player while it handles a packet.
pub struct PlayerContext {
    pub uuid: u128,
    pub entity_id: i32,
    /// The hotbar slot that the player holds.
    pub current_slot: u8,
    /// The voxels in the player's line of sight, nearest first.
    pub line_of_sight: Vec<BlockPos>,
    /// The static world's block at the position of the destruction, where
    /// one is under way and the world has a block there.
    pub world_block: Option<i32>,
}

/// The menu after the client closed the container.
pub open spec fn menu_closed(menu: MenuState, container_id: u8) -> MenuState {
    match menu {
        MenuState::Own => if container_id == 0 {
            MenuState::Closed
        } else {
            menu
        },
        MenuState::Other(open) => if open == container_id {
            MenuState::Closed
        } else {
            menu
        },
        MenuState::Closed => menu,
    }
}

/// The handling of a use of the item in the menu slot: the statistics menu
/// opens, unless it is open already.
pub open spec fn statistics_opened(state: PlayerState, store: Map<u128, Partition>) -> Handling {
    if state.menu == MenuState::Other(STATISTICS_CONTAINER) {
        quiet(state, store)
    } else {
        Handling {
            state: PlayerState { menu: MenuState::Other(STATISTICS_CONTAINER), ..state },
            store,
            packets: seq![],
            event: None,
            action: SessionAction::OpenStatistics,
        }
    }
}

/// A handling that sends nothing and asks for nothing.
pub open spec fn quiet(state: PlayerState, store: Map<u128, Partition>) -> Handling {
    Handling { state, store, packets: seq![], event: None, action: SessionAction::Nothing }
}

/// A handling that changes nothing and asks the session for `action`.
pub open spec fn asking(
    state: PlayerState,
    store: Map<u128, Partition>,
    action: SessionAction,
) -> Handling {
    Handling { state, store, packets: seq![], event: None, action }
}

/// A transition of the destruction state machine as a handling.
pub open spec fn destroying(state: PlayerState, outcome: Outcome) -> Handling {
    Handling {
        state: PlayerState { destroying: outcome.session, ..state },
        store: outcome.store,
        packets: outcome.packets,
        event: outcome.event,
        action: SessionAction::Nothing,
    }
}

/// The hotbar slot that a `SetCarriedItem` packet selects: slots past the
/// last one count as the last.
pub open spec fn carried_slot(slot: u16) -> u8 {
    if slot > 8 {
        8
    } else {
        slot as u8
    }
}

/// How the player's state handles one packet.
///
/// Destroy actions go to the destruction state machine, and each notes
/// its sequence number for acknowledgement: start and abort after the
/// transition, stop before it, so that a stop flushes its own number. A
/// swing of the main hand with the tool runs the continuation.
pub open spec fn handled(
    state: PlayerState,
    store: Map<u128, Partition>,
    player: u128,
    entity_id: i32,
    current_slot: u8,
    ray: Seq<BlockPos>,
    world_block: Option<i32>,
    packet: ServerboundPacket,
) -> Handling {
    match packet {
        ServerboundPacket::ContainerClose { container_id } => quiet(
            PlayerState { menu: menu_closed(state.menu, container_id), ..state },
            store,
        ),
        ServerboundPacket::KeepAlive { keep_alive_id } => quiet(
            PlayerState { keepalive_seq: keep_alive_id, ..state },
            store,
        ),
        ServerboundPacket::PlayerAbilities => quiet(state, store),
        ServerboundPacket::PlayerCommand { action_type } => match action_type {
            PlayerCommandType::OpenInventory => quiet(
                PlayerState { menu: MenuState::Own, ..state },
                store,
            ),
            PlayerCommandType::Other => quiet(state, store),
        },
        ServerboundPacket::UseItem { hand } | ServerboundPacket::UseItemOn { hand } => if hand
            == InteractionHand::MainHand && current_slot == MENU_SLOT {
            statistics_opened(state, store)
        } else {
            quiet(state, store)
        },
        ServerboundPacket::Swing { hand } => if hand != InteractionHand::MainHand {
            quiet(state, store)
        } else if current_slot == TOOL_SLOT {
            destroying(state, continued(state.destroying, store, player, ray))
        } else if current_slot == MENU_SLOT {
            statistics_opened(state, store)
        } else {
            quiet(state, store)
        },
        ServerboundPacket::PlayerAction { action_type, at_pos, sequence } => match action_type {
            PlayerActionType::StartDestroyBlock => {
                let outcome = started(state.destroying, store, entity_id, at_pos);
                destroying(state, Outcome { session: acked(outcome.session, sequence), ..outcome })
            },
            PlayerActionType::AbortDestroyBlock => {
                let outcome = aborted(state.destroying, store, player, entity_id);
                destroying(state, Outcome { session: acked(outcome.session, sequence), ..outcome })
            },
            PlayerActionType::StopDestroyBlock => destroying(
                state,
                stopped(acked(state.destroying, sequence), store, player, world_block),
            ),
            PlayerActionType::DropAllItems
            | PlayerActionType::DropItem
            | PlayerActionType::SwapItemWithOffhand => asking(
                state,
                store,
                SessionAction::RefreshInventory,
            ),
            PlayerActionType::ReleaseUseItem => quiet(state, store),
        },
        ServerboundPacket::ContainerClick { container_id, state_id, slot, button } => if
            container_id == 0 {
            asking(state, store, SessionAction::RefreshInventory)
        } else if state.menu is Other {
            asking(
                state,
                store,
                SessionAction::MenuClick {
                    state_id,
                    slot,
                    click_with: if button == 0 {
                        ClickWith::Left
                    } else {
                        ClickWith::Right
                    },
                },
            )
        } else {
            quiet(state, store)
        },
        ServerboundPacket::SetCarriedItem { slot } => asking(
            state,
            store,
            SessionAction::SetCurrentSlot(carried_slot(slot)),
        ),
        ServerboundPacket::Other => asking(state, store, SessionAction::Unhandled),
    }
}

/// What handling a packet gave: the packets for the player, the event for
/// the session, and what else the session has to do.
pub struct PacketOutcome {
    pub packets: Vec<ClientboundPacket>,
    pub event: Option<StatefulEvent>,
    pub action: SessionAction,
}

/// The state of one player that lives from tick to tick.
pub struct GlobPlayerState {
    player_destroying_state: PlayerDestroyingState,
    current_keepalive_seq: u64,
    current_menu: MenuState,
}

impl View for GlobPlayerState {
    type V = PlayerState;

    closed spec fn view(&self) -> PlayerState {
        PlayerState {
            destroying: self.player_destroying_state@,
            keepalive_seq: self.current_keepalive_seq,
            menu: self.current_menu,
        }
    }
}

impl Default for GlobPlayerState {
    fn default() -> (r: Self)
        ensures
            r@ == GlobPlayerState::default_view(),
    {
        GlobPlayerState {
            player_destroying_state: PlayerDestroyingState::default(),
            current_keepalive_seq: 0,
            current_menu: MenuState::Closed,
        }
    }
}

impl GlobPlayerState {
    /// The state of a player who has just joined: not destroying, nothing
    /// owed, no menu open.
    pub open spec fn default_view() -> PlayerState {
        PlayerState {
            destroying: DestructionSession {
                phase: CurrentDestroyingState::Idle,
                pending_ack: None,
                damaged_this_tick: false,
            },
            keepalive_seq: 0,
            menu: MenuState::Closed,
        }
    }

    /// The destruction state machine.
    pub fn player_destroying_state(&self) -> (r: &PlayerDestroyingState)
        ensures
            r@ == self@.destroying,
    {
        &self.player_destroying_state
    }

    /// The number of the last keep-alive that the client answered.
    pub fn current_keepalive_seq(&self) -> (r: u64)
        ensures
            r == self@.keepalive_seq,
    {
        self.current_keepalive_seq
    }

    /// The menu that the player has open.
    pub fn current_menu(&self) -> (r: MenuState)
        ensures
            r == self@.menu,
    {
        self.current_menu
    }

    /// Begins a tick: the acknowledgement that is owed from the tick
    /// before, if any, is flushed as one packet.
    pub fn begin_tick(&mut self) -> (packets: Vec<ClientboundPacket>)
        ensures
            packets.deep_view() == ack_packets(old(self)@.destroying.pending_ack),
            final(self)@ == (PlayerState {
                destroying: DestructionSession { pending_ack: None, ..old(self)@.destroying },
                ..old(self)@
            }),
    {
        self.player_destroying_state.execute_ack()
    }

    /// Ends a tick: the continuation may run again in the next.
    pub fn end_tick(&mut self)
        ensures
            final(self)@ == (PlayerState {
                destroying: DestructionSession {
                    damaged_this_tick: false,
                    ..old(self)@.destroying
                },
                ..old(self)@
            }),
    {
        self.player_destroying_state.reset_tick();
    }

    /// Notes that the statistics menu is open, unless it is already, and
    /// says whether the session has to open it.
    fn open_statistics(&mut self) -> (action: SessionAction)
        ensures
            final(self)@ == (PlayerState {
                menu: MenuState::Other(STATISTICS_CONTAINER),
                ..old(self)@
            }),
            action == if old(self)@.menu == MenuState::Other(STATISTICS_CONTAINER) {
                SessionAction::Nothing
            } else {
                SessionAction::OpenStatistics
            },
    {
        if let MenuState::Other(current) = self.current_menu {
            if current == STATISTICS_CONTAINER {
                return SessionAction::Nothing;
            }
        }
        self.current_menu = MenuState::Other(STATISTICS_CONTAINER);
        SessionAction::OpenStatistics
    }

    /// Handles one packet of the player's client. See [`handled`].
    pub fn handle_packet(
        &mut self,
        packet: ServerboundPacket,
        player: &PlayerContext,
        system: &mut BlockSystem,
    ) -> (r: PacketOutcome)
        requires
            old(system).wf(),
        ensures
            final(system).wf(),
            ({
                let handling = handled(
                    old(self)@,
                    old(system)@,
                    player.uuid,
                    player.entity_id,
                    player.current_slot,
                    player.line_of_sight@,
                    player.world_block,
                    packet,
                );
                &&& final(self)@ == handling.state
                &&& final(system)@ == handling.store
                &&& r.packets.deep_view() == handling.packets
                &&& r.event == handling.event
                &&& r.action == handling.action
            }),
    {
        let mut packets: Vec<ClientboundPacket> = Vec::new();
        let mut event: Option<StatefulEvent> = None;
        let mut action = SessionAction::Nothing;
        assert(packets.deep_view() =~= Seq::<PacketView>::empty());
        match packet {
            ServerboundPacket::ContainerClose { container_id } => {
                match self.current_menu {
                    MenuState::Own => {
                        if container_id == 0 {
                            self.current_menu = MenuState::Closed;
                        }
                    },
                    MenuState::Other(open) => {
                        if open == container_id {
                            self.current_menu = MenuState::Closed;
                        }
                    },
                    MenuState::Closed => {},
                }
            },
            ServerboundPacket::KeepAlive { keep_alive_id } => {
                self.current_keepalive_seq = keep_alive_id;
            },
            ServerboundPacket::PlayerAbilities => {},
            ServerboundPacket::PlayerCommand { action_type } => match action_type {
                PlayerCommandType::OpenInventory => {
                    self.current_menu = MenuState::Own;
                },
                PlayerCommandType::Other => {},
            },
            ServerboundPacket::UseItem { hand } | ServerboundPacket::UseItemOn { hand } => {
                if hand == InteractionHand::MainHand && player.current_slot == MENU_SLOT {
                    action = self.open_statistics();
                }
            },
            ServerboundPacket::Swing { hand } => {
                if hand == InteractionHand::MainHand {
                    if player.current_slot == TOOL_SLOT {
                        let continuation = self.player_destroying_state.continue_destroying(
                            player.uuid,
                            system,
                            &player.line_of_sight,
                        );
                        packets = continuation.0;
                        event = continuation.1;
                    } else if player.current_slot == MENU_SLOT {
                        action = self.open_statistics();
                    }
                }
            },
            ServerboundPacket::PlayerAction { action_type, at_pos, sequence } => match action_type {
                PlayerActionType::StartDestroyBlock => {
                    packets = self.player_destroying_state.start_destroying(
                        player.entity_id,
                        at_pos,
                    );
                    self.player_destroying_state.ack(sequence);
                },
                PlayerActionType::AbortDestroyBlock => {
                    packets = self.player_destroying_state.abort_destroying(
                        player.uuid,
                        player.entity_id,
                        system,
                    );
                    self.player_destroying_state.ack(sequence);
                },
                PlayerActionType::StopDestroyBlock => {
                    self.player_destroying_state.ack(sequence);
                    packets = self.player_destroying_state.stop_destroying(
                        player.uuid,
                        system,
                        player.world_block,
                    );
                },
                PlayerActionType::DropAllItems
                | PlayerActionType::DropItem
                | PlayerActionType::SwapItemWithOffhand => {
                    action = SessionAction::RefreshInventory;
                },
                PlayerActionType::ReleaseUseItem => {},
            },
            ServerboundPacket::ContainerClick { container_id, state_id, slot, button } => {
                if container_id == 0 {
                    action = SessionAction::RefreshInventory;
                } else if let MenuState::Other(_) = self.current_menu {
                    action = SessionAction::MenuClick {
                        state_id,
                        slot,
                        click_with: if button == 0 {
                            ClickWith::Left
                        } else {
                            ClickWith::Right
                        },
                    };
                }
            },
            ServerboundPacket::SetCarriedItem { slot } => {
                action = SessionAction::SetCurrentSlot(if slot > 8 {
                    8
                } else {
                    slot as u8
                });
            },
            ServerboundPacket::Other => {
                action = SessionAction::Unhandled;
            },
        }
        PacketOutcome { packets, event, action }
    }
}

/// The state machine after the requests with the numbers `seqs` asked for
/// an acknowledgement, one after the other.
pub open spec fn acked_all(session: DestructionSession, seqs: Seq<i32>) -> DestructionSession
    decreases seqs.len(),
{
    if seqs.len() == 0 {
        session
    } else {
        acked(acked_all(session, seqs.drop_last()), seqs.last())
    }
}

/// Acknowledgements coalesce: however many requests come in before the
/// flush, one acknowledgement is owed, and it carries the largest number
/// among those of the requests and the one that was owed before. Nothing
/// else of the state machine changes.
pub proof fn lemma_acks_coalesce(session: DestructionSession, seqs: Seq<i32>)
    requires
        seqs.len() > 0,
    ensures
        acked_all(session, seqs).phase == session.phase,
        acked_all(session, seqs).damaged_this_tick == session.damaged_this_tick,
        acked_all(session, seqs).pending_ack is Some,
        ack_packets(acked_all(session, seqs).pending_ack).len() == 1,
        ({
            let owed = acked_all(session, seqs).pending_ack.unwrap();
            &&& forall|i: int| 0 <= i < seqs.len() ==> seqs[i] <= owed
            &&& session.pending_ack matches Some(before) ==> before <= owed
            &&& seqs.contains(owed) || session.pending_ack == Some(owed)
        }),
    decreases seqs.len(),
{
    if seqs.len() > 1 {
        lemma_acks_coalesce(session, seqs.drop_last());
        let before = acked_all(session, seqs.drop_last()).pending_ack.unwrap();
        let owed = acked_all(session, seqs).pending_ack.unwrap();
        assert forall|i: int| 0 <= i < seqs.len() implies seqs[i] <= owed by {
            if i < seqs.len() - 1 {
                assert(seqs.drop_last()[i] == seqs[i]);
            }
        }
        if seqs.drop_last().contains(before) {
            let j = choose|j: int| 0 <= j < seqs.drop_last().len() && seqs.drop_last()[j] == before;
            assert(seqs[j] == before);
        }
        assert(seqs[seqs.len() - 1] == seqs.last());
    } else {
        assert(seqs.drop_last().len() == 0);
        assert(seqs[0] == seqs.last());
    }
}

/// The continuation runs at most once per tick: after one has run, another
/// in the same tick changes nothing, sends nothing and reports nothing,
/// whatever the phase, the store and the line of sight.
pub proof fn lemma_one_continuation_per_tick(
    session: DestructionSession,
    store: Map<u128, Partition>,
    player: u128,
    first_ray: Seq<BlockPos>,
    second_ray: Seq<BlockPos>,
)
    ensures
        ({
            let first = continued(session, store, player, first_ray);
            let second = continued(first.session, first.store, player, second_ray);
            &&& first.session.damaged_this_tick
            &&& second.session == first.session
            &&& second.store == first.store
            &&& second.packets == Seq::<PacketView>::empty()
            &&& second.event == None::<StatefulEvent>
        }),
{
}

/// No transition of the state machine adds health to a voxel but a reset:
/// a start and a stop leave the store as it is, and a continuation that
/// does not resume an interrupted destruction leaves every voxel that it
/// keeps with at most the health it had.
pub proof fn lemma_health_only_decreases(
    session: DestructionSession,
    store: Map<u128, Partition>,
    player: u128,
    ray: Seq<BlockPos>,
    owner: u128,
    pos: BlockPos,
)
    requires
        !(session.phase is Aborted),
        holds(continued(session, store, player, ray).store, owner, pos),
    ensures
        holds(store, owner, pos),
        continued(session, store, player, ray).store[owner][pos].health
            <= store[owner][pos].health,
        continued(session, store, player, ray).store[owner][pos].block_data
            == store[owner][pos].block_data,
{
}

/// A start on a voxel with one point of health left, then a swing with the
/// tool in a tick that has not hit yet: the voxel leaves the store, the
/// player is sent an air block and the broken overlay, the session gets the
/// broken block with its block type, and the acknowledgement that is owed
/// carries the start's number where none was owed before.
pub proof fn lemma_last_health_breaks(
    state: PlayerState,
    store: Map<u128, Partition>,
    player: u128,
    entity_id: i32,
    ray: Seq<BlockPos>,
    world_block: Option<i32>,
    target: BlockPos,
    sequence: i32,
)
    requires
        holds(store, player, target),
        store[player][target].health == 1,
        !state.destroying.damaged_this_tick,
        state.destroying.pending_ack is None,
    ensures
        ({
            let start = handled(
                state,
                store,
                player,
                entity_id,
                TOOL_SLOT,
                ray,
                world_block,
                ServerboundPacket::PlayerAction {
                    action_type: PlayerActionType::StartDestroyBlock,
                    at_pos: target,
                    sequence,
                },
            );
            let swing = handled(
                start.state,
                start.store,
                player,
                entity_id,
                TOOL_SLOT,
                ray,
                world_block,
                ServerboundPacket::Swing { hand: InteractionHand::MainHand },
            );
            &&& !holds(swing.store, player, target)
            &&& swing.event == Some(
                StatefulEvent::BlockBroken(target, store[player][target].block_data),
            )
            &&& swing.packets == seq![
                PacketView::BlockUpdate { pos: target, state: 0 },
                PacketView::SystemChat { content: OverlayMessage::BlockBroken, overlay: true },
            ]
            &&& ack_packets(swing.state.destroying.pending_ack) == seq![
                PacketView::BlockChangedAck { sequence_id: sequence },
            ]
        }),
{
}

/// A destruction that was interrupted resumes with the next continuation
/// where the player still aims at its voxel: whatever health the voxel had
/// lost, it is back at the health that its block type starts with, the
/// phase is `Started` at the same position, and nothing is reported as
/// broken. Where the player aims elsewhere the phase is `Idle`, the store is
/// as the interruption left it, and later continuations hit nothing.
pub proof fn lemma_interrupted_resumes_or_ends(
    session: DestructionSession,
    store: Map<u128, Partition>,
    player: u128,
    entity_id: i32,
    ray: Seq<BlockPos>,
    later_ray: Seq<BlockPos>,
    target: BlockPos,
)
    requires
        session.phase == CurrentDestroyingState::Started(target),
        !session.damaged_this_tick,
    ensures
        ({
            let interrupted = aborted(session, store, player, entity_id);
            let resumed = continued(interrupted.session, interrupted.store, player, ray);
            let next_tick = DestructionSession { damaged_this_tick: false, ..resumed.session };
            let later = continued(next_tick, resumed.store, player, later_ray);
            &&& interrupted.session.phase == CurrentDestroyingState::Aborted(target)
            &&& resumed.event == None::<StatefulEvent>
            &&& ray.contains(target) ==> {
                &&& resumed.session.phase == CurrentDestroyingState::Started(target)
                &&& holds(store, player, target) ==> holds(resumed.store, player, target)
                    && resumed.store[player][target].health
                    == store[player][target].block_data.initial_health
                    && resumed.store[player][target].block_data
                    == store[player][target].block_data
            }
            &&& !ray.contains(target) ==> {
                &&& resumed.session.phase == CurrentDestroyingState::Idle
                &&& resumed.store == interrupted.store
                &&& later.store == resumed.store
                &&& later.packets == Seq::<PacketView>::empty()
                &&& later.event == None::<StatefulEvent>
            }
        }),
{
}

/// The acknowledgement that is owed never falls back to a smaller number:
/// whatever packet is handled, a number that was owed before is still owed
/// afterwards, or a larger one is, unless the packet is a stop outside
/// `Idle`, which flushes what is owed.
pub proof fn lemma_pending_ack_never_shrinks(
    state: PlayerState,
    store: Map<u128, Partition>,
    player: u128,
    entity_id: i32,
    current_slot: u8,
    ray: Seq<BlockPos>,
    world_block: Option<i32>,
    packet: ServerboundPacket,
)
    requires
        state.destroying.pending_ack is Some,
    ensures
        ({
            let after = handled(
                state,
                store,
                player,
                entity_id,
                current_slot,
                ray,
                world_block,
                packet,
            ).state.destroying;
            let flushes = packet matches ServerboundPacket::PlayerAction {
                action_type: PlayerActionType::StopDestroyBlock,
                ..
            } && !(state.destroying.phase is Idle);
            &&& flushes ==> after.pending_ack is None
            &&& !flushes ==> after.pending_ack is Some && after.pending_ack.unwrap()
                >= state.destroying.pending_ack.unwrap()
        }),
{
}

/// A player's packets touch no other player's voxels: whatever packet is
/// handled for `player`, every other player has the same partition
/// afterwards, or none as before.
pub proof fn lemma_other_players_untouched(
    state: PlayerState,
    store: Map<u128, Partition>,
    player: u128,
    entity_id: i32,
    current_slot: u8,
    ray: Seq<BlockPos>,
    world_block: Option<i32>,
    packet: ServerboundPacket,
    other: u128,
)
    requires
        other != player,
    ensures
        ({
            let after = handled(
                state,
                store,
                player,
                entity_id,
                current_slot,
                ray,
                world_block,
                packet,
            ).store;
            &&& after.contains_key(other) == store.contains_key(other)
            &&& after[other] == store[other]
        }),
{
}

/// No packet gives a voxel more health than its block type starts with:
/// a store in which no voxel has more is such a store after any packet.
pub proof fn lemma_health_stays_bounded(
    state: PlayerState,
    store: Map<u128, Partition>,
    player: u128,
    entity_id: i32,
    current_slot: u8,
    ray: Seq<BlockPos>,
    world_block: Option<i32>,
    packet: ServerboundPacket,
)
    requires
        bounded(store),
    ensures
        bounded(
            handled(
                state,
                store,
                player,
                entity_id,
                current_slot,
                ray,
                world_block,
                packet,
            ).store,
        ),
{
    let after = handled(
        state,
        store,
        player,
        entity_id,
        current_slot,
        ray,
        world_block,
        packet,
    ).store;
    assert forall|owner: u128, pos: BlockPos|
        after.contains_key(owner) && #[trigger] after[owner].contains_key(pos)
            implies after[owner][pos].health <= after[owner][pos].block_data.initial_health by {
        assert(store.contains_key(owner) && store[owner].contains_key(pos));
    }
}

} // verus!
