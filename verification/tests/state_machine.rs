use block_mining::game::blocks::BlockSystem;
use block_mining::game::descriptor::AvailableBlockData;
use block_mining::game::stateful::{
    ClickWith, CurrentDestroyingState, GlobPlayerState, MenuState, PlayerContext,
    PlayerDestroyingState, SessionAction, StatefulEvent, BLOCK_BROKEN_FLAG,
};
use block_mining::protocol::{
    BlockPos, ClientboundPacket, InteractionHand, OverlayMessage, PlayerActionType,
    PlayerCommandType, ServerboundPacket,
};

const PLAYER: u128 = 77;
const ENTITY: i32 = 4711;

fn block(ordinal: usize, health: u128) -> AvailableBlockData {
    AvailableBlockData {
        block_ordinal: ordinal,
        block_id: 100 + ordinal as i32,
        item_id: 200 + ordinal as i32,
        initial_health: health,
    }
}

fn target() -> BlockPos {
    BlockPos { x: 8, y: 2, z: 24 }
}

fn elsewhere() -> BlockPos {
    BlockPos { x: 7, y: 2, z: 24 }
}

fn context(slot: u8, line_of_sight: Vec<BlockPos>, world_block: Option<i32>) -> PlayerContext {
    PlayerContext { uuid: PLAYER, entity_id: ENTITY, current_slot: slot, line_of_sight, world_block }
}

fn start(at: BlockPos, sequence: i32) -> ServerboundPacket {
    ServerboundPacket::PlayerAction {
        action_type: PlayerActionType::StartDestroyBlock,
        at_pos: at,
        sequence,
    }
}

fn abort(sequence: i32) -> ServerboundPacket {
    ServerboundPacket::PlayerAction {
        action_type: PlayerActionType::AbortDestroyBlock,
        at_pos: BlockPos { x: 0, y: 0, z: 0 },
        sequence,
    }
}

fn stop(sequence: i32) -> ServerboundPacket {
    ServerboundPacket::PlayerAction {
        action_type: PlayerActionType::StopDestroyBlock,
        at_pos: BlockPos { x: 0, y: 0, z: 0 },
        sequence,
    }
}

fn swing() -> ServerboundPacket {
    ServerboundPacket::Swing { hand: InteractionHand::MainHand }
}

fn system_with(pos: BlockPos, data: AvailableBlockData) -> BlockSystem {
    let mut system = BlockSystem::default();
    assert!(system.populate(PLAYER, pos, Some(data)).is_some());
    system
}

#[test]
fn acks_in_one_tick_coalesce_into_the_largest() {
    let mut state = PlayerDestroyingState::default();
    state.ack(3);
    state.ack(7);
    state.ack(5);
    assert_eq!(state.destroying_block_sequence(), Some(7));
    assert_eq!(state.execute_ack(), vec![ClientboundPacket::BlockChangedAck { sequence_id: 7 }]);
    assert_eq!(state.destroying_block_sequence(), None);
    assert_eq!(state.execute_ack(), vec![]);
}

#[test]
fn ack_keeps_the_larger_number_also_for_negative_numbers() {
    let mut state = PlayerDestroyingState::default();
    state.ack(-4);
    assert_eq!(state.destroying_block_sequence(), Some(-4));
    state.ack(-9);
    assert_eq!(state.destroying_block_sequence(), Some(-4));
    state.ack(i32::MAX);
    state.ack(0);
    assert_eq!(state.destroying_block_sequence(), Some(i32::MAX));
}

#[test]
fn start_on_last_health_then_one_continuation_breaks_the_block() {
    let mut system = system_with(target(), block(5, 1));
    let mut state = GlobPlayerState::default();
    let player = context(0, vec![], None);

    assert_eq!(state.begin_tick(), vec![]);
    let started = state.handle_packet(start(target(), 12), &player, &mut system);
    assert_eq!(started.packets, vec![]);
    assert_eq!(started.event, None);
    assert_eq!(started.action, SessionAction::Nothing);
    assert_eq!(
        state.player_destroying_state().state(),
        CurrentDestroyingState::Started(target())
    );

    let broken = state.handle_packet(swing(), &player, &mut system);
    assert_eq!(
        broken.packets,
        vec![
            ClientboundPacket::BlockUpdate { pos: target(), state: 0 },
            ClientboundPacket::SystemChat { content: OverlayMessage::BlockBroken, overlay: true },
        ]
    );
    match broken.event {
        Some(StatefulEvent::BlockBroken(pos, data)) => {
            assert_eq!(pos, target());
            assert_eq!(data.block_ordinal, 5);
            assert_eq!(data.block_id, 105);
            assert_eq!(data.item_id, 205);
            assert_eq!(data.initial_health, 1);
        }
        None => panic!("no block was reported as broken"),
    }
    assert_eq!(system.current_state(PLAYER, target()), None);
    state.end_tick();

    assert_eq!(state.begin_tick(), vec![ClientboundPacket::BlockChangedAck { sequence_id: 12 }]);
    assert_eq!(state.begin_tick(), vec![]);
}

#[test]
fn interrupted_destruction_resumes_while_still_aiming_at_the_voxel() {
    let mut system = system_with(target(), block(2, 4));
    let mut state = GlobPlayerState::default();
    let aiming = context(0, vec![BlockPos { x: 8, y: 1, z: 23 }, target()], None);

    state.handle_packet(start(target(), 1), &aiming, &mut system);
    let first = state.handle_packet(swing(), &aiming, &mut system);
    assert_eq!(
        first.packets,
        vec![ClientboundPacket::SystemChat {
            content: OverlayMessage::BreakProgress { remaining: 3, initial: 4 },
            overlay: true,
        }]
    );
    state.end_tick();
    state.handle_packet(swing(), &aiming, &mut system);
    state.end_tick();
    assert_eq!(system.block_at(PLAYER, target()).unwrap().health, 2);

    let aborted = state.handle_packet(abort(2), &aiming, &mut system);
    assert_eq!(
        aborted.packets,
        vec![
            ClientboundPacket::BlockDestruction {
                id: ENTITY,
                pos: target(),
                progress: BLOCK_BROKEN_FLAG,
            },
            ClientboundPacket::BlockUpdate { pos: target(), state: 102 },
        ]
    );
    assert_eq!(
        state.player_destroying_state().state(),
        CurrentDestroyingState::Aborted(target())
    );
    assert_eq!(system.block_at(PLAYER, target()).unwrap().health, 4);
    system.attempt_damage_block(target(), PLAYER);

    let resumed = state.handle_packet(swing(), &aiming, &mut system);
    assert_eq!(
        resumed.packets,
        vec![ClientboundPacket::BlockUpdate { pos: target(), state: 102 }]
    );
    assert_eq!(resumed.event, None);
    assert_eq!(
        state.player_destroying_state().state(),
        CurrentDestroyingState::Started(target())
    );
    assert_eq!(system.block_at(PLAYER, target()).unwrap().health, 4);
    state.end_tick();

    let next = state.handle_packet(swing(), &aiming, &mut system);
    assert_eq!(
        next.packets,
        vec![ClientboundPacket::SystemChat {
            content: OverlayMessage::BreakProgress { remaining: 3, initial: 4 },
            overlay: true,
        }]
    );
}

#[test]
fn interrupted_destruction_ends_when_aiming_away() {
    let mut system = system_with(target(), block(2, 4));
    let mut state = GlobPlayerState::default();
    let away = context(0, vec![elsewhere(), BlockPos { x: 6, y: 2, z: 24 }], None);

    state.handle_packet(start(target(), 1), &away, &mut system);
    state.handle_packet(swing(), &away, &mut system);
    state.end_tick();
    state.handle_packet(abort(2), &away, &mut system);
    assert_eq!(system.block_at(PLAYER, target()).unwrap().health, 4);

    let ended = state.handle_packet(swing(), &away, &mut system);
    assert_eq!(ended.packets, vec![]);
    assert_eq!(ended.event, None);
    assert_eq!(state.player_destroying_state().state(), CurrentDestroyingState::Idle);
    state.end_tick();

    for _ in 0..5 {
        let idle = state.handle_packet(swing(), &away, &mut system);
        assert_eq!(idle.packets, vec![]);
        assert_eq!(idle.event, None);
        state.end_tick();
    }
    assert_eq!(system.block_at(PLAYER, target()).unwrap().health, 4);
    assert_eq!(state.player_destroying_state().state(), CurrentDestroyingState::Idle);
}

#[test]
fn continuation_hits_at_most_once_per_tick() {
    let mut system = system_with(target(), block(0, 10));
    let mut state = PlayerDestroyingState::default();
    state.start_destroying(ENTITY, target());
    assert!(!state.damage_this_tick());
    let (packets, event) = state.continue_destroying(PLAYER, &mut system, &vec![]);
    assert_eq!(packets.len(), 1);
    assert_eq!(event, None);
    assert!(state.damage_this_tick());
    for _ in 0..4 {
        let (packets, event) = state.continue_destroying(PLAYER, &mut system, &vec![]);
        assert_eq!(packets, vec![]);
        assert_eq!(event, None);
    }
    assert_eq!(system.block_at(PLAYER, target()).unwrap().health, 9);
    state.reset_tick();
    assert!(!state.damage_this_tick());
    state.continue_destroying(PLAYER, &mut system, &vec![]);
    assert_eq!(system.block_at(PLAYER, target()).unwrap().health, 8);
}

#[test]
fn continuation_in_idle_only_sets_the_guard() {
    let mut system = system_with(target(), block(0, 10));
    let mut state = PlayerDestroyingState::default();
    let (packets, event) = state.continue_destroying(PLAYER, &mut system, &vec![target()]);
    assert_eq!(packets, vec![]);
    assert_eq!(event, None);
    assert_eq!(state.state(), CurrentDestroyingState::Idle);
    assert!(state.damage_this_tick());
    assert_eq!(system.block_at(PLAYER, target()).unwrap().health, 10);
}

#[test]
fn continuation_on_an_untracked_voxel_does_nothing() {
    let mut system = BlockSystem::default();
    let mut state = PlayerDestroyingState::default();
    state.start_destroying(ENTITY, target());
    let (packets, event) = state.continue_destroying(PLAYER, &mut system, &vec![]);
    assert_eq!(packets, vec![]);
    assert_eq!(event, None);
    assert_eq!(state.state(), CurrentDestroyingState::Started(target()));
}

#[test]
fn continuation_after_the_break_finds_nothing_to_hit() {
    let mut system = system_with(target(), block(0, 2));
    let mut state = PlayerDestroyingState::default();
    state.start_destroying(ENTITY, target());
    state.continue_destroying(PLAYER, &mut system, &vec![]);
    state.reset_tick();
    let (_, event) = state.continue_destroying(PLAYER, &mut system, &vec![]);
    assert!(event.is_some());
    state.reset_tick();
    let (packets, event) = state.continue_destroying(PLAYER, &mut system, &vec![]);
    assert_eq!(packets, vec![]);
    assert_eq!(event, None);
    assert_eq!(state.state(), CurrentDestroyingState::Started(target()));
}

#[test]
fn voxel_without_health_counts_as_destroyed() {
    let mut system = system_with(target(), block(0, 0));
    let mut state = PlayerDestroyingState::default();
    state.start_destroying(ENTITY, target());
    let (packets, event) = state.continue_destroying(PLAYER, &mut system, &vec![]);
    assert_eq!(packets.len(), 2);
    assert!(event.is_some());
    assert_eq!(system.current_state(PLAYER, target()), None);
}

#[test]
fn start_while_started_clears_the_overlay_of_the_other_voxel() {
    let mut state = PlayerDestroyingState::default();
    assert_eq!(state.start_destroying(ENTITY, target()), vec![]);
    assert_eq!(
        state.start_destroying(ENTITY, elsewhere()),
        vec![ClientboundPacket::BlockDestruction { id: ENTITY, pos: target(), progress: 255 }]
    );
    assert_eq!(state.state(), CurrentDestroyingState::Started(elsewhere()));
    assert_eq!(state.target(), Some(elsewhere()));
    assert_eq!(
        state.start_destroying(ENTITY, elsewhere()),
        vec![ClientboundPacket::BlockDestruction { id: ENTITY, pos: elsewhere(), progress: 255 }]
    );
}

#[test]
fn start_from_aborted_sends_nothing() {
    let mut system = BlockSystem::default();
    let mut state = PlayerDestroyingState::default();
    state.start_destroying(ENTITY, target());
    state.abort_destroying(PLAYER, ENTITY, &mut system);
    assert_eq!(state.state(), CurrentDestroyingState::Aborted(target()));
    assert_eq!(state.start_destroying(ENTITY, elsewhere()), vec![]);
    assert_eq!(state.state(), CurrentDestroyingState::Started(elsewhere()));
}

#[test]
fn abort_in_idle_is_a_no_op() {
    let mut system = system_with(target(), block(0, 3));
    let mut state = PlayerDestroyingState::default();
    assert_eq!(state.abort_destroying(PLAYER, ENTITY, &mut system), vec![]);
    assert_eq!(state.state(), CurrentDestroyingState::Idle);
    assert_eq!(state.target(), None);
}

#[test]
fn abort_on_an_untracked_voxel_changes_the_phase_and_sends_nothing() {
    let mut system = BlockSystem::default();
    let mut state = PlayerDestroyingState::default();
    state.start_destroying(ENTITY, target());
    assert_eq!(state.abort_destroying(PLAYER, ENTITY, &mut system), vec![]);
    assert_eq!(state.state(), CurrentDestroyingState::Aborted(target()));
    assert_eq!(state.abort_destroying(PLAYER, ENTITY, &mut system), vec![]);
    assert_eq!(state.state(), CurrentDestroyingState::Aborted(target()));
}

#[test]
fn stop_sends_the_held_state_then_the_world_then_air() {
    let mut state = PlayerDestroyingState::default();
    state.start_destroying(ENTITY, target());

    let held = system_with(target(), block(3, 3));
    assert_eq!(
        state.stop_destroying(PLAYER, &held, Some(55)),
        vec![ClientboundPacket::BlockUpdate { pos: target(), state: 103 }]
    );
    let empty = BlockSystem::default();
    assert_eq!(
        state.stop_destroying(PLAYER, &empty, Some(55)),
        vec![ClientboundPacket::BlockUpdate { pos: target(), state: 55 }]
    );
    assert_eq!(
        state.stop_destroying(PLAYER, &empty, None),
        vec![ClientboundPacket::BlockUpdate { pos: target(), state: 0 }]
    );
    assert_eq!(state.state(), CurrentDestroyingState::Started(target()));
}

#[test]
fn stop_flushes_its_own_sequence_number() {
    let mut system = system_with(target(), block(3, 3));
    let mut state = GlobPlayerState::default();
    let player = context(0, vec![], Some(9));
    state.handle_packet(start(target(), 4), &player, &mut system);
    let stopped = state.handle_packet(stop(6), &player, &mut system);
    assert_eq!(
        stopped.packets,
        vec![
            ClientboundPacket::BlockUpdate { pos: target(), state: 103 },
            ClientboundPacket::BlockChangedAck { sequence_id: 6 },
        ]
    );
    assert_eq!(state.player_destroying_state().destroying_block_sequence(), None);
    assert_eq!(state.begin_tick(), vec![]);
}

#[test]
fn stop_in_idle_keeps_the_acknowledgement_for_the_next_tick() {
    let mut system = BlockSystem::default();
    let mut state = GlobPlayerState::default();
    let player = context(0, vec![], Some(9));
    let stopped = state.handle_packet(stop(6), &player, &mut system);
    assert_eq!(stopped.packets, vec![]);
    assert_eq!(state.player_destroying_state().destroying_block_sequence(), Some(6));
    assert_eq!(state.begin_tick(), vec![ClientboundPacket::BlockChangedAck { sequence_id: 6 }]);
}

#[test]
fn swing_with_another_slot_or_hand_does_not_hit() {
    let mut system = system_with(target(), block(0, 5));
    let mut state = GlobPlayerState::default();
    state.handle_packet(start(target(), 1), &context(0, vec![], None), &mut system);
    for slot in 1u8..8 {
        let out = state.handle_packet(swing(), &context(slot, vec![], None), &mut system);
        assert_eq!(out.packets, vec![]);
        assert_eq!(out.action, SessionAction::Nothing);
    }
    let off = ServerboundPacket::Swing { hand: InteractionHand::OffHand };
    let out = state.handle_packet(off, &context(0, vec![], None), &mut system);
    assert_eq!(out.packets, vec![]);
    assert_eq!(system.block_at(PLAYER, target()).unwrap().health, 5);
    assert!(!state.player_destroying_state().damage_this_tick());
}

#[test]
fn menu_slot_opens_the_statistics_menu_once() {
    let mut system = BlockSystem::default();
    let mut state = GlobPlayerState::default();
    let player = context(8, vec![], None);
    let use_item = ServerboundPacket::UseItem { hand: InteractionHand::MainHand };
    let out = state.handle_packet(use_item, &player, &mut system);
    assert_eq!(out.action, SessionAction::OpenStatistics);
    assert_eq!(state.current_menu(), MenuState::Other(1));
    let again = state.handle_packet(swing(), &player, &mut system);
    assert_eq!(again.action, SessionAction::Nothing);
    let on = ServerboundPacket::UseItemOn { hand: InteractionHand::MainHand };
    assert_eq!(state.handle_packet(on, &player, &mut system).action, SessionAction::Nothing);

    let close = ServerboundPacket::ContainerClose { container_id: 1 };
    state.handle_packet(close, &player, &mut system);
    assert_eq!(state.current_menu(), MenuState::Closed);
    let reopened = state.handle_packet(swing(), &player, &mut system);
    assert_eq!(reopened.action, SessionAction::OpenStatistics);

    let off = ServerboundPacket::UseItem { hand: InteractionHand::OffHand };
    state.handle_packet(close, &player, &mut system);
    assert_eq!(state.handle_packet(off, &player, &mut system).action, SessionAction::Nothing);
    assert_eq!(state.current_menu(), MenuState::Closed);
}

#[test]
fn container_close_closes_only_the_open_container() {
    let mut system = BlockSystem::default();
    let mut state = GlobPlayerState::default();
    let player = context(3, vec![], None);
    let open = ServerboundPacket::PlayerCommand { action_type: PlayerCommandType::OpenInventory };
    state.handle_packet(open, &player, &mut system);
    assert_eq!(state.current_menu(), MenuState::Own);
    state.handle_packet(ServerboundPacket::ContainerClose { container_id: 1 }, &player, &mut system);
    assert_eq!(state.current_menu(), MenuState::Own);
    state.handle_packet(ServerboundPacket::ContainerClose { container_id: 0 }, &player, &mut system);
    assert_eq!(state.current_menu(), MenuState::Closed);

    let other = ServerboundPacket::PlayerCommand { action_type: PlayerCommandType::Other };
    state.handle_packet(other, &player, &mut system);
    assert_eq!(state.current_menu(), MenuState::Closed);

    state.handle_packet(swing(), &context(8, vec![], None), &mut system);
    state.handle_packet(ServerboundPacket::ContainerClose { container_id: 0 }, &player, &mut system);
    assert_eq!(state.current_menu(), MenuState::Other(1));
}

#[test]
fn container_click_goes_to_the_inventory_or_the_open_menu() {
    let mut system = BlockSystem::default();
    let mut state = GlobPlayerState::default();
    let player = context(8, vec![], None);
    let click = |container_id: u8, button: u8| ServerboundPacket::ContainerClick {
        container_id,
        state_id: 31,
        slot: 4,
        button,
    };
    assert_eq!(
        state.handle_packet(click(0, 0), &player, &mut system).action,
        SessionAction::RefreshInventory
    );
    assert_eq!(state.handle_packet(click(1, 0), &player, &mut system).action, SessionAction::Nothing);
    state.handle_packet(swing(), &player, &mut system);
    assert_eq!(
        state.handle_packet(click(1, 0), &player, &mut system).action,
        SessionAction::MenuClick { state_id: 31, slot: 4, click_with: ClickWith::Left }
    );
    assert_eq!(
        state.handle_packet(click(1, 1), &player, &mut system).action,
        SessionAction::MenuClick { state_id: 31, slot: 4, click_with: ClickWith::Right }
    );
}

#[test]
fn other_packets_ask_the_session_for_the_right_thing() {
    let mut system = BlockSystem::default();
    let mut state = GlobPlayerState::default();
    let player = context(0, vec![], None);
    for action_type in [
        PlayerActionType::DropAllItems,
        PlayerActionType::DropItem,
        PlayerActionType::SwapItemWithOffhand,
    ] {
        let packet = ServerboundPacket::PlayerAction {
            action_type,
            at_pos: target(),
            sequence: 1,
        };
        let out = state.handle_packet(packet, &player, &mut system);
        assert_eq!(out.action, SessionAction::RefreshInventory);
    }
    let release = ServerboundPacket::PlayerAction {
        action_type: PlayerActionType::ReleaseUseItem,
        at_pos: target(),
        sequence: 99,
    };
    assert_eq!(state.handle_packet(release, &player, &mut system).action, SessionAction::Nothing);
    assert_eq!(state.player_destroying_state().destroying_block_sequence(), None);

    for (slot, expected) in [(0u16, 0u8), (5, 5), (8, 8), (9, 8), (u16::MAX, 8)] {
        let out = state.handle_packet(ServerboundPacket::SetCarriedItem { slot }, &player, &mut system);
        assert_eq!(out.action, SessionAction::SetCurrentSlot(expected));
    }
    let keep = ServerboundPacket::KeepAlive { keep_alive_id: 123456789 };
    state.handle_packet(keep, &player, &mut system);
    assert_eq!(state.current_keepalive_seq(), 123456789);
    assert_eq!(
        state.handle_packet(ServerboundPacket::PlayerAbilities, &player, &mut system).action,
        SessionAction::Nothing
    );
    assert_eq!(
        state.handle_packet(ServerboundPacket::Other, &player, &mut system).action,
        SessionAction::Unhandled
    );
}

#[test]
fn a_new_state_is_idle_with_nothing_owed() {
    let state = GlobPlayerState::default();
    assert_eq!(state.player_destroying_state().state(), CurrentDestroyingState::Idle);
    assert_eq!(state.player_destroying_state().destroying_block_sequence(), None);
    assert!(!state.player_destroying_state().damage_this_tick());
    assert_eq!(state.current_menu(), MenuState::Closed);
    assert_eq!(state.current_keepalive_seq(), 0);
    assert_eq!(CurrentDestroyingState::default(), CurrentDestroyingState::Idle);
    assert_eq!(MenuState::default(), MenuState::Closed);
    assert_eq!(BLOCK_BROKEN_FLAG, 255);
}
