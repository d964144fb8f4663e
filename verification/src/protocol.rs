use vstd::prelude::*;
use vstd::string::StringExecFns;

verus! {

/// A unit-cube world position addressed by integer coordinates.
#[derive(Clone, Copy, Debug, PartialEq, Eq, Structural, Hash)]
pub struct BlockPos {
    pub x: i32,
    pub y: i32,
    pub z: i32,
}

/// The number that stands for a position wherever positions key a hash map:
/// the three coordinates, each shifted into `0 .. 2^32`, as the digits of a
/// number in base `2^32`.
pub open spec fn pos_key(pos: BlockPos) -> u128 {
    ((pos.x + 0x8000_0000) * 0x1_0000_0000_0000_0000 + (pos.y + 0x8000_0000) * 0x1_0000_0000 + (
    pos.z + 0x8000_0000)) as u128
}

/// Two positions with the same key are the same position.
pub proof fn lemma_pos_key_injective(a: BlockPos, b: BlockPos)
    ensures
        pos_key(a) == pos_key(b) <==> a == b,
{
}

/// Where the static world keeps the block of a position: the chunk, a
/// column of 16 by 16 blocks, and the place inside the chunk.
#[derive(Clone, Copy, Debug, PartialEq, Eq, Structural)]
pub struct ChunkLocation {
    pub chunk_x: i32,
    pub chunk_z: i32,
    pub local_x: i32,
    pub y: i32,
    pub local_z: i32,
}

impl BlockPos {
    /// Splits the position into its chunk and the place inside it.
    pub fn chunk_location(&self) -> (r: ChunkLocation)
        ensures
            0 <= r.local_x < 16,
            0 <= r.local_z < 16,
            r.chunk_x * 16 + r.local_x == self.x,
            r.chunk_z * 16 + r.local_z == self.z,
            r.y == self.y,
    {
        let x: i32 = self.x;
        let z: i32 = self.z;
        assert(0 <= (x & 0xF) < 16 && (x >> 4) * 16 + (x & 0xF) == x) by (bit_vector);
        assert(0 <= (z & 0xF) < 16 && (z >> 4) * 16 + (z & 0xF) == z) by (bit_vector);
        ChunkLocation {
            chunk_x: x >> 4,
            chunk_z: z >> 4,
            local_x: x & 0xF,
            y: self.y,
            local_z: z & 0xF,
        }
    }

    /// Computes [`pos_key`].
    pub fn key(&self) -> (k: u128)
        ensures
            k == pos_key(*self),
    {
        let x: u128 = (self.x as i64 + 0x8000_0000) as u128;
        let y: u128 = (self.y as i64 + 0x8000_0000) as u128;
        let z: u128 = (self.z as i64 + 0x8000_0000) as u128;
        x * 0x1_0000_0000_0000_0000 + y * 0x1_0000_0000 + z
    }
}

/// One entry of a batched block update.
#[derive(Clone, Copy, Debug, PartialEq, Eq, Structural)]
pub struct BlockUpdateInfo {
    pub block_pos: BlockPos,
    pub block_id: i32,
}

/// What the overlay above the hotbar shows to the acting player.
#[derive(Clone, Copy, Debug, PartialEq, Eq, Structural)]
pub enum OverlayMessage {
    BlockBroken,
    BreakProgress { remaining: u128, initial: u128 },
}

/// The character of a decimal digit.
pub open spec fn digit(d: nat) -> char {
    if d == 0 {
        '0'
    } else if d == 1 {
        '1'
    } else if d == 2 {
        '2'
    } else if d == 3 {
        '3'
    } else if d == 4 {
        '4'
    } else if d == 5 {
        '5'
    } else if d == 6 {
        '6'
    } else if d == 7 {
        '7'
    } else if d == 8 {
        '8'
    } else {
        '9'
    }
}

/// A number in decimal digits, without leading zeros.
pub open spec fn decimal(n: nat) -> Seq<char>
    decreases n,
{
    if n < 10 {
        seq![digit(n)]
    } else {
        decimal(n / 10).push(digit(n % 10))
    }
}

/// The text of an overlay message.
pub open spec fn overlay_text(message: OverlayMessage) -> Seq<char> {
    match message {
        OverlayMessage::BlockBroken => "Block Broken!"@,
        OverlayMessage::BreakProgress { remaining, initial } => "Break Progress: "@ + decimal(
            remaining as nat,
        ) + "/"@ + decimal(initial as nat),
    }
}

fn digit_str(d: u128) -> (s: &'static str)
    requires
        d < 10,
    ensures
        s@ == seq![digit(d as nat)],
{
    proof {
        reveal_strlit("0");
        reveal_strlit("1");
        reveal_strlit("2");
        reveal_strlit("3");
        reveal_strlit("4");
        reveal_strlit("5");
        reveal_strlit("6");
        reveal_strlit("7");
        reveal_strlit("8");
        reveal_strlit("9");
    }
    let s = if d == 0 {
        "0"
    } else if d == 1 {
        "1"
    } else if d == 2 {
        "2"
    } else if d == 3 {
        "3"
    } else if d == 4 {
        "4"
    } else if d == 5 {
        "5"
    } else if d == 6 {
        "6"
    } else if d == 7 {
        "7"
    } else if d == 8 {
        "8"
    } else {
        "9"
    };
    assert(s@ =~= seq![digit(d as nat)]);
    s
}

/// Appends the decimal digits of `n` to the text.
pub fn push_decimal(text: &mut String, n: u128)
    ensures
        final(text)@ == old(text)@ + decimal(n as nat),
    decreases n,
{
    if n >= 10 {
        push_decimal(text, n / 10);
    }
    text.append(digit_str(n % 10));
    assert(text@ =~= old(text)@ + decimal(n as nat));
}

impl OverlayMessage {
    /// The text that the overlay shows: `Block Broken!`, or
    /// `Break Progress: ` with the health left, a slash and the initial
    /// health, both in decimal.
    pub fn text(&self) -> (text: String)
        ensures
            text@ == overlay_text(*self),
    {
        match *self {
            OverlayMessage::BlockBroken => String::from_str("Block Broken!"),
            OverlayMessage::BreakProgress { remaining, initial } => {
                let mut text = String::from_str("Break Progress: ");
                push_decimal(&mut text, remaining);
                text.append("/");
                push_decimal(&mut text, initial);
                text
            },
        }
    }
}

/// A packet for the acting player's client.
#[derive(Clone, Debug, PartialEq, Eq)]
pub enum ClientboundPacket {
    /// One block changed.
    BlockUpdate { pos: BlockPos, state: i32 },
    /// Several blocks changed at once.
    SectionBlocksUpdate { update_info: Vec<BlockUpdateInfo> },
    /// The server has handled every destroy action up to this sequence number.
    BlockChangedAck { sequence_id: i32 },
    /// The crack overlay of entity `id` on a block; progress 255 clears it.
    BlockDestruction { id: i32, pos: BlockPos, progress: u8 },
    /// A system message; with `overlay` it replaces the line above the hotbar.
    SystemChat { content: OverlayMessage, overlay: bool },
}

/// A [`ClientboundPacket`] as a mathematical value.
pub enum PacketView {
    BlockUpdate { pos: BlockPos, state: i32 },
    SectionBlocksUpdate { update_info: Seq<BlockUpdateInfo> },
    BlockChangedAck { sequence_id: i32 },
    BlockDestruction { id: i32, pos: BlockPos, progress: u8 },
    SystemChat { content: OverlayMessage, overlay: bool },
}

impl DeepView for ClientboundPacket {
    type V = PacketView;

    open spec fn deep_view(&self) -> PacketView {
        match *self {
            ClientboundPacket::BlockUpdate { pos, state } => PacketView::BlockUpdate { pos, state },
            ClientboundPacket::SectionBlocksUpdate { update_info } => {
                PacketView::SectionBlocksUpdate { update_info: update_info@ }
            },
            ClientboundPacket::BlockChangedAck { sequence_id } => PacketView::BlockChangedAck {
                sequence_id,
            },
            ClientboundPacket::BlockDestruction { id, pos, progress } => {
                PacketView::BlockDestruction { id, pos, progress }
            },
            ClientboundPacket::SystemChat { content, overlay } => PacketView::SystemChat {
                content,
                overlay,
            },
        }
    }
}

/// The packets that carry a tick's block changes: none for no change, a
/// single-block update for one, one batched update for more.
pub open spec fn batched(updates: Seq<BlockUpdateInfo>) -> Seq<PacketView> {
    if updates.len() == 0 {
        seq![]
    } else if updates.len() == 1 {
        seq![PacketView::BlockUpdate { pos: updates[0].block_pos, state: updates[0].block_id }]
    } else {
        seq![PacketView::SectionBlocksUpdate { update_info: updates }]
    }
}

/// Computes [`batched`].
pub fn batch_updates(updates: Vec<BlockUpdateInfo>) -> (packets: Vec<ClientboundPacket>)
    ensures
        packets.deep_view() == batched(updates@),
{
    let mut packets: Vec<ClientboundPacket> = Vec::new();
    if updates.len() == 1 {
        let update = updates[0];
        packets.push(
            ClientboundPacket::BlockUpdate { pos: update.block_pos, state: update.block_id },
        );
    } else if updates.len() > 1 {
        packets.push(ClientboundPacket::SectionBlocksUpdate { update_info: updates });
    }
    assert(packets.deep_view() =~= batched(updates@));
    packets
}

/// The hand that an action was made with.
#[derive(Clone, Copy, Debug, PartialEq, Eq, Structural)]
pub enum InteractionHand {
    MainHand,
    OffHand,
}

/// What a `PlayerAction` packet reports.
#[derive(Clone, Copy, Debug, PartialEq, Eq, Structural)]
pub enum PlayerActionType {
    StartDestroyBlock,
    AbortDestroyBlock,
    StopDestroyBlock,
    DropAllItems,
    DropItem,
    ReleaseUseItem,
    SwapItemWithOffhand,
}

/// What a `PlayerCommand` packet reports, as far as the server acts on it.
#[derive(Clone, Copy, Debug, PartialEq, Eq, Structural)]
pub enum PlayerCommandType {
    OpenInventory,
    Other,
}

/// A packet from the player's client, reduced to what the player's state
/// reads of it.
#[derive(Clone, Copy, Debug, PartialEq, Eq, Structural)]
pub enum ServerboundPacket {
    ContainerClose { container_id: u8 },
    KeepAlive { keep_alive_id: u64 },
    PlayerAbilities,
    PlayerCommand { action_type: PlayerCommandType },
    UseItem { hand: InteractionHand },
    UseItemOn { hand: InteractionHand },
    Swing { hand: InteractionHand },
    PlayerAction { action_type: PlayerActionType, at_pos: BlockPos, sequence: i32 },
    ContainerClick { container_id: u8, state_id: i32, slot: i16, button: u8 },
    SetCarriedItem { slot: u16 },
    /// Any packet that the player's state does not act on.
    Other,
}

} // verus!
