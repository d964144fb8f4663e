//! The block-mining loop of a tick-based voxel game server, verified.
//!
//! A player destroys voxels that the server places in front of the player.
//! [`game::blocks`] keeps each player's voxels and their health and places
//! new ones; [`game::stateful`] is the per-player state machine that takes
//! the client's destroy actions, hits the voxels tick by tick and says which
//! packets go back; [`protocol`] holds the values that pass between the
//! two and the network layer. Nothing here does I/O: the caller reads the
//! packets, casts the ray of the player's line of sight, and sends what
//! comes back.

pub mod chat;
pub mod console;
pub mod game;
pub mod protocol;
pub mod ranks;
