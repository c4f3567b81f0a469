//! Voxel-world logic of FerrisCraft: block kinds and orientations, chunk
//! coordinates, terrain column filling, chunk generation, face meshing,
//! world streaming decisions and the small protocol and menu rules shared by
//! the client and the server.

use vstd::prelude::*;

pub mod block;
pub mod coords;
pub mod terrain;
pub mod chunk;
pub mod mesher;
pub mod saved;
pub mod generate;
pub mod world;
pub mod server;
pub mod text;
pub mod hotbar;
pub mod packet;
pub mod store;
pub mod controls;

verus! {

/// Port a server listens on when none is given.
pub const DEFAULT_SERVER_PORT: u16 = 42069;

/// Width and depth of a chunk, in blocks.
pub const CHUNK_SIZE: i32 = 16;

/// Height of a chunk, in blocks.
pub const CHUNK_HEIGHT: i32 = 256;

/// Height of the water surface.
pub const SEA_LEVEL: i32 = 64;

/// Number of blocks in one chunk (`CHUNK_SIZE * CHUNK_HEIGHT * CHUNK_SIZE`).
pub const CHUNK_VOLUME: usize = 65536;

} // verus!
