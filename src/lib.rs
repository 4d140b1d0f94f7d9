//! Procedural cave-level generation: a seeded random fill, cellular-automaton
//! smoothing, removal of isolated wall tiles, and the derived collider and
//! spawn indices, with contracts checked by Verus.
//!
//! World quantities are measured in half units (twice the world-space value),
//! so that the center of a tile stays exact for every tile size.

pub mod error;
pub mod fill;
pub mod grid;
pub mod index;
pub mod input;
pub mod inventory;
pub mod laws;
pub mod level;
pub mod menu;
pub mod movement;
pub mod resolve;
mod rng;
pub mod smooth;
pub mod visibility;

pub use error::GenerationError;
pub use fill::random_fill;
pub use grid::{Grid, OutOfBounds, Tile};
pub use index::{center_of, ColliderEntry, SpawnIndex, WorldPoint};
pub use input::ButtonState;
pub use inventory::{GunType, Inventory, Item};
pub use level::{generate, generate_from_samples, GenParams, Level};
pub use menu::{AudioChannelId, ButtonId, MenuAction};
pub use movement::{Action, MovementDirection};
pub use resolve::{resolve_pockets, PocketScan};
pub use smooth::{smooth, smooth_pass};
pub use visibility::{is_visible, VISIBILITY_CUTOFF};
