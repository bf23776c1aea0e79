//! Core of a tile-based ball-and-paddle game: a name-keyed resource cache,
//! the brick and paddle entities, levels parsed from digit grids, the sprite
//! draw sequence and the game state machine.
//!
//! The library never talks to the graphics driver itself. Everything that
//! would touch the GPU is recorded as a [`RenderCommand`] into a list that the
//! host submits, so the order and content of every frame is stated and proved
//! here.

pub mod command;
pub mod entity;
pub mod game;
pub mod geometry;
pub mod handles;
pub mod level;
pub mod loader;
pub mod material;
pub mod sprite_renderer;
pub mod texture2d;

pub use command::RenderCommand;
pub use entity::{Entity, EntityView};
pub use game::{Game, GameError, GameState};
pub use geometry::{Extent, Tint, Vector2};
pub use handles::{Program, Texture, VertexAttributeArray};
pub use level::{Level, LevelError};
pub use loader::{Loader, ResourceError};
pub use material::Material;
pub use sprite_renderer::SpriteRenderer;
pub use texture2d::{FilterMode, PixelFormat, Texture2D, WrapMode};
