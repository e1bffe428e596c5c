//! frost: the integer core of a small 2D game engine.
//!
//! This crate holds the parts of the engine whose behaviour is pure integer
//! logic and is proved against its contracts: the seeded splitmix64 random
//! number generator ([`Rng`]), the glyph atlas's shelf packer ([`Atlas`]),
//! the buffer sizes of the GPU light and occluder fields, the window
//! placement, the run configuration ([`Config`]), and the scene's
//! integer-valued vocabulary ([`NodePath`], [`Node`], [`Repeat`]).

pub mod config;
pub mod field;
pub mod input;
pub mod objects;
pub mod rng;
pub mod text;
pub mod tween;

pub use config::Config;
pub use input::{InputState, WindowAction, WindowInput};
pub use objects::{check_font, decode_sprite, Node, NodePath, SpriteError, SpritePixels, TextError};
pub use rng::Rng;
pub use tween::Repeat;
