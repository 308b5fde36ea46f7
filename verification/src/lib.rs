//! The game logic of a small 2D platformer engine: sprite animation, sprite
//! sheets, key handling, frame timing, jump timing and WGSL shader include
//! expansion.

pub mod animation;
pub mod component;
pub mod frame;
pub mod game;
pub mod gui;
pub mod input;
pub mod physics;
pub mod sprite;
mod text;
pub mod texture;
pub mod time;
pub mod wgsl_preprocessor;
