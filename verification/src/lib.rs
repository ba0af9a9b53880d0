//! Verified core of a pure-Rust Lua backend for `bevy_mod_scripting`.

pub mod clock;
pub mod display;
pub mod draw;
pub mod errors;
pub mod json;
pub mod life;
pub mod params;
pub mod reflect;
pub mod text;
pub mod ticks;

pub use text::{i64_to_decimal, join_strings};
