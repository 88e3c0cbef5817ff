//! The companion's face: expressions, speech bubble, triggers and voice state.
pub mod animation_state;
pub mod bubble;
pub mod expressions;
pub mod trigger;
pub mod window;
