//! Skills and the supervision of coding agents.
pub mod clock;
pub mod detector;
pub mod supervisor;
pub mod sessions;
pub mod fixer;
pub mod reporter;
pub mod watcher;
pub mod learning;
pub mod evolution;
pub mod wasm;
pub mod format;
pub mod dag;
pub mod quality;
