//! Wakey: the decision logic of a desktop companion, with its contracts.
//!
//! Text is handled as sequences of Unicode scalar values throughout; the
//! `text` module holds the verified string operations the rest builds on.
pub mod chat;
pub mod companion;
pub mod context;
pub mod cortex;
pub mod overlay;
pub mod senses;
pub mod skills;
pub mod text;
pub mod types;
