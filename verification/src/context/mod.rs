//! Context storage: `wakey://` paths, memory categories and tiered content.
pub mod filesystem;
pub mod memory;
pub mod retrieval;
pub mod tiers;
