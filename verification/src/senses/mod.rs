//! What the companion perceives: the focused window and the machine's vitals.
pub mod system;
pub mod window;
