//! Scene and interaction core of a Wayland compositor: the window registry,
//! the per-surface configure handshake, move and resize grabs, input
//! dispatch decisions and frame composition decisions.
pub mod geometry;
pub mod window;
pub mod space;
pub mod surface;
pub mod grabs;
pub mod state;
pub mod input;
pub mod frame;
