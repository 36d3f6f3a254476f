//! Decision logic of a Remote Desktop server for Wayland desktops.

pub mod arith;
pub mod damage;
pub mod server;
pub mod session;
pub mod text;
pub mod video;
