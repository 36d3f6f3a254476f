//! Ways to obtain a desktop session.

pub mod eis_common;
pub mod kwin_virtual;
pub mod libei;
pub mod screencast_only;
