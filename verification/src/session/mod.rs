//! Desktop sessions: where the picture comes from and where input goes.

pub mod strategies;
pub mod strategy;
