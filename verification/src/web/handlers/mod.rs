//! The requests, by what they are about.

pub mod ac;
pub mod ac_laws;
pub mod laws;
pub mod page_laws;
pub mod pages;
pub mod preset;
pub mod replay_laws;
pub mod zone;
