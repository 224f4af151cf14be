//! The event listener: reads a server's event stream and shows each event.

pub mod display;
pub mod event;
pub mod field_laws;
pub mod laws;
pub mod session;
