//! What the web front end decides: which commands a request sends, what it is
//! answered, and which fragments a change of state re-emits.

pub mod card_laws;
pub mod error;
pub mod form;
pub mod handlers;
pub mod interaction;
pub mod laws;
pub mod log;
pub mod log_laws;
pub mod preset_laws;
pub mod sse;
pub mod sse_laws;
pub mod state;
pub mod theme;
