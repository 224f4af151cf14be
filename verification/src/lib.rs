//! The verified core of a web front end for an AirTouch 5 console.

pub mod automation;
pub mod listener;
pub mod manager;
pub mod scenes;
pub mod templates;
pub mod text;
pub mod text_laws;
pub mod web;
