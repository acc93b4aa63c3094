//! Shared instrument state, pedal fan-out and the text protocol that lets
//! several clients watch and change one controller device.

pub mod broadcast;
pub mod catalog;
pub mod client;
pub mod link;
pub mod loader;
pub mod messages;
pub mod pedal;
pub mod protocol;
pub mod store;
pub mod text;
