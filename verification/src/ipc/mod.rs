//! What the command-line client and the desktop process say to each other, and
//! how each answer comes about.

pub mod client;
pub mod laws;
pub mod protocol;
pub mod server;
