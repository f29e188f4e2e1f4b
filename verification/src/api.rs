//! What the remote frontend exchanges with its clients.

pub mod handlers;
