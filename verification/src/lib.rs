//! A supervisor for processes started from the command line: it starts
//! commands as detached children, records what it started, reconciles the
//! records with what is alive, and rotates the logs.
//!
//! The library does no input or output. Each operation of the supervisor
//! is a protocol ([`process`]) that names the next request to the store,
//! the filesystem or the operating system ([`exchange`]); the embedding
//! program carries the request out and reports what it observed. What a
//! whole operation leaves behind is proved over a model of the
//! surroundings ([`world`]).

pub mod api;
pub mod cli;
pub mod clock;
pub mod codec;
pub mod config;
pub mod database;
pub mod env;
pub mod error;
pub mod exchange;
pub mod formatter;
pub mod lifecycle;
pub mod log_rotation;
pub mod paths;
pub mod process;
pub mod text;
pub mod tracker;
pub mod world;

pub use error::{Error, Result};
