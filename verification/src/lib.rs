//! Endpoint resolution and launch planning for an OpenVPN front end.
//!
//! The crate holds the decisions of the program: which configuration file a
//! list of candidate hosts resolves to, which command line starts the client,
//! which entries of a configuration archive are unpacked and where, and in
//! which order the steps of a launch follow each other. Everything that
//! touches the network, the disk or a child process is left to the caller,
//! which hands plain values in and takes plain values back.

pub mod cmd;
pub mod common;
pub mod credential;
pub mod error;
pub mod orchestrator;
pub mod ovpn;
pub mod paths;
pub mod server;
pub mod text;

pub use server::{Options, Server, Servers};
