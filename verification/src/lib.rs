//! A desktop-application toolkit: a web page served by a local HTTP server,
//! talking to Rust functions over a websocket.
//!
//! This crate holds the verified core: the text of addresses and launch
//! commands, the registries of functions and static folders, the wire
//! messages, the choice of what a request is answered with, and the code
//! text that the function attributes generate.

pub mod address;
pub mod browsers;
pub mod dolphine;
pub mod expand;
pub mod functions;
pub mod protocol;
pub mod registry;
pub mod serve;
pub mod text;
