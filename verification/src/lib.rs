//! grazel: the logic of a gryth node.
//!
//! grazel is a glade application: it composes glade suppliers, owns app storage
//! and serves the UI. This crate holds what it decides and computes: the command
//! line, the mapping from modes to node profiles, the storage layout, the
//! arguments of the node and of the supplier, the `/bootstrap.json` body, the
//! answers to HTTP requests, and what follows from what happens to its children.
//! The program around it spawns, reads, sends and waits.
//!
//! Nothing here touches the network or a store. The node always runs under the
//! `sys` slot of the storage root, never under the user's home.

pub mod bootstrap;
pub mod bootstrap_laws;
pub mod config;
pub mod config_laws;
pub mod http;
pub mod mode;
pub mod paths;
pub mod paths_laws;
pub mod supervise;
pub mod supervise_laws;
pub mod supplier;
pub mod text;
pub mod text_laws;
pub mod usage;
pub mod web;
pub mod web_laws;

pub use bootstrap::{bootstrap_json, json_escape};
pub use config::Config;
pub use mode::Mode;
pub use usage::USAGE;
pub use web::{content_type, read_static};
