//! The rules of Lightrail, which puts preview environments of Compose projects on remote
//! machines, clusters and platforms through plugins.
//!
//! Everything here works on plain values: what is read, what plugins answer and what a person
//! replies comes in as arguments, and what is to be asked, sent, written or shown goes out as
//! results.

use vstd::prelude::*;

pub mod address;
pub mod admin;
pub mod canonical;
pub mod cli;
pub mod client;
pub mod collections;
pub mod compose;
pub mod config;
pub mod context;
pub mod dialogue;
pub mod doctor;
pub mod down;
pub mod error;
pub mod fleet;
pub mod git;
pub mod identity;
pub mod init;
pub mod journal;
pub mod lifecycle;
pub mod lock;
pub mod models;
pub mod naming;
pub mod outside;
pub mod output;
pub mod path;
pub mod plugin_host;
pub mod plugin_registry;
pub mod prepared;
pub mod process;
pub mod profile;
pub mod progress;
pub mod project;
pub mod protocol;
pub mod provider;
pub mod prune;
pub mod rollback;
pub mod rpc;
pub mod secrets;
pub mod sequence;
pub mod server;
pub mod settings;
pub mod text;
pub mod up;
pub mod validation;
pub mod validity;
pub mod value;
pub mod version;
pub mod view;
pub mod wire;
pub mod workspace;

verus! {

} // verus!
