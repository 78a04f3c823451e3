//! A driver for the local API of a desktop companion application: it finds the running
//! process, reads the per-session handshake file, derives the session's URLs and credentials,
//! and decides when a restarted application needs a new session.
use vstd::prelude::*;

pub mod connection;
pub mod endpoints;
pub mod errors;
pub mod models;
pub mod supervisor;
pub mod text;

verus! {

/// The driver before it has a live session.
#[derive(Debug)]
pub struct Uninitialized {}

/// The driver with a live session.
#[derive(Debug)]
pub struct Initialized {}

} // verus!
