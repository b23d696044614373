//! An expiring registry of named records.
//!
//! Records are registered under an integer key together with a lifetime in
//! seconds. A record is visible to readers while its lifetime has not elapsed;
//! a periodic sweep reclaims the slots of records whose lifetime is over. A
//! key stays taken until the sweep has reclaimed it.
//!
//! The registry never reads a clock: every operation takes the moment at which
//! it is served, as a [`time::Timestamp`] of a monotonic clock. Nor does it
//! lock: an operation that changes the registry takes it by exclusive
//! reference, and whoever shares a registry among several callers serialises
//! them.
//!
//! - [`models`], [`errors`], [`time`]: the values that go in and come out.
//! - [`expiry`]: when a stored record is live, and how long it has left.
//! - [`registry`]: the registry as a mathematical mapping, and what each
//!   operation makes of it.
//! - [`state`]: the registry itself.
//! - [`handlers`], [`tasks`]: the requests and the reclamation tick.
//! - [`laws`]: what holds across operations.
//! - [`config`], [`text`]: the server's configuration; decimal text.

pub mod config;
pub mod errors;
pub mod expiry;
pub mod handlers;
pub mod laws;
pub mod models;
pub mod registry;
pub mod state;
pub mod tasks;
pub mod text;
pub mod time;
