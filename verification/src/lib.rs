//! Request-servicing core of a local authentication daemon.
//!
//! Applications ask for access to a user's storage-network account; the daemon
//! keeps those asks pending until the user decides, and lets external parties
//! subscribe to be notified of new asks.  The heart of the crate is a pair of
//! in-memory registries (pending authorisation requests; notification
//! subscriber endpoints) guarded by a verified lock, together with the request
//! handlers that read and mutate them, plus small helpers used by the
//! command-line front end.

pub mod errors;
pub mod digits;
pub mod params;
pub mod types;
pub mod registry;
pub mod pending;
pub mod subscribers;
pub mod auth_reqs;
pub mod unsubscribe;
pub mod helpers;
pub mod table;
