//! Bootstrap layer of a networked service.
//!
//! The crate holds the decisions of the bootstrap: how layered configuration is
//! merged into one immutable snapshot, how a bounded pool of database
//! connections hands its connections out and takes them back, which routes the
//! service answers, and in which order the service starts and stops. Opening
//! sockets, reading files and waiting are left to the caller, which feeds the
//! outcomes back in as plain values.

pub mod config;
pub mod pool;
pub mod pool_laws;
pub mod pool_state;
pub mod routes;
pub mod service;
