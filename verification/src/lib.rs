//! Core of a desktop management shell: an OAuth-backed calendar
//! synchronization subsystem together with the small resource managers
//! that surround it.
//!
//! The heart of the crate is the calendar sync engine (`engine`), which
//! fetches events with a stored access token and recovers from credential
//! expiry with exactly one refresh per sync call, the credential store
//! (`store`) that persists token material, the loopback authorization
//! flow helpers (`authflow`), and the file-based notification bridge
//! (`bridge`) that hands fresh sync results to a long-running watcher.

pub mod store;
pub mod strutil;
pub mod asset;
pub mod authflow;
pub mod base;
pub mod bridge;
pub mod calendar;
pub mod codec;
pub mod engine;
pub mod errors;
pub mod file;
pub mod iot;
pub mod network;
pub mod schedule;
pub mod scheduler;
pub mod settings;
pub mod token;
pub mod urlenc;
