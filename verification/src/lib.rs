//! Request handling for a notes service backed by a relational table.
//!
//! The crate decides, for each of the three operations on notes (list, create
//! or replace, soft-delete), which statements are sent to storage, in which
//! order, inside which transaction, and how every outcome is reported to the
//! caller. Connections, sockets and channels stay outside: the decisions are
//! plain functions from state and event to next state and action.

//!
//! `ident`, `timestamp`, `note`, `row` and `status` hold the values that
//! cross the boundary and their conversions; `statement`, `operation` and
//! `service` turn a request into a unit of work; `transaction` and `stream`
//! carry it out, step by step, for a driver that does the I/O. `store` and
//! `session` run the same service against a table in memory, and `laws`
//! proves of it what callers may rely on.

pub mod ident;
pub mod laws;
pub mod note;
pub mod operation;
pub mod row;
pub mod service;
pub mod session;
pub mod statement;
pub mod status;
pub mod store;
pub mod stream;
pub mod timestamp;
pub mod transaction;
