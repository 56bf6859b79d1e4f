//! A per-user store of body-mass measurements.
//!
//! The crate holds the decisions of the service, with their proofs: how masses
//! and instants cross between the application tier and the storage tier, which
//! statement each operation sends to the row store, what that statement does to
//! the rows, and what the service answers to the reply. It performs no I/O: a
//! driver sends the statements and hands the replies back.
pub mod decimal;
pub mod guarantees;
pub mod import;
pub mod instant;
pub mod masses;
pub mod models;
pub mod storage;
pub mod table;
