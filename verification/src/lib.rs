//! A deduplicated, content-addressed image store with a relational catalog
//! and a lifecycle-managed embedded HTTP listener.
//!
//! The library holds the verified core: path and name handling, the catalog
//! with its uniqueness invariants, the ingestion pipeline with its
//! compensating cleanup, the rename transaction, and the server lifecycle
//! state machine. Disk, database and network access live with the caller,
//! which drives these functions and mirrors their decisions onto the
//! real filesystem, database and sockets.

pub mod catalog;
pub mod commands;
pub mod config;
pub mod errors;
pub mod image;
pub mod paths;
pub mod record;
pub mod rename;
pub mod server;
pub mod store;
pub mod text;
pub mod upload;
