//! # Polarway Lakehouse
//!
//! A transactional lakehouse storage layer, verified with Verus: the table
//! log with its compare-and-swap commit, the planning of the store's
//! operations on top of it, and the rules of the actors and of the
//! maintenance scheduler that use the store.
//!
//! The library decides and never performs: it holds no file, runs no
//! query and starts no task. A caller reads the log's objects and hands
//! them in, writes the data files that an operation needs and hands their
//! metadata in, and publishes each commit with a create-if-absent of the
//! next version's object.
//!
//! ```text
//! ┌─────────────────┬──────────────────┬──────────────────┐
//! │   auth::actor   │   audit::actor   │   maintenance    │
//! │ (users,         │ (events,         │ (cleanup,        │
//! │  sessions)      │  billing)        │  compaction, …)  │
//! ├─────────────────┴──────────────────┴──────────────────┤
//! │                        store                          │
//! │  append · delete · compact · cluster · vacuum · read  │
//! ├───────────────────────────────────────────────────────┤
//! │                         log                           │
//! │  entries · replay · commit · time travel · layout     │
//! └───────────────────────────────────────────────────────┘
//! ```
//!
//! What the modules state and prove:
//!
//! - [`log`]: versions are contiguous from 0 and timestamps increase; the
//!   file-set replayed from the log is everything added without
//!   everything removed; a later commit never changes an earlier version;
//!   of two writers on one base exactly one wins.
//! - [`log::rows`]: an append adds its rows, a rewrite keeps them, and a
//!   delete takes away the matching rows and no others.
//! - [`log::vacuum`]: vacuum deletes no file that a version within the
//!   retention period can read, and every orphan.
//! - [`store`]: each operation commits exactly one entry on the head of
//!   its table and leaves the other tables alone.
//! - [`auth`], [`audit`], [`maintenance`]: what each request decides,
//!   given what the store returned.

pub mod audit;
pub mod auth;
pub mod clock;
pub mod config;
pub mod error;
pub mod json;
pub mod log;
pub mod maintenance;
pub mod schema;
pub mod storage;
pub mod store;
pub mod text;

pub use config::LakehouseConfig;
pub use error::{ErrorKind, LakehouseError, SubstrateFailure};
pub use maintenance::MaintenanceScheduler;
pub use store::DeltaStore;
