//! The table log: an append-only, totally ordered sequence of commit
//! entries that defines the live file-set of one table.

pub mod entry;
pub mod layout;
pub mod replay;
pub mod retry;
pub mod rows;
pub mod table;
pub mod vacuum;

pub use entry::{ColumnStats, CommitEntry, DataFile, Operation, Parameter, PartitionValue};
pub use table::{Checkpoint, TableLog};
