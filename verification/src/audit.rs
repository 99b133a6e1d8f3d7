//! Audit and billing domain: the action taxonomy, the audit log's records,
//! and the rules of the actor that owns the audit log.

pub mod actor;
pub mod types;

pub use types::{ActionType, AuditEntry, BillingSummary};
