//! The error type shared by every operation of the lakehouse.

use crate::text::{concat2, concat3, i64_to_decimal, signed_decimal};
use vstd::prelude::*;

verus! {

/// The closed set of error kinds that callers can tell apart.
#[derive(Debug, Clone, Copy, PartialEq, Eq, Structural)]
pub enum ErrorKind {
    NotFound,
    AlreadyExists,
    SchemaMismatch,
    VersionNotFound,
    CommitConflict,
    InvalidPredicate,
    SubstrateRetryable,
    SubstrateTerminal,
    AuthInvalidCredentials,
    AuthWeakPassword,
    AuthDisabled,
    AuthTokenInvalid,
    Internal,
}

/// Whether an operation reads or writes a table; the two differ in what
/// they may retry.
#[derive(Debug, Clone, Copy, PartialEq, Eq, Structural)]
pub enum OperationClass {
    Read,
    Write,
}

impl ErrorKind {
    /// Whether an operation of the given class may be tried again after
    /// this kind of error: a write after a lost commit race or a transient
    /// storage failure, a read after a transient storage failure only.
    pub open spec fn spec_is_retryable(self, class: OperationClass) -> bool {
        self is SubstrateRetryable || (class is Write && self is CommitConflict)
    }

    /// Whether an operation of the given class may be tried again after
    /// an error of this kind.
    pub fn is_retryable(&self, class: OperationClass) -> (retry: bool)
        ensures
            retry == self.spec_is_retryable(class),
    {
        match self {
            ErrorKind::SubstrateRetryable => true,
            ErrorKind::CommitConflict => match class {
                OperationClass::Write => true,
                OperationClass::Read => false,
            },
            _ => false,
        }
    }
}

/// Why a call of the object substrate failed.
#[derive(Debug, Clone, Copy, PartialEq, Eq, Structural)]
pub enum SubstrateFailure {
    /// The call did not return within its timeout.
    Timeout,
    /// The call was interrupted, or the connection was lost or refused.
    Transport,
    /// The caller may not read or write the object.
    Permission,
    /// No space or quota is left.
    Quota,
    /// Any other failure.
    Other,
}

impl SubstrateFailure {
    /// Whether a failure is transient: a timeout or a failure of the
    /// transport. Every other failure is terminal.
    pub open spec fn spec_is_transient(self) -> bool {
        self is Timeout || self is Transport
    }

    /// Whether the call may succeed when it is tried again.
    pub fn is_transient(&self) -> (transient: bool)
        ensures
            transient == self.spec_is_transient(),
    {
        match self {
            SubstrateFailure::Timeout | SubstrateFailure::Transport => true,
            _ => false,
        }
    }

    /// The error that reports a failure of the substrate: retryable where
    /// the failure is transient, terminal otherwise, with the given
    /// message.
    pub fn into_error(self, message: String) -> (error: LakehouseError)
        ensures
            if self.spec_is_transient() {
                error matches LakehouseError::SubstrateRetryable(m) && m@ == message@
            } else {
                error matches LakehouseError::SubstrateTerminal(m) && m@ == message@
            },
            error.spec_kind().spec_is_retryable(OperationClass::Read) == self.spec_is_transient(),
            error.spec_kind().spec_is_retryable(OperationClass::Write) == self.spec_is_transient(),
    {
        if self.is_transient() {
            LakehouseError::SubstrateRetryable(message)
        } else {
            LakehouseError::SubstrateTerminal(message)
        }
    }
}

/// Unified error type for all lakehouse operations.
#[derive(Debug, Clone)]
pub enum LakehouseError {
    // Storage errors
    DeltaTable(String),
    TableNotFound(String),
    TableAlreadyExists(String),
    SchemaMismatch { expected: String, actual: String },
    VersionNotFound { table: String, version: i64 },
    CommitConflict { table: String, version: i64 },
    InvalidPredicate(String),
    SubstrateRetryable(String),
    SubstrateTerminal(String),
    // Authentication errors
    AuthenticationFailed(String),
    UserNotFound(String),
    UserAlreadyExists(String),
    InvalidCredentials,
    AccountDisabled(String),
    TokenExpired,
    TokenInvalid(String),
    PasswordTooWeak(String),
    InsufficientPermissions { required: String, actual: String },
    // Audit errors
    AuditWriteFailed(String),
    // Infrastructure errors
    Io(String),
    Serialization(String),
    Arrow(String),
    DataFusion(String),
    Config(String),
    ActorUnavailable(String),
    Internal(String),
}

impl LakehouseError {
    /// The kind of an error.
    pub open spec fn spec_kind(self) -> ErrorKind {
        match self {
            LakehouseError::DeltaTable(_) => ErrorKind::Internal,
            LakehouseError::TableNotFound(_) => ErrorKind::NotFound,
            LakehouseError::TableAlreadyExists(_) => ErrorKind::AlreadyExists,
            LakehouseError::InvalidPredicate(_) => ErrorKind::InvalidPredicate,
            LakehouseError::SubstrateRetryable(_) => ErrorKind::SubstrateRetryable,
            LakehouseError::SubstrateTerminal(_) => ErrorKind::SubstrateTerminal,
            LakehouseError::AuthenticationFailed(_) => ErrorKind::AuthInvalidCredentials,
            LakehouseError::UserNotFound(_) => ErrorKind::NotFound,
            LakehouseError::UserAlreadyExists(_) => ErrorKind::AlreadyExists,
            LakehouseError::AccountDisabled(_) => ErrorKind::AuthDisabled,
            LakehouseError::TokenInvalid(_) => ErrorKind::AuthTokenInvalid,
            LakehouseError::PasswordTooWeak(_) => ErrorKind::AuthWeakPassword,
            LakehouseError::AuditWriteFailed(_) => ErrorKind::Internal,
            LakehouseError::Io(_) => ErrorKind::SubstrateTerminal,
            LakehouseError::Serialization(_) => ErrorKind::Internal,
            LakehouseError::Arrow(_) => ErrorKind::Internal,
            LakehouseError::DataFusion(_) => ErrorKind::Internal,
            LakehouseError::Config(_) => ErrorKind::Internal,
            LakehouseError::ActorUnavailable(_) => ErrorKind::Internal,
            LakehouseError::Internal(_) => ErrorKind::Internal,
            LakehouseError::SchemaMismatch { .. } => ErrorKind::SchemaMismatch,
            LakehouseError::VersionNotFound { .. } => ErrorKind::VersionNotFound,
            LakehouseError::CommitConflict { .. } => ErrorKind::CommitConflict,
            LakehouseError::InvalidCredentials => ErrorKind::AuthInvalidCredentials,
            LakehouseError::TokenExpired => ErrorKind::AuthTokenInvalid,
            LakehouseError::InsufficientPermissions { .. } => ErrorKind::AuthInvalidCredentials,
        }
    }

    /// The text shown for an error.
    pub open spec fn spec_message(self) -> Seq<char> {
        match self {
            LakehouseError::DeltaTable(s) => "Delta table error: "@ + s@,
            LakehouseError::TableNotFound(s) => "Table not found: "@ + s@,
            LakehouseError::TableAlreadyExists(s) => "Table already exists: "@ + s@,
            LakehouseError::InvalidPredicate(s) => "Invalid predicate: "@ + s@,
            LakehouseError::SubstrateRetryable(s) => "Storage error (retryable): "@ + s@,
            LakehouseError::SubstrateTerminal(s) => "Storage error: "@ + s@,
            LakehouseError::AuthenticationFailed(s) => "Authentication failed: "@ + s@,
            LakehouseError::UserNotFound(s) => "User not found: "@ + s@,
            LakehouseError::UserAlreadyExists(s) => "User already exists: "@ + s@,
            LakehouseError::AccountDisabled(s) => "Account disabled: "@ + s@,
            LakehouseError::TokenInvalid(s) => "Token invalid: "@ + s@,
            LakehouseError::PasswordTooWeak(s) => "Password too weak: "@ + s@,
            LakehouseError::AuditWriteFailed(s) => "Audit write failed: "@ + s@,
            LakehouseError::Io(s) => "IO error: "@ + s@,
            LakehouseError::Serialization(s) => "Serialization error: "@ + s@,
            LakehouseError::Arrow(s) => "Arrow error: "@ + s@,
            LakehouseError::DataFusion(s) => "DataFusion error: "@ + s@,
            LakehouseError::Config(s) => "Configuration error: "@ + s@,
            LakehouseError::ActorUnavailable(s) => "Actor unavailable: "@ + s@,
            LakehouseError::Internal(s) => "Internal error: "@ + s@,
            LakehouseError::SchemaMismatch { expected, actual } => "Schema mismatch: expected "@
                + expected@ + ", got "@ + actual@,
            LakehouseError::VersionNotFound { table, version } => "Version not found: table="@
                + table@ + ", version="@ + signed_decimal(version as int),
            LakehouseError::CommitConflict { table, version } => "Commit conflict: table="@
                + table@ + ", version="@ + signed_decimal(version as int),
            LakehouseError::InvalidCredentials => "Invalid credentials"@,
            LakehouseError::TokenExpired => "Token expired"@,
            LakehouseError::InsufficientPermissions { required, actual } =>
                "Insufficient permissions: required="@ + required@ + ", have="@ + actual@,
        }
    }

    /// The kind of this error.
    pub fn kind(&self) -> (kind: ErrorKind)
        ensures
            kind == self.spec_kind(),
    {
        match self {
            LakehouseError::DeltaTable(_) => ErrorKind::Internal,
            LakehouseError::TableNotFound(_) => ErrorKind::NotFound,
            LakehouseError::TableAlreadyExists(_) => ErrorKind::AlreadyExists,
            LakehouseError::InvalidPredicate(_) => ErrorKind::InvalidPredicate,
            LakehouseError::SubstrateRetryable(_) => ErrorKind::SubstrateRetryable,
            LakehouseError::SubstrateTerminal(_) => ErrorKind::SubstrateTerminal,
            LakehouseError::AuthenticationFailed(_) => ErrorKind::AuthInvalidCredentials,
            LakehouseError::UserNotFound(_) => ErrorKind::NotFound,
            LakehouseError::UserAlreadyExists(_) => ErrorKind::AlreadyExists,
            LakehouseError::AccountDisabled(_) => ErrorKind::AuthDisabled,
            LakehouseError::TokenInvalid(_) => ErrorKind::AuthTokenInvalid,
            LakehouseError::PasswordTooWeak(_) => ErrorKind::AuthWeakPassword,
            LakehouseError::AuditWriteFailed(_) => ErrorKind::Internal,
            LakehouseError::Io(_) => ErrorKind::SubstrateTerminal,
            LakehouseError::Serialization(_) => ErrorKind::Internal,
            LakehouseError::Arrow(_) => ErrorKind::Internal,
            LakehouseError::DataFusion(_) => ErrorKind::Internal,
            LakehouseError::Config(_) => ErrorKind::Internal,
            LakehouseError::ActorUnavailable(_) => ErrorKind::Internal,
            LakehouseError::Internal(_) => ErrorKind::Internal,
            LakehouseError::SchemaMismatch { .. } => ErrorKind::SchemaMismatch,
            LakehouseError::VersionNotFound { .. } => ErrorKind::VersionNotFound,
            LakehouseError::CommitConflict { .. } => ErrorKind::CommitConflict,
            LakehouseError::InvalidCredentials => ErrorKind::AuthInvalidCredentials,
            LakehouseError::TokenExpired => ErrorKind::AuthTokenInvalid,
            LakehouseError::InsufficientPermissions { .. } => ErrorKind::AuthInvalidCredentials,
        }
    }

    /// The text shown for this error.
    pub fn message(&self) -> (text: String)
        ensures
            text@ == self.spec_message(),
    {
        match self {
            LakehouseError::DeltaTable(s) => concat2("Delta table error: ", s.as_str()),
            LakehouseError::TableNotFound(s) => concat2("Table not found: ", s.as_str()),
            LakehouseError::TableAlreadyExists(s) => concat2("Table already exists: ", s.as_str()),
            LakehouseError::InvalidPredicate(s) => concat2("Invalid predicate: ", s.as_str()),
            LakehouseError::SubstrateRetryable(s) => concat2("Storage error (retryable): ", s.as_str()),
            LakehouseError::SubstrateTerminal(s) => concat2("Storage error: ", s.as_str()),
            LakehouseError::AuthenticationFailed(s) => concat2("Authentication failed: ", s.as_str()),
            LakehouseError::UserNotFound(s) => concat2("User not found: ", s.as_str()),
            LakehouseError::UserAlreadyExists(s) => concat2("User already exists: ", s.as_str()),
            LakehouseError::AccountDisabled(s) => concat2("Account disabled: ", s.as_str()),
            LakehouseError::TokenInvalid(s) => concat2("Token invalid: ", s.as_str()),
            LakehouseError::PasswordTooWeak(s) => concat2("Password too weak: ", s.as_str()),
            LakehouseError::AuditWriteFailed(s) => concat2("Audit write failed: ", s.as_str()),
            LakehouseError::Io(s) => concat2("IO error: ", s.as_str()),
            LakehouseError::Serialization(s) => concat2("Serialization error: ", s.as_str()),
            LakehouseError::Arrow(s) => concat2("Arrow error: ", s.as_str()),
            LakehouseError::DataFusion(s) => concat2("DataFusion error: ", s.as_str()),
            LakehouseError::Config(s) => concat2("Configuration error: ", s.as_str()),
            LakehouseError::ActorUnavailable(s) => concat2("Actor unavailable: ", s.as_str()),
            LakehouseError::Internal(s) => concat2("Internal error: ", s.as_str()),
            LakehouseError::SchemaMismatch { expected, actual } => {
                let mut text = concat3("Schema mismatch: expected ", expected.as_str(), ", got ");
                text.append(actual.as_str());
                text
            },
            LakehouseError::VersionNotFound { table, version } => {
                let mut text = concat3("Version not found: table=", table.as_str(), ", version=");
                text.append(i64_to_decimal(*version).as_str());
                text
            },
            LakehouseError::CommitConflict { table, version } => {
                let mut text = concat3("Commit conflict: table=", table.as_str(), ", version=");
                text.append(i64_to_decimal(*version).as_str());
                text
            },
            LakehouseError::InvalidCredentials => String::from_str("Invalid credentials"),
            LakehouseError::TokenExpired => String::from_str("Token expired"),
            LakehouseError::InsufficientPermissions { required, actual } => {
                let mut text = concat3(
                    "Insufficient permissions: required=",
                    required.as_str(),
                    ", have=",
                );
                text.append(actual.as_str());
                text
            },
        }
    }
}

} // verus!
