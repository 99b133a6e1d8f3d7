//! Authentication domain: roles, tiers, user records, and the rules of the
//! actor that owns the users and sessions tables.

pub mod actor;
pub mod crypto;
pub mod types;

pub use actor::AuthActor;
pub use types::{JwtClaims, SubscriptionTier, UserRecord, UserRole};
