//! Roles, subscription tiers and user records.

use crate::text::{concat3, is_trim_of, lowercase_of, str_eq, text_of, to_lowercase, trim};
use vstd::prelude::*;

verus! {

/// User roles, ordered by the access they grant.
#[derive(Debug, Clone, Copy, PartialEq, Eq, Structural)]
pub enum UserRole {
    Guest,
    Pending,
    Registered,
    Trader,
    Admin,
}

impl UserRole {
    /// The permission level of a role: higher means more access.
    pub open spec fn spec_level(self) -> nat {
        match self {
            UserRole::Guest => 0,
            UserRole::Pending => 1,
            UserRole::Registered => 2,
            UserRole::Trader => 3,
            UserRole::Admin => 4,
        }
    }

    /// The lower-case name under which a role is stored.
    pub open spec fn spec_name(self) -> Seq<char> {
        match self {
            UserRole::Guest => "guest"@,
            UserRole::Pending => "pending"@,
            UserRole::Registered => "registered"@,
            UserRole::Trader => "trader"@,
            UserRole::Admin => "admin"@,
        }
    }

    /// The name under which the role is stored.
    pub fn as_str(&self) -> (s: &'static str)
        ensures
            s@ == self.spec_name(),
    {
        match self {
            UserRole::Guest => "guest",
            UserRole::Pending => "pending",
            UserRole::Registered => "registered",
            UserRole::Trader => "trader",
            UserRole::Admin => "admin",
        }
    }

    /// Permission level (higher = more access).
    pub fn level(&self) -> (l: u8)
        ensures
            l as nat == self.spec_level(),
    {
        match self {
            UserRole::Guest => 0,
            UserRole::Pending => 1,
            UserRole::Registered => 2,
            UserRole::Trader => 3,
            UserRole::Admin => 4,
        }
    }

    /// The role that a stored, lower-case name stands for. Unknown names
    /// fall back to `Guest`.
    pub open spec fn named(s: Seq<char>) -> UserRole {
        if s == "guest"@ {
            UserRole::Guest
        } else if s == "pending"@ {
            UserRole::Pending
        } else if s == "registered"@ {
            UserRole::Registered
        } else if s == "trader"@ {
            UserRole::Trader
        } else if s == "admin"@ {
            UserRole::Admin
        } else {
            UserRole::Guest
        }
    }

    /// Reads a role from a name that is already in lower case.
    pub fn from_lowercase(s: &str) -> (role: UserRole)
        ensures
            role == UserRole::named(s@),
    {
        if str_eq(s, "guest") {
            UserRole::Guest
        } else if str_eq(s, "pending") {
            UserRole::Pending
        } else if str_eq(s, "registered") {
            UserRole::Registered
        } else if str_eq(s, "trader") {
            UserRole::Trader
        } else if str_eq(s, "admin") {
            UserRole::Admin
        } else {
            UserRole::Guest
        }
    }

    /// Reads a role from its name, ignoring case.
    pub fn from_str(s: &str) -> (role: UserRole)
        ensures
            role == UserRole::named(lowercase_of(s@)),
    {
        let lower = to_lowercase(s);
        UserRole::from_lowercase(lower.as_str())
    }

    /// Whether this role grants at least what `required` grants.
    pub fn has_permission(&self, required: &UserRole) -> (ok: bool)
        ensures
            ok == (self.spec_level() >= required.spec_level()),
    {
        self.level() >= required.level()
    }
}

/// Subscription tiers, matching the pricing plans.
#[derive(Debug, Clone, Copy, PartialEq, Eq, Structural)]
pub enum SubscriptionTier {
    Free,
    Hobbyist,
    Pioneer,
    Professional,
}

impl SubscriptionTier {
    /// The lower-case name under which a tier is stored.
    pub open spec fn spec_name(self) -> Seq<char> {
        match self {
            SubscriptionTier::Free => "free"@,
            SubscriptionTier::Hobbyist => "hobbyist"@,
            SubscriptionTier::Pioneer => "pioneer"@,
            SubscriptionTier::Professional => "professional"@,
        }
    }

    /// The tier that a stored, lower-case name stands for. Unknown names
    /// fall back to `Free`.
    pub open spec fn named(s: Seq<char>) -> SubscriptionTier {
        if s == "hobbyist"@ {
            SubscriptionTier::Hobbyist
        } else if s == "pioneer"@ {
            SubscriptionTier::Pioneer
        } else if s == "professional"@ {
            SubscriptionTier::Professional
        } else {
            SubscriptionTier::Free
        }
    }

    /// The role a user of this tier receives on approval.
    pub open spec fn spec_default_role(self) -> UserRole {
        match self {
            SubscriptionTier::Free => UserRole::Registered,
            _ => UserRole::Trader,
        }
    }

    /// The monthly price in euro cents.
    pub open spec fn spec_monthly_price_cents(self) -> nat {
        match self {
            SubscriptionTier::Free => 0,
            SubscriptionTier::Hobbyist => 900,
            SubscriptionTier::Pioneer => 2900,
            SubscriptionTier::Professional => 4900,
        }
    }

    /// The name under which the tier is stored.
    pub fn as_str(&self) -> (s: &'static str)
        ensures
            s@ == self.spec_name(),
    {
        match self {
            SubscriptionTier::Free => "free",
            SubscriptionTier::Hobbyist => "hobbyist",
            SubscriptionTier::Pioneer => "pioneer",
            SubscriptionTier::Professional => "professional",
        }
    }

    /// Reads a tier from a name that is already in lower case.
    pub fn from_lowercase(s: &str) -> (tier: SubscriptionTier)
        ensures
            tier == SubscriptionTier::named(s@),
    {
        if str_eq(s, "hobbyist") {
            SubscriptionTier::Hobbyist
        } else if str_eq(s, "pioneer") {
            SubscriptionTier::Pioneer
        } else if str_eq(s, "professional") {
            SubscriptionTier::Professional
        } else {
            SubscriptionTier::Free
        }
    }

    /// Reads a tier from its name, ignoring case.
    pub fn from_str(s: &str) -> (tier: SubscriptionTier)
        ensures
            tier == SubscriptionTier::named(lowercase_of(s@)),
    {
        let lower = to_lowercase(s);
        SubscriptionTier::from_lowercase(lower.as_str())
    }

    /// Maps a tier to the role granted after an administrator's approval.
    pub fn default_role(&self) -> (role: UserRole)
        ensures
            role == self.spec_default_role(),
    {
        match self {
            SubscriptionTier::Free => UserRole::Registered,
            SubscriptionTier::Hobbyist => UserRole::Trader,
            SubscriptionTier::Pioneer => UserRole::Trader,
            SubscriptionTier::Professional => UserRole::Trader,
        }
    }

    /// Monthly price in euro cents, for billing.
    pub fn monthly_price_cents(&self) -> (cents: u32)
        ensures
            cents as nat == self.spec_monthly_price_cents(),
    {
        match self {
            SubscriptionTier::Free => 0,
            SubscriptionTier::Hobbyist => 900,
            SubscriptionTier::Pioneer => 2900,
            SubscriptionTier::Professional => 4900,
        }
    }
}

/// A user as stored in the `users` table.
#[derive(Debug, Clone)]
pub struct UserRecord {
    pub user_id: String,
    pub username: String,
    pub email: String,
    pub role: UserRole,
    pub subscription_tier: Option<SubscriptionTier>,
    pub first_name: String,
    pub last_name: String,
    pub is_active: bool,
    pub created_at: String,
    pub last_login: Option<String>,
}

/// The mathematical content of a [`UserRecord`].
pub struct UserRecordView {
    pub user_id: Seq<char>,
    pub username: Seq<char>,
    pub email: Seq<char>,
    pub role: UserRole,
    pub subscription_tier: Option<SubscriptionTier>,
    pub first_name: Seq<char>,
    pub last_name: Seq<char>,
    pub is_active: bool,
    pub created_at: Seq<char>,
    pub last_login: Option<Seq<char>>,
}

impl View for UserRecord {
    type V = UserRecordView;

    open spec fn view(&self) -> UserRecordView {
        UserRecordView {
            user_id: self.user_id@,
            username: self.username@,
            email: self.email@,
            role: self.role,
            subscription_tier: self.subscription_tier,
            first_name: self.first_name@,
            last_name: self.last_name@,
            is_active: self.is_active,
            created_at: self.created_at@,
            last_login: text_of(self.last_login),
        }
    }
}

/// The mathematical content of [`JwtClaims`].
pub struct ClaimsView {
    pub sub: Seq<char>,
    pub username: Seq<char>,
    pub role: Seq<char>,
    pub exp: nat,
    pub iat: nat,
}

impl View for JwtClaims {
    type V = ClaimsView;

    open spec fn view(&self) -> ClaimsView {
        ClaimsView {
            sub: self.sub@,
            username: self.username@,
            role: self.role@,
            exp: self.exp as nat,
            iat: self.iat as nat,
        }
    }
}

impl UserRecord {
    /// The name shown for a user: first and last name joined by a space
    /// and trimmed, or the username when both are empty.
    pub open spec fn is_display_name(&self, name: Seq<char>) -> bool {
        if self.first_name@.len() > 0 || self.last_name@.len() > 0 {
            is_trim_of(self.first_name@ + " "@ + self.last_name@, name)
        } else {
            name == self.username@
        }
    }

    /// Full display name.
    pub fn display_name(&self) -> (name: String)
        ensures
            self.is_display_name(name@),
    {
        if !self.first_name.as_str().is_empty() || !self.last_name.as_str().is_empty() {
            let full = concat3(self.first_name.as_str(), " ", self.last_name.as_str());
            trim(full.as_str())
        } else {
            self.username.clone()
        }
    }

    /// Whether the user's role grants at least what `required` grants.
    pub fn has_role(&self, required: &UserRole) -> (ok: bool)
        ensures
            ok == (self.role.spec_level() >= required.spec_level()),
    {
        self.role.has_permission(required)
    }
}

/// The claims carried by a session token.
#[derive(Debug, Clone)]
pub struct JwtClaims {
    /// Subject: the user id.
    pub sub: String,
    pub username: String,
    /// The role's stored name.
    pub role: String,
    /// Expiry, in seconds since the Unix epoch.
    pub exp: usize,
    /// Time of issue, in seconds since the Unix epoch.
    pub iat: usize,
}

/// Permission is reflexive and transitive, and any two roles compare.
pub proof fn lemma_permission_is_total_preorder(a: UserRole, b: UserRole, c: UserRole)
    ensures
        a.spec_level() >= a.spec_level(),
        a.spec_level() >= b.spec_level() && b.spec_level() >= c.spec_level() ==> a.spec_level()
            >= c.spec_level(),
        a.spec_level() >= b.spec_level() || b.spec_level() >= a.spec_level(),
        a.spec_level() == b.spec_level() ==> a == b,
        UserRole::Admin.spec_level() >= a.spec_level(),
        a.spec_level() >= UserRole::Guest.spec_level(),
{
}

/// A role is read back from the name it is stored under.
pub proof fn lemma_role_name_round_trip(role: UserRole)
    ensures
        UserRole::named(role.spec_name()) == role,
{
    reveal_strlit("guest");
    reveal_strlit("pending");
    reveal_strlit("registered");
    reveal_strlit("trader");
    reveal_strlit("admin");
    assert("guest"@.len() == 5 && "pending"@.len() == 7 && "registered"@.len() == 10);
    assert("trader"@.len() == 6 && "admin"@.len() == 5);
    assert("guest"@[0] == 'g' && "admin"@[0] == 'a');
}

/// A tier is read back from the name it is stored under.
pub proof fn lemma_tier_name_round_trip(tier: SubscriptionTier)
    ensures
        SubscriptionTier::named(tier.spec_name()) == tier,
{
    reveal_strlit("free");
    reveal_strlit("hobbyist");
    reveal_strlit("pioneer");
    reveal_strlit("professional");
    assert("free"@.len() == 4 && "hobbyist"@.len() == 8);
    assert("pioneer"@.len() == 7 && "professional"@.len() == 12);
}

} // verus!
