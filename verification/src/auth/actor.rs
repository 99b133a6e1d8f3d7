//! The rules of the authentication actor: what each request decides, given
//! what the store returned and what the outside crates computed.
//!
//! The actor's loop, its mailbox and the signing of tokens live with the
//! caller. Each handler here takes the rows that the caller's queries
//! returned and says what to reply and what to write.

use crate::auth::crypto::{
    argon2_check, argon2_check_of, argon2_hash, argon2_hash_of, generate_salt, new_uuid,
    sha256_hex, sha256_hex_of,
};
use crate::auth::types::{
    ClaimsView, JwtClaims, SubscriptionTier, UserRecord, UserRecordView, UserRole,
};
use crate::clock::{rfc3339_of, Instant};
use crate::config::LakehouseConfig;
use crate::error::LakehouseError;
use crate::store::DeleteMetrics;
use crate::text::{
    byte_len, concat3, contains_char, copy_text, lowercase_of, text_of,
};
use vstd::prelude::*;

verus! {

/// The predicate that selects the users awaiting approval.
pub const PENDING_USERS: &'static str = "role = 'pending'";

/// The predicate that selects the active users.
pub const ACTIVE_USERS: &'static str = "is_active = true";

/// The lifetime in days of a session with "remember me".
pub const REMEMBER_ME_DAYS: i64 = 30;

/// One row of the `users` table.
#[derive(Debug, Clone)]
pub struct UserRow {
    pub user_id: String,
    pub username: String,
    pub email: String,
    pub password_hash: String,
    pub role: String,
    pub subscription_tier: Option<String>,
    pub first_name: Option<String>,
    pub last_name: Option<String>,
    pub is_active: bool,
    pub created_at: String,
    pub last_login: Option<String>,
    pub preferences_json: Option<String>,
}

/// The mathematical content of a [`UserRow`].
pub struct UserRowView {
    pub user_id: Seq<char>,
    pub username: Seq<char>,
    pub email: Seq<char>,
    pub password_hash: Seq<char>,
    pub role: Seq<char>,
    pub subscription_tier: Option<Seq<char>>,
    pub first_name: Option<Seq<char>>,
    pub last_name: Option<Seq<char>>,
    pub is_active: bool,
    pub created_at: Seq<char>,
    pub last_login: Option<Seq<char>>,
    pub preferences_json: Option<Seq<char>>,
}

impl View for UserRow {
    type V = UserRowView;

    open spec fn view(&self) -> UserRowView {
        UserRowView {
            user_id: self.user_id@,
            username: self.username@,
            email: self.email@,
            password_hash: self.password_hash@,
            role: self.role@,
            subscription_tier: text_of(self.subscription_tier),
            first_name: text_of(self.first_name),
            last_name: text_of(self.last_name),
            is_active: self.is_active,
            created_at: self.created_at@,
            last_login: text_of(self.last_login),
            preferences_json: text_of(self.preferences_json),
        }
    }
}

/// One row of the `sessions` table.
#[derive(Debug, Clone)]
pub struct SessionRow {
    pub token_hash: String,
    pub user_id: String,
    pub username: String,
    pub role: String,
    pub created_at: String,
    pub expires_at: String,
    pub is_revoked: bool,
}

/// The mathematical content of a [`SessionRow`].
pub struct SessionRowView {
    pub token_hash: Seq<char>,
    pub user_id: Seq<char>,
    pub username: Seq<char>,
    pub role: Seq<char>,
    pub created_at: Seq<char>,
    pub expires_at: Seq<char>,
    pub is_revoked: bool,
}

impl View for SessionRow {
    type V = SessionRowView;

    open spec fn view(&self) -> SessionRowView {
        SessionRowView {
            token_hash: self.token_hash@,
            user_id: self.user_id@,
            username: self.username@,
            role: self.role@,
            created_at: self.created_at@,
            expires_at: self.expires_at@,
            is_revoked: self.is_revoked,
        }
    }
}

/// A text that may be absent, or the empty text.
pub open spec fn or_empty(s: Option<Seq<char>>) -> Seq<char> {
    match s {
        Some(text) => text,
        None => Seq::empty(),
    }
}

/// The user that a row of the `users` table describes. The role and the
/// tier are read from their stored names, ignoring case; absent names are
/// empty.
pub open spec fn record_of(row: UserRowView) -> UserRecordView {
    UserRecordView {
        user_id: row.user_id,
        username: row.username,
        email: row.email,
        role: UserRole::named(lowercase_of(row.role)),
        subscription_tier: match row.subscription_tier {
            Some(name) => Some(SubscriptionTier::named(lowercase_of(name))),
            None => None,
        },
        first_name: or_empty(row.first_name),
        last_name: or_empty(row.last_name),
        is_active: row.is_active,
        created_at: row.created_at,
        last_login: row.last_login,
    }
}

/// The row under which a user is stored. The password hash and the
/// preferences are not part of the record and are given beside it.
pub open spec fn row_of(record: UserRecordView, password_hash: Seq<char>) -> UserRowView {
    UserRowView {
        user_id: record.user_id,
        username: record.username,
        email: record.email,
        password_hash,
        role: record.role.spec_name(),
        subscription_tier: match record.subscription_tier {
            Some(tier) => Some(tier.spec_name()),
            None => None,
        },
        first_name: Some(record.first_name),
        last_name: Some(record.last_name),
        is_active: record.is_active,
        created_at: record.created_at,
        last_login: record.last_login,
        preferences_json: Some("{}"@),
    }
}

/// The predicate `column = 'value'`.
pub open spec fn equals(column: Seq<char>, value: Seq<char>) -> Seq<char> {
    column + " = '"@ + value + "'"@
}

/// Builds the predicate `column = 'value'`.
pub fn column_equals(column: &str, value: &str) -> (predicate: String)
    ensures
        predicate@ == equals(column@, value@),
{
    let mut predicate = concat3(column, " = '", value);
    predicate.append("'");
    predicate
}

/// The user of row `i` of a query's result.
pub fn extract_user_from_batch(batch: &Vec<UserRow>, i: usize) -> (result: Result<
    UserRecord,
    LakehouseError,
>)
    requires
        i < batch@.len(),
    ensures
        result matches Ok(record) && record@ == record_of(batch@[i as int]@),
{
    let row = &batch[i];
    let subscription_tier = match &row.subscription_tier {
        Some(name) => Some(SubscriptionTier::from_str(name.as_str())),
        None => None,
    };
    let first_name = match &row.first_name {
        Some(name) => name.clone(),
        None => String::new(),
    };
    let last_name = match &row.last_name {
        Some(name) => name.clone(),
        None => String::new(),
    };
    Ok(
        UserRecord {
            user_id: row.user_id.clone(),
            username: row.username.clone(),
            email: row.email.clone(),
            role: UserRole::from_str(row.role.as_str()),
            subscription_tier,
            first_name,
            last_name,
            is_active: row.is_active,
            created_at: row.created_at.clone(),
            last_login: copy_text(&row.last_login),
        },
    )
}

/// The users of all rows of a query's result, in order.
pub fn query_users(batch: &Vec<UserRow>) -> (users: Vec<UserRecord>)
    ensures
        users@.len() == batch@.len(),
        forall|i: int| 0 <= i < batch@.len() ==> (#[trigger] users@[i])@ == record_of(batch@[i]@),
{
    let mut users: Vec<UserRecord> = Vec::new();
    let mut i: usize = 0;
    while i < batch.len()
        invariant
            i <= batch.len(),
            users@.len() == i,
            forall|j: int| 0 <= j < i ==> (#[trigger] users@[j])@ == record_of(batch@[j]@),
        decreases batch.len() - i,
    {
        match extract_user_from_batch(batch, i) {
            Ok(user) => users.push(user),
            Err(_) => {},
        }
        i += 1;
    }
    users
}

/// The user of the first row of a query's result, if it has one.
pub fn handle_get_user(batch: &Vec<UserRow>) -> (user: Option<UserRecord>)
    ensures
        match user {
            Some(record) => batch@.len() > 0 && record@ == record_of(batch@[0]@),
            None => batch@.len() == 0,
        },
{
    if batch.len() == 0 {
        None
    } else {
        match extract_user_from_batch(batch, 0) {
            Ok(user) => Some(user),
            Err(_) => None,
        }
    }
}

/// What is wrong with a registration before anything is looked up.
#[derive(Debug, Clone, Copy, PartialEq, Eq, Structural)]
pub enum RegistrationFault {
    /// The username has fewer than 3 bytes.
    ShortUsername,
    /// The email address holds no `@`.
    InvalidEmail,
    /// The password has fewer than 8 bytes.
    WeakPassword,
}

/// The first fault of a registration, if it has one.
pub open spec fn registration_fault(username: Seq<char>, email: Seq<char>, password: Seq<char>) -> Option<
    RegistrationFault,
> {
    if byte_len(username) < 3 {
        Some(RegistrationFault::ShortUsername)
    } else if !email.contains('@') {
        Some(RegistrationFault::InvalidEmail)
    } else if byte_len(password) < 8 {
        Some(RegistrationFault::WeakPassword)
    } else {
        None
    }
}

/// Whether `error` reports the given fault.
pub open spec fn reports(error: LakehouseError, fault: RegistrationFault) -> bool {
    match fault {
        RegistrationFault::ShortUsername => error matches LakehouseError::AuthenticationFailed(m)
            && m@ == "Username must be at least 3 characters"@,
        RegistrationFault::InvalidEmail => error matches LakehouseError::AuthenticationFailed(m)
            && m@ == "Invalid email address"@,
        RegistrationFault::WeakPassword => error matches LakehouseError::PasswordTooWeak(m) && m@
            == "Password must be at least 8 characters"@,
    }
}

/// Validates a registration before anything is looked up: the username
/// has at least 3 bytes, the email address holds an `@`, and the password
/// has at least 8 bytes.
pub fn validate_registration(username: &str, email: &str, password: &str) -> (result: Result<
    (),
    LakehouseError,
>)
    ensures
        match result {
            Ok(_) => registration_fault(username@, email@, password@) is None,
            Err(e) => registration_fault(username@, email@, password@) matches Some(fault)
                && reports(e, fault),
        },
{
    if username.as_bytes().len() < 3 {
        Err(
            LakehouseError::AuthenticationFailed(
                String::from_str("Username must be at least 3 characters"),
            ),
        )
    } else if !contains_char(email, '@') {
        Err(LakehouseError::AuthenticationFailed(String::from_str("Invalid email address")))
    } else if password.as_bytes().len() < 8 {
        Err(
            LakehouseError::PasswordTooWeak(
                String::from_str("Password must be at least 8 characters"),
            ),
        )
    } else {
        Ok(())
    }
}

/// What a registration writes and replies.
#[derive(Debug, Clone)]
pub struct Registration {
    /// The row to append to the `users` table.
    pub row: UserRow,
    /// The user to reply with.
    pub record: UserRecord,
}

/// The record of a newly registered user: pending, active, never logged
/// in.
pub open spec fn new_user(
    user_id: Seq<char>,
    created_at: Seq<char>,
    username: Seq<char>,
    email: Seq<char>,
    first_name: Seq<char>,
    last_name: Seq<char>,
    tier: SubscriptionTier,
) -> UserRecordView {
    UserRecordView {
        user_id,
        username,
        email,
        role: UserRole::Pending,
        subscription_tier: Some(tier),
        first_name,
        last_name,
        is_active: true,
        created_at,
        last_login: None,
    }
}

/// Builds the row of a user from the user's record and password hash.
pub fn user_row(record: &UserRecord, password_hash: String) -> (row: UserRow)
    ensures
        row@ == row_of(record@, password_hash@),
{
    let subscription_tier = match &record.subscription_tier {
        Some(tier) => Some(String::from_str(tier.as_str())),
        None => None,
    };
    UserRow {
        user_id: record.user_id.clone(),
        username: record.username.clone(),
        email: record.email.clone(),
        password_hash,
        role: String::from_str(record.role.as_str()),
        subscription_tier,
        first_name: Some(record.first_name.clone()),
        last_name: Some(record.last_name.clone()),
        is_active: record.is_active,
        created_at: record.created_at.clone(),
        last_login: copy_text(&record.last_login),
        preferences_json: Some(String::from_str("{}")),
    }
}

/// Decides a registration once the lookups and the outside computations
/// are in: `username_taken` and `email_taken` say whether the `users`
/// table holds a row with the username or the email address, `hashed` is
/// what hashing the password gave, `created_at` the clock's reading as
/// text, if it has one.
///
/// A fault of the input is reported first, then a taken username, then a
/// taken email address, then a failure to hash or to tell the time.
/// Otherwise the user is registered as pending.
pub fn register_with(
    username: String,
    email: String,
    password: &str,
    first_name: String,
    last_name: String,
    tier: SubscriptionTier,
    username_taken: bool,
    email_taken: bool,
    hashed: Result<String, String>,
    user_id: String,
    created_at: Option<String>,
) -> (result: Result<Registration, LakehouseError>)
    ensures
        match registration_fault(username@, email@, password@) {
            Some(fault) => result matches Err(e) && reports(e, fault),
            None => if username_taken {
                result matches Err(LakehouseError::UserAlreadyExists(name)) && name@ == username@
            } else if email_taken {
                result matches Err(LakehouseError::UserAlreadyExists(name)) && name@ == email@
            } else {
                match (hashed, created_at) {
                    (Ok(hash), Some(now)) => result matches Ok(registration) && registration.record@
                        == new_user(
                        user_id@,
                        now@,
                        username@,
                        email@,
                        first_name@,
                        last_name@,
                        tier,
                    ) && registration.row@ == row_of(registration.record@, hash@),
                    (Err(message), _) => result matches Err(LakehouseError::Internal(m)) && m@
                        == message@,
                    (Ok(_), None) => result matches Err(LakehouseError::Internal(_)),
                }
            },
        },
{
    match validate_registration(username.as_str(), email.as_str(), password) {
        Err(e) => {
            return Err(e);
        },
        Ok(_) => {},
    }
    if username_taken {
        return Err(LakehouseError::UserAlreadyExists(username));
    }
    if email_taken {
        return Err(LakehouseError::UserAlreadyExists(email));
    }
    let password_hash = match hashed {
        Ok(hash) => hash,
        Err(message) => {
            return Err(LakehouseError::Internal(message));
        },
    };
    let created_at = match created_at {
        Some(now) => now,
        None => {
            return Err(
                LakehouseError::Internal(String::from_str("the clock is out of the calendar")),
            );
        },
    };
    let record = UserRecord {
        user_id,
        username,
        email,
        role: UserRole::Pending,
        subscription_tier: Some(tier),
        first_name,
        last_name,
        is_active: true,
        created_at,
        last_login: None,
    };
    let row = user_row(&record, password_hash);
    Ok(Registration { row, record })
}

/// What a successful login replies and writes, but for the token.
#[derive(Debug, Clone)]
pub struct LoginTicket {
    /// The user who logged in.
    pub user: UserRecord,
    /// The claims to sign into the session token.
    pub claims: JwtClaims,
    /// The time of the login as text.
    pub created_at: String,
    /// The time at which the session expires as text.
    pub expires_at: String,
}

/// The claims of a session of `user` that starts at `iat` and ends at
/// `exp`, both in seconds since the Unix epoch.
pub open spec fn claims_of(user: UserRecordView, iat: nat, exp: nat) -> ClaimsView {
    ClaimsView { sub: user.user_id, username: user.username, role: user.role.spec_name(), exp, iat }
}

/// The session row of a login.
pub open spec fn session_of(
    token_hash: Seq<char>,
    user: UserRecordView,
    created_at: Seq<char>,
    expires_at: Seq<char>,
) -> SessionRowView {
    SessionRowView {
        token_hash,
        user_id: user.user_id,
        username: user.username,
        role: user.role.spec_name(),
        created_at,
        expires_at,
        is_revoked: false,
    }
}

/// Whether a password check let the password through, and how it fails
/// otherwise: a stored hash that cannot be read is an internal error, a
/// password that does not match is invalid credentials.
pub fn password_verdict(check: Result<bool, String>) -> (result: Result<(), LakehouseError>)
    ensures
        match check {
            Ok(true) => result is Ok,
            Ok(false) => result matches Err(LakehouseError::InvalidCredentials),
            Err(message) => result matches Err(LakehouseError::Internal(m)) && m@ == message@,
        },
{
    match check {
        Ok(true) => Ok(()),
        Ok(false) => Err(LakehouseError::InvalidCredentials),
        Err(message) => Err(LakehouseError::Internal(message)),
    }
}

/// Decides a login once the lookup and the outside computations are in:
/// `found` holds the rows of the `users` table with the username, `check`
/// what checking the password against the first row's hash gave, `now`
/// the clock's reading, and `created_at` and `expires_at` the texts of
/// the reading and of the session's end, where they have one.
///
/// An unknown username and a wrong password are both invalid
/// credentials; a stored hash that cannot be read is an internal error;
/// a user who is not active is refused as disabled. The session lasts
/// `days` days from `now`.
pub fn login_with(
    username: String,
    days: i64,
    found: &Vec<UserRow>,
    check: Result<bool, String>,
    now: Instant,
    created_at: Option<String>,
    expires_at: Option<String>,
) -> (result: Result<LoginTicket, LakehouseError>)
    ensures
        if found@.len() == 0 {
            result matches Err(LakehouseError::InvalidCredentials)
        } else {
            match check {
                Err(message) => result matches Err(LakehouseError::Internal(m)) && m@ == message@,
                Ok(false) => result matches Err(LakehouseError::InvalidCredentials),
                Ok(true) => if !found@[0].is_active {
                    result matches Err(LakehouseError::AccountDisabled(name)) && name@ == username@
                } else {
                    let end = now.secs + days * 86_400;
                    match (created_at, expires_at) {
                        (Some(created), Some(expires)) => if 0 <= now.secs <= usize::MAX && 0
                            <= end <= usize::MAX {
                            result matches Ok(ticket) && ticket.user@ == record_of(found@[0]@)
                                && ticket.claims@ == claims_of(
                                ticket.user@,
                                now.secs as nat,
                                end as nat,
                            ) && ticket.created_at@ == created@ && ticket.expires_at@ == expires@
                        } else {
                            result matches Err(LakehouseError::Internal(_))
                        },
                        _ => result matches Err(LakehouseError::Internal(_)),
                    }
                },
            }
        },
{
    if found.len() == 0 {
        return Err(LakehouseError::InvalidCredentials);
    }
    match password_verdict(check) {
        Err(e) => {
            return Err(e);
        },
        Ok(_) => {},
    }
    if !found[0].is_active {
        return Err(LakehouseError::AccountDisabled(username));
    }
    let user = match extract_user_from_batch(found, 0) {
        Ok(user) => user,
        Err(e) => {
            return Err(e);
        },
    };
    let end: i128 = now.secs as i128 + days as i128 * 86_400;
    let (created_at, expires_at) = match (created_at, expires_at) {
        (Some(created), Some(expires)) => (created, expires),
        _ => {
            return Err(
                LakehouseError::Internal(String::from_str("the clock is out of the calendar")),
            );
        },
    };
    if now.secs < 0 || now.secs as i128 > usize::MAX as i128 || end < 0 || end > usize::MAX as i128 {
        return Err(
            LakehouseError::Internal(String::from_str("the session's end cannot be written")),
        );
    }
    let claims = JwtClaims {
        sub: user.user_id.clone(),
        username: user.username.clone(),
        role: String::from_str(user.role.as_str()),
        exp: end as usize,
        iat: now.secs as usize,
    };
    Ok(LoginTicket { user, claims, created_at, expires_at })
}

/// The session row of a login, given the hash of the signed token.
pub fn session_with(token_hash: String, ticket: &LoginTicket) -> (row: SessionRow)
    ensures
        row@ == session_of(
            token_hash@,
            ticket.user@,
            ticket.created_at@,
            ticket.expires_at@,
        ),
{
    SessionRow {
        token_hash,
        user_id: ticket.user.user_id.clone(),
        username: ticket.user.username.clone(),
        role: String::from_str(ticket.user.role.as_str()),
        created_at: ticket.created_at.clone(),
        expires_at: ticket.expires_at.clone(),
        is_revoked: false,
    }
}

/// The session row of a login: the sessions table stores the hash of the
/// signed token, never the token.
pub fn new_session(token: &str, ticket: &LoginTicket) -> (row: SessionRow)
    ensures
        row@ == session_of(
            sha256_hex_of(token@),
            ticket.user@,
            ticket.created_at@,
            ticket.expires_at@,
        ),
{
    session_with(sha256_hex(token), ticket)
}

/// The predicate that selects the session of a token, revoked or not.
pub fn session_predicate(token: &str) -> (predicate: String)
    ensures
        predicate@ == equals("token_hash"@, sha256_hex_of(token@)),
{
    column_equals("token_hash", sha256_hex(token).as_str())
}

/// The predicate that selects the session of a token unless it is
/// revoked.
pub fn live_session_predicate(token: &str) -> (predicate: String)
    ensures
        predicate@ == equals("token_hash"@, sha256_hex_of(token@)) + " AND is_revoked = false"@,
{
    let mut predicate = session_predicate(token);
    predicate.append(" AND is_revoked = false");
    predicate
}

/// The predicate that selects a user while the user awaits approval.
pub fn reject_predicate(user_id: &str) -> (predicate: String)
    ensures
        predicate@ == equals("user_id"@, user_id@) + " AND role = 'pending'"@,
{
    let mut predicate = column_equals("user_id", user_id);
    predicate.append(" AND role = 'pending'");
    predicate
}

/// Verifies a token once its signature and expiry were checked and the
/// lookups are in: `claims` are the token's claims if it is valid,
/// `live_sessions` the number of sessions with the token's hash that are
/// not revoked, `users` the rows of the user that the claims name.
pub fn handle_verify_token(
    claims: &Option<JwtClaims>,
    live_sessions: usize,
    users: &Vec<UserRow>,
) -> (user: Option<UserRecord>)
    ensures
        match user {
            Some(record) => claims is Some && live_sessions > 0 && users@.len() > 0 && record@
                == record_of(users@[0]@),
            None => claims is None || live_sessions == 0 || users@.len() == 0,
        },
{
    match claims {
        None => None,
        Some(_) => {
            if live_sessions == 0 {
                None
            } else {
                handle_get_user(users)
            }
        },
    }
}

/// Whether a logout or a rejection took place: whether the delete that
/// carries it out succeeded.
pub fn delete_succeeded(outcome: &Result<DeleteMetrics, LakehouseError>) -> (done: bool)
    ensures
        done == (*outcome is Ok),
{
    match outcome {
        Ok(_) => true,
        Err(_) => false,
    }
}

/// What an approval or a change of password writes: the user's old row
/// is deleted and the new row appended.
#[derive(Debug, Clone)]
pub struct RowUpdate {
    /// The predicate that selects the old row.
    pub delete_predicate: String,
    /// The row to append.
    pub row: UserRow,
    /// The user as of the update.
    pub record: UserRecord,
}

/// The record of a user after approval for a tier: the tier's default
/// role, active, with the time of the approval as last login.
pub open spec fn approved(user: UserRecordView, user_id: Seq<char>, tier: SubscriptionTier, now: Seq<char>) -> UserRecordView {
    UserRecordView {
        user_id,
        username: user.username,
        email: user.email,
        role: tier.spec_default_role(),
        subscription_tier: Some(tier),
        first_name: user.first_name,
        last_name: user.last_name,
        is_active: true,
        created_at: user.created_at,
        last_login: Some(now),
    }
}

/// Decides an approval once the lookup is in: `found` holds the rows of
/// the user, `now` the clock's reading as text, if it has one.
///
/// An unknown user is not found. Otherwise the user takes the tier's
/// default role and keeps the password hash.
pub fn approve_with(
    user_id: &str,
    tier: SubscriptionTier,
    found: &Vec<UserRow>,
    now: Option<String>,
) -> (result: Result<RowUpdate, LakehouseError>)
    ensures
        if found@.len() == 0 {
            result matches Err(LakehouseError::UserNotFound(id)) && id@ == user_id@
        } else {
            match now {
                Some(text) => result matches Ok(update) && update.delete_predicate@ == equals(
                    "user_id"@,
                    user_id@,
                ) && update.record@ == approved(record_of(found@[0]@), user_id@, tier, text@)
                    && update.row@ == row_of(update.record@, found@[0]@.password_hash),
                None => result matches Err(LakehouseError::Internal(_)),
            }
        },
{
    let user = match handle_get_user(found) {
        Some(user) => user,
        None => {
            return Err(LakehouseError::UserNotFound(String::from_str(user_id)));
        },
    };
    let now = match now {
        Some(text) => text,
        None => {
            return Err(
                LakehouseError::Internal(String::from_str("the clock is out of the calendar")),
            );
        },
    };
    let record = UserRecord {
        user_id: String::from_str(user_id),
        username: user.username,
        email: user.email,
        role: tier.default_role(),
        subscription_tier: Some(tier),
        first_name: user.first_name,
        last_name: user.last_name,
        is_active: true,
        created_at: user.created_at,
        last_login: Some(now),
    };
    let row = user_row(&record, found[0].password_hash.clone());
    Ok(RowUpdate { delete_predicate: column_equals("user_id", user_id), row, record })
}

/// The record of a user as rewritten under the given identifier.
pub open spec fn with_id(user: UserRecordView, user_id: Seq<char>) -> UserRecordView {
    UserRecordView { user_id, ..user }
}

/// Decides a change of password once the lookup and the outside
/// computations are in: `found` holds the rows of the user, `check` what
/// checking the old password against the stored hash gave, `hashed` what
/// hashing the new password gave.
///
/// A new password of fewer than 8 bytes is too weak; an unknown user is
/// not found; a wrong old password is invalid credentials; a stored hash
/// that cannot be read, or a failure to hash, is an internal error.
/// Otherwise the user's row is rewritten with the new hash.
pub fn change_password_with(
    user_id: &str,
    new_password: &str,
    found: &Vec<UserRow>,
    check: Result<bool, String>,
    hashed: Result<String, String>,
) -> (result: Result<RowUpdate, LakehouseError>)
    ensures
        if byte_len(new_password@) < 8 {
            result matches Err(LakehouseError::PasswordTooWeak(m)) && m@
                == "Must be at least 8 characters"@
        } else if found@.len() == 0 {
            result matches Err(LakehouseError::UserNotFound(id)) && id@ == user_id@
        } else {
            match check {
                Err(message) => result matches Err(LakehouseError::Internal(m)) && m@ == message@,
                Ok(false) => result matches Err(LakehouseError::InvalidCredentials),
                Ok(true) => match hashed {
                    Err(message) => result matches Err(LakehouseError::Internal(m)) && m@
                        == message@,
                    Ok(hash) => result matches Ok(update) && update.delete_predicate@ == equals(
                        "user_id"@,
                        user_id@,
                    ) && update.record@ == with_id(record_of(found@[0]@), user_id@) && update.row@
                        == row_of(update.record@, hash@),
                },
            }
        },
{
    if new_password.as_bytes().len() < 8 {
        return Err(
            LakehouseError::PasswordTooWeak(String::from_str("Must be at least 8 characters")),
        );
    }
    let user = match handle_get_user(found) {
        Some(user) => user,
        None => {
            return Err(LakehouseError::UserNotFound(String::from_str(user_id)));
        },
    };
    match password_verdict(check) {
        Err(e) => {
            return Err(e);
        },
        Ok(_) => {},
    }
    let new_hash = match hashed {
        Ok(hash) => hash,
        Err(message) => {
            return Err(LakehouseError::Internal(message));
        },
    };
    let record = UserRecord { user_id: String::from_str(user_id), ..user };
    let row = user_row(&record, new_hash);
    Ok(RowUpdate { delete_predicate: column_equals("user_id", user_id), row, record })
}

/// The life of a user: a registration makes a pending, active user; an
/// approval promotes to the tier's default role, which is registered or
/// trader and so grants more than pending; a change of password leaves
/// the role and the active flag alone.
pub proof fn lemma_user_life_cycle(
    user: UserRecordView,
    user_id: Seq<char>,
    tier: SubscriptionTier,
    now: Seq<char>,
)
    ensures
        new_user(user_id, now, user.username, user.email, user.first_name, user.last_name, tier).role
            == UserRole::Pending,
        approved(user, user_id, tier, now).role is Registered || approved(
            user,
            user_id,
            tier,
            now,
        ).role is Trader,
        approved(user, user_id, tier, now).role.spec_level() > UserRole::Pending.spec_level(),
        approved(user, user_id, tier, now).is_active,
        with_id(user, user_id).role == user.role,
        with_id(user, user_id).is_active == user.is_active,
        forall|hash: Seq<char>| #[trigger]
            row_of(approved(user, user_id, tier, now), hash).password_hash == hash,
{
}

/// The authentication actor's settings.
#[derive(Debug, Clone)]
pub struct AuthActor {
    pub jwt_secret: String,
    pub session_expiry_days: u32,
}

impl AuthActor {
    /// An actor with the signing secret and session lifetime of a
    /// configuration.
    pub fn new(config: &LakehouseConfig) -> (actor: AuthActor)
        ensures
            actor.jwt_secret@ == config.jwt_secret@,
            actor.session_expiry_days == config.session_expiry_days,
    {
        AuthActor {
            jwt_secret: config.jwt_secret.clone(),
            session_expiry_days: config.session_expiry_days,
        }
    }

    /// The lifetime of a session in days: 30 with "remember me", else the
    /// configured one.
    pub open spec fn spec_session_days(&self, remember_me: bool) -> int {
        if remember_me {
            30
        } else {
            self.session_expiry_days as int
        }
    }

    /// The lifetime of a session in days.
    pub fn session_days(&self, remember_me: bool) -> (days: i64)
        ensures
            days == self.spec_session_days(remember_me),
    {
        if remember_me {
            REMEMBER_ME_DAYS
        } else {
            self.session_expiry_days as i64
        }
    }

    /// Handles a registration: validates the input, refuses a username or
    /// an email address that is taken, hashes the password with a fresh
    /// random salt, and registers the user as pending under a fresh
    /// identifier.
    ///
    /// What is hashed, drawn and read from the clock is not determined by
    /// the input: a registration that passes the checks either succeeds,
    /// for the given names and tier, or fails with an internal error.
    pub fn handle_register(
        &self,
        username: String,
        email: String,
        password: String,
        first_name: String,
        last_name: String,
        tier: SubscriptionTier,
        username_taken: bool,
        email_taken: bool,
    ) -> (result: Result<Registration, LakehouseError>)
        ensures
            match registration_fault(username@, email@, password@) {
                Some(fault) => result matches Err(e) && reports(e, fault),
                None => if username_taken {
                    result matches Err(LakehouseError::UserAlreadyExists(name)) && name@
                        == username@
                } else if email_taken {
                    result matches Err(LakehouseError::UserAlreadyExists(name)) && name@ == email@
                } else {
                    match result {
                        Ok(registration) => {
                            &&& registration.record@ == new_user(
                                registration.record@.user_id,
                                registration.record@.created_at,
                                username@,
                                email@,
                                first_name@,
                                last_name@,
                                tier,
                            )
                            &&& registration.record@.user_id.len() == 36
                            &&& registration.row@ == row_of(
                                registration.record@,
                                registration.row@.password_hash,
                            )
                            &&& exists|salt: Seq<char>|
                                argon2_hash_of(password@, salt) == Ok::<Seq<char>, Seq<char>>(
                                    registration.row@.password_hash,
                                )
                            &&& exists|secs: int, nanos: int| #[trigger]
                                rfc3339_of(secs, nanos) == Some(registration.record@.created_at)
                        },
                        Err(e) => e is Internal,
                    }
                },
            },
    {
        // Nothing is hashed or drawn for a registration that is refused.
        let refused = match validate_registration(
            username.as_str(),
            email.as_str(),
            password.as_str(),
        ) {
            Err(_) => true,
            Ok(_) => username_taken || email_taken,
        };
        if refused {
            return register_with(
                username,
                email,
                password.as_str(),
                first_name,
                last_name,
                tier,
                username_taken,
                email_taken,
                Err(String::new()),
                String::new(),
                None,
            );
        }
        let salt = generate_salt();
        let hashed = argon2_hash(password.as_str(), salt.as_str());
        let user_id = new_uuid();
        let now = Instant::now();
        let created_at = now.to_rfc3339();
        proof {
            if hashed is Ok {
                assert(argon2_hash_of(password@, salt@) == Ok::<Seq<char>, Seq<char>>(
                    hashed->Ok_0@,
                ));
            }
            if created_at is Some {
                assert(rfc3339_of(now.secs as int, now.nanos as int) == Some(created_at->0@));
            }
        }
        register_with(
            username,
            email,
            password.as_str(),
            first_name,
            last_name,
            tier,
            username_taken,
            email_taken,
            hashed,
            user_id,
            created_at,
        )
    }
    /// Handles a login: looks at the first row with the username, checks
    /// the password against its hash, refuses a disabled user, and
    /// prepares the claims of a session of 30 days with "remember me" or
    /// of the configured lifetime without. The caller signs the claims
    /// into the token and stores the session that [`new_session`] builds.
    ///
    /// The clock decides when the session starts: a login that passes the
    /// checks either succeeds for the user found, or fails with an
    /// internal error where the session's times cannot be written.
    pub fn handle_login(
        &self,
        username: String,
        password: String,
        remember_me: bool,
        found: &Vec<UserRow>,
    ) -> (result: Result<LoginTicket, LakehouseError>)
        ensures
            if found@.len() == 0 {
                result matches Err(LakehouseError::InvalidCredentials)
            } else {
                match argon2_check_of(password@, found@[0]@.password_hash) {
                    Err(message) => result matches Err(LakehouseError::Internal(m)) && m@
                        == message,
                    Ok(false) => result matches Err(LakehouseError::InvalidCredentials),
                    Ok(true) => if !found@[0].is_active {
                        result matches Err(LakehouseError::AccountDisabled(name)) && name@
                            == username@
                    } else {
                        match result {
                            Ok(ticket) => {
                                &&& ticket.user@ == record_of(found@[0]@)
                                &&& ticket.claims@ == claims_of(
                                    ticket.user@,
                                    ticket.claims@.iat,
                                    ticket.claims@.exp,
                                )
                                &&& ticket.claims@.exp == ticket.claims@.iat
                                    + self.spec_session_days(remember_me) * 86_400
                                &&& exists|nanos: int|
                                    #![trigger rfc3339_of(ticket.claims@.iat as int, nanos)]
                                    rfc3339_of(ticket.claims@.iat as int, nanos) == Some(
                                        ticket.created_at@,
                                    ) && rfc3339_of(ticket.claims@.exp as int, nanos) == Some(
                                        ticket.expires_at@,
                                    )
                            },
                            Err(e) => e is Internal,
                        }
                    },
                }
            },
    {
        if found.len() == 0 {
            return Err(LakehouseError::InvalidCredentials);
        }
        let check = argon2_check(password.as_str(), found[0].password_hash.as_str());
        let days = self.session_days(remember_me);
        let now = Instant::now();
        let created_at = now.to_rfc3339();
        let expires_at = match now.plus_days(days) {
            Some(end) => end.to_rfc3339(),
            None => None,
        };
        let result = login_with(username, days, found, check, now, created_at, expires_at);
        proof {
            if result is Ok {
                let ticket = result->Ok_0;
                assert(rfc3339_of(ticket.claims@.iat as int, now.nanos as int) == Some(
                    ticket.created_at@,
                ));
                assert(rfc3339_of(ticket.claims@.exp as int, now.nanos as int) == Some(
                    ticket.expires_at@,
                ));
            }
        }
        result
    }

    /// Handles an approval: the user takes the tier's default role and
    /// keeps the password hash; the time of the approval is recorded as
    /// the last login.
    pub fn handle_approve(&self, user_id: &str, tier: SubscriptionTier, found: &Vec<UserRow>) -> (result:
        Result<RowUpdate, LakehouseError>)
        ensures
            if found@.len() == 0 {
                result matches Err(LakehouseError::UserNotFound(id)) && id@ == user_id@
            } else {
                match result {
                    Ok(update) => {
                        &&& update.delete_predicate@ == equals("user_id"@, user_id@)
                        &&& update.record@.last_login matches Some(now) && update.record@
                            == approved(record_of(found@[0]@), user_id@, tier, now)
                        &&& update.row@ == row_of(update.record@, found@[0]@.password_hash)
                    },
                    Err(e) => e is Internal,
                }
            },
    {
        let now = Instant::now().to_rfc3339();
        approve_with(user_id, tier, found, now)
    }

    /// Handles a change of password: checks the new password's length and
    /// the old password, hashes the new password with a fresh random
    /// salt, and rewrites the user's row with the new hash.
    pub fn handle_change_password(
        &self,
        user_id: &str,
        old_password: &str,
        new_password: &str,
        found: &Vec<UserRow>,
    ) -> (result: Result<RowUpdate, LakehouseError>)
        ensures
            if byte_len(new_password@) < 8 {
                result matches Err(LakehouseError::PasswordTooWeak(m)) && m@
                    == "Must be at least 8 characters"@
            } else if found@.len() == 0 {
                result matches Err(LakehouseError::UserNotFound(id)) && id@ == user_id@
            } else {
                match argon2_check_of(old_password@, found@[0]@.password_hash) {
                    Err(message) => result matches Err(LakehouseError::Internal(m)) && m@
                        == message,
                    Ok(false) => result matches Err(LakehouseError::InvalidCredentials),
                    Ok(true) => match result {
                        Ok(update) => {
                            &&& update.delete_predicate@ == equals("user_id"@, user_id@)
                            &&& update.record@ == with_id(record_of(found@[0]@), user_id@)
                            &&& update.row@ == row_of(update.record@, update.row@.password_hash)
                            &&& exists|salt: Seq<char>|
                                argon2_hash_of(new_password@, salt) == Ok::<
                                    Seq<char>,
                                    Seq<char>,
                                >(update.row@.password_hash)
                        },
                        Err(e) => e is Internal,
                    },
                }
            },
    {
        if new_password.as_bytes().len() < 8 || found.len() == 0 {
            return change_password_with(
                user_id,
                new_password,
                found,
                Ok(false),
                Err(String::new()),
            );
        }
        let check = argon2_check(old_password, found[0].password_hash.as_str());
        let passed = match &check {
            Ok(same) => *same,
            Err(_) => false,
        };
        if !passed {
            return change_password_with(user_id, new_password, found, check, Err(String::new()));
        }
        let salt = generate_salt();
        let hashed = argon2_hash(new_password, salt.as_str());
        proof {
            if hashed is Ok {
                assert(argon2_hash_of(new_password@, salt@) == Ok::<Seq<char>, Seq<char>>(
                    hashed->Ok_0@,
                ));
            }
        }
        change_password_with(user_id, new_password, found, check, hashed)
    }
}

} // verus!
