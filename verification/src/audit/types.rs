//! The action taxonomy of the audit log, audit entries and billing totals.

use crate::text::str_eq;
use vstd::prelude::*;

verus! {

/// The kinds of action that the audit log records.
#[derive(Debug, Clone, Copy, PartialEq, Eq, Structural)]
pub enum ActionType {
    // Authentication events
    Login,
    Logout,
    Register,
    PasswordChange,
    UserApproved,
    UserRejected,
    UserDeleted,
    // Data events
    QueryExecuted,
    DataUpload,
    DataExport,
    // Trading events
    StrategyCreated,
    StrategyUpdated,
    StrategyDeleted,
    BacktestRun,
    LiveTradeStart,
    LiveTradeStop,
    // Administration events
    AdminAction,
    ConfigChange,
    // Billing events
    SubscriptionChange,
    PaymentReceived,
}

impl ActionType {
    /// The snake-case name under which an action is stored.
    pub open spec fn spec_name(self) -> Seq<char> {
        match self {
            ActionType::Login => "login"@,
            ActionType::Logout => "logout"@,
            ActionType::Register => "register"@,
            ActionType::PasswordChange => "password_change"@,
            ActionType::UserApproved => "user_approved"@,
            ActionType::UserRejected => "user_rejected"@,
            ActionType::UserDeleted => "user_deleted"@,
            ActionType::QueryExecuted => "query_executed"@,
            ActionType::DataUpload => "data_upload"@,
            ActionType::DataExport => "data_export"@,
            ActionType::StrategyCreated => "strategy_created"@,
            ActionType::StrategyUpdated => "strategy_updated"@,
            ActionType::StrategyDeleted => "strategy_deleted"@,
            ActionType::BacktestRun => "backtest_run"@,
            ActionType::LiveTradeStart => "live_trade_start"@,
            ActionType::LiveTradeStop => "live_trade_stop"@,
            ActionType::AdminAction => "admin_action"@,
            ActionType::ConfigChange => "config_change"@,
            ActionType::SubscriptionChange => "subscription_change"@,
            ActionType::PaymentReceived => "payment_received"@,
        }
    }

    /// The action that a stored name stands for. Unknown names are read
    /// as `AdminAction`.
    pub open spec fn named(s: Seq<char>) -> ActionType {
        if s == "login"@ {
            ActionType::Login
        } else if s == "logout"@ {
            ActionType::Logout
        } else if s == "register"@ {
            ActionType::Register
        } else if s == "password_change"@ {
            ActionType::PasswordChange
        } else if s == "user_approved"@ {
            ActionType::UserApproved
        } else if s == "user_rejected"@ {
            ActionType::UserRejected
        } else if s == "user_deleted"@ {
            ActionType::UserDeleted
        } else if s == "query_executed"@ {
            ActionType::QueryExecuted
        } else if s == "data_upload"@ {
            ActionType::DataUpload
        } else if s == "data_export"@ {
            ActionType::DataExport
        } else if s == "strategy_created"@ {
            ActionType::StrategyCreated
        } else if s == "strategy_updated"@ {
            ActionType::StrategyUpdated
        } else if s == "strategy_deleted"@ {
            ActionType::StrategyDeleted
        } else if s == "backtest_run"@ {
            ActionType::BacktestRun
        } else if s == "live_trade_start"@ {
            ActionType::LiveTradeStart
        } else if s == "live_trade_stop"@ {
            ActionType::LiveTradeStop
        } else if s == "admin_action"@ {
            ActionType::AdminAction
        } else if s == "config_change"@ {
            ActionType::ConfigChange
        } else if s == "subscription_change"@ {
            ActionType::SubscriptionChange
        } else if s == "payment_received"@ {
            ActionType::PaymentReceived
        } else {
            ActionType::AdminAction
        }
    }

    /// Whether an action consumes compute credits.
    pub open spec fn spec_is_billable(self) -> bool {
        self is QueryExecuted || self is DataUpload || self is DataExport || self is BacktestRun
            || self is LiveTradeStart
    }

    /// The name under which the action is stored.
    pub fn as_str(&self) -> (s: &'static str)
        ensures
            s@ == self.spec_name(),
    {
        match self {
            ActionType::Login => "login",
            ActionType::Logout => "logout",
            ActionType::Register => "register",
            ActionType::PasswordChange => "password_change",
            ActionType::UserApproved => "user_approved",
            ActionType::UserRejected => "user_rejected",
            ActionType::UserDeleted => "user_deleted",
            ActionType::QueryExecuted => "query_executed",
            ActionType::DataUpload => "data_upload",
            ActionType::DataExport => "data_export",
            ActionType::StrategyCreated => "strategy_created",
            ActionType::StrategyUpdated => "strategy_updated",
            ActionType::StrategyDeleted => "strategy_deleted",
            ActionType::BacktestRun => "backtest_run",
            ActionType::LiveTradeStart => "live_trade_start",
            ActionType::LiveTradeStop => "live_trade_stop",
            ActionType::AdminAction => "admin_action",
            ActionType::ConfigChange => "config_change",
            ActionType::SubscriptionChange => "subscription_change",
            ActionType::PaymentReceived => "payment_received",
        }
    }

    /// Reads an action from its stored name.
    pub fn from_str(s: &str) -> (action: ActionType)
        ensures
            action == ActionType::named(s@),
    {
        if str_eq(s, "login") {
            ActionType::Login
        } else if str_eq(s, "logout") {
            ActionType::Logout
        } else if str_eq(s, "register") {
            ActionType::Register
        } else if str_eq(s, "password_change") {
            ActionType::PasswordChange
        } else if str_eq(s, "user_approved") {
            ActionType::UserApproved
        } else if str_eq(s, "user_rejected") {
            ActionType::UserRejected
        } else if str_eq(s, "user_deleted") {
            ActionType::UserDeleted
        } else if str_eq(s, "query_executed") {
            ActionType::QueryExecuted
        } else if str_eq(s, "data_upload") {
            ActionType::DataUpload
        } else if str_eq(s, "data_export") {
            ActionType::DataExport
        } else if str_eq(s, "strategy_created") {
            ActionType::StrategyCreated
        } else if str_eq(s, "strategy_updated") {
            ActionType::StrategyUpdated
        } else if str_eq(s, "strategy_deleted") {
            ActionType::StrategyDeleted
        } else if str_eq(s, "backtest_run") {
            ActionType::BacktestRun
        } else if str_eq(s, "live_trade_start") {
            ActionType::LiveTradeStart
        } else if str_eq(s, "live_trade_stop") {
            ActionType::LiveTradeStop
        } else if str_eq(s, "admin_action") {
            ActionType::AdminAction
        } else if str_eq(s, "config_change") {
            ActionType::ConfigChange
        } else if str_eq(s, "subscription_change") {
            ActionType::SubscriptionChange
        } else if str_eq(s, "payment_received") {
            ActionType::PaymentReceived
        } else {
            ActionType::AdminAction
        }
    }

    /// Whether this action is billable (consumes compute credits).
    pub fn is_billable(&self) -> (billable: bool)
        ensures
            billable == self.spec_is_billable(),
    {
        match self {
            ActionType::QueryExecuted
            | ActionType::DataUpload
            | ActionType::DataExport
            | ActionType::BacktestRun
            | ActionType::LiveTradeStart => true,
            _ => false,
        }
    }
}

/// One structured record of the audit log.
#[derive(Debug, Clone)]
pub struct AuditEntry {
    pub event_id: String,
    pub user_id: String,
    pub username: String,
    pub action: ActionType,
    pub resource: Option<String>,
    pub detail: String,
    pub ip_address: Option<String>,
    pub timestamp: String,
    pub date_partition: String,
}

/// Billing totals of one user over a period.
#[derive(Debug, Clone)]
pub struct BillingSummary {
    pub user_id: String,
    pub period_start: String,
    pub period_end: String,
    pub total_queries: u64,
    pub total_uploads: u64,
    pub total_exports: u64,
    pub total_backtests: u64,
    pub total_live_trades: u64,
    pub total_actions: u64,
}

/// An action is read back from the name it is stored under, and no two
/// actions share a name.
pub proof fn lemma_action_name_round_trip(action: ActionType, other: ActionType)
    ensures
        ActionType::named(action.spec_name()) == action,
        action.spec_name() == other.spec_name() ==> action == other,
{
    reveal_strlit("login");
    reveal_strlit("logout");
    reveal_strlit("register");
    reveal_strlit("password_change");
    reveal_strlit("user_approved");
    reveal_strlit("user_rejected");
    reveal_strlit("user_deleted");
    reveal_strlit("query_executed");
    reveal_strlit("data_upload");
    reveal_strlit("data_export");
    reveal_strlit("strategy_created");
    reveal_strlit("strategy_updated");
    reveal_strlit("strategy_deleted");
    reveal_strlit("backtest_run");
    reveal_strlit("live_trade_start");
    reveal_strlit("live_trade_stop");
    reveal_strlit("admin_action");
    reveal_strlit("config_change");
    reveal_strlit("subscription_change");
    reveal_strlit("payment_received");
    assert("login"@.len() == 5);
    assert("logout"@.len() == 6);
    assert("register"@.len() == 8);
    assert("password_change"@.len() == 15);
    assert("user_approved"@.len() == 13);
    assert("user_rejected"@.len() == 13);
    assert("user_deleted"@.len() == 12);
    assert("query_executed"@.len() == 14);
    assert("data_upload"@.len() == 11);
    assert("data_export"@.len() == 11);
    assert("strategy_created"@.len() == 16);
    assert("strategy_updated"@.len() == 16);
    assert("strategy_deleted"@.len() == 16);
    assert("backtest_run"@.len() == 12);
    assert("live_trade_start"@.len() == 16);
    assert("live_trade_stop"@.len() == 15);
    assert("admin_action"@.len() == 12);
    assert("config_change"@.len() == 13);
    assert("subscription_change"@.len() == 19);
    assert("payment_received"@.len() == 16);
    assert("password_change"@[0] == 'p');
    assert("live_trade_stop"@[0] == 'l');
    assert("user_approved"@[5] == 'a');
    assert("user_rejected"@[5] == 'r');
    assert("user_approved"@[0] == 'u');
    assert("config_change"@[0] == 'c');
    assert("user_rejected"@[0] == 'u');
    assert("user_deleted"@[0] == 'u');
    assert("backtest_run"@[0] == 'b');
    assert("admin_action"@[0] == 'a');
    assert("data_upload"@[5] == 'u');
    assert("data_export"@[5] == 'e');
    assert("strategy_created"@[9] == 'c');
    assert("strategy_updated"@[9] == 'u');
    assert("strategy_deleted"@[9] == 'd');
    assert("strategy_created"@[0] == 's');
    assert("live_trade_start"@[0] == 'l');
    assert("payment_received"@[0] == 'p');
    assert("strategy_updated"@[0] == 's');
    assert("strategy_deleted"@[0] == 's');
}

} // verus!
