//! The rules of the audit actor: the row that a logged event becomes, the
//! statements of its queries, and the billing tally.

use crate::audit::types::{ActionType, AuditEntry, BillingSummary};
use crate::auth::crypto::new_uuid;
use crate::clock::{date_of, rfc3339_of, Instant};
use crate::error::LakehouseError;
use crate::text::{concat3, copy_text, decimal, text_of, u64_to_decimal};
use vstd::prelude::*;

verus! {

/// One row of the audit log.
#[derive(Debug, Clone)]
pub struct AuditRow {
    pub event_id: String,
    pub user_id: String,
    pub username: String,
    pub action: String,
    pub resource: Option<String>,
    pub detail: String,
    pub ip_address: Option<String>,
    pub timestamp: String,
    pub date_partition: String,
}

/// The mathematical content of an audit row or an audit entry.
pub struct AuditView {
    pub event_id: Seq<char>,
    pub user_id: Seq<char>,
    pub username: Seq<char>,
    pub action: ActionType,
    pub resource: Option<Seq<char>>,
    pub detail: Seq<char>,
    pub ip_address: Option<Seq<char>>,
    pub timestamp: Seq<char>,
    pub date_partition: Seq<char>,
}

impl View for AuditRow {
    type V = AuditView;

    open spec fn view(&self) -> AuditView {
        AuditView {
            event_id: self.event_id@,
            user_id: self.user_id@,
            username: self.username@,
            action: ActionType::named(self.action@),
            resource: text_of(self.resource),
            detail: self.detail@,
            ip_address: text_of(self.ip_address),
            timestamp: self.timestamp@,
            date_partition: self.date_partition@,
        }
    }
}

impl View for AuditEntry {
    type V = AuditView;

    open spec fn view(&self) -> AuditView {
        AuditView {
            event_id: self.event_id@,
            user_id: self.user_id@,
            username: self.username@,
            action: self.action,
            resource: text_of(self.resource),
            detail: self.detail@,
            ip_address: text_of(self.ip_address),
            timestamp: self.timestamp@,
            date_partition: self.date_partition@,
        }
    }
}

/// The entry of row `i` of a query's result.
pub fn extract_entry_from_batch(batch: &Vec<AuditRow>, i: usize) -> (entry: Option<AuditEntry>)
    requires
        i < batch@.len(),
    ensures
        entry matches Some(e) && e@ == batch@[i as int]@,
{
    let row = &batch[i];
    Some(
        AuditEntry {
            event_id: row.event_id.clone(),
            user_id: row.user_id.clone(),
            username: row.username.clone(),
            action: ActionType::from_str(row.action.as_str()),
            resource: copy_text(&row.resource),
            detail: row.detail.clone(),
            ip_address: copy_text(&row.ip_address),
            timestamp: row.timestamp.clone(),
            date_partition: row.date_partition.clone(),
        },
    )
}

/// The entries of all rows of a query's result, in order.
pub fn query_entries(batch: &Vec<AuditRow>) -> (entries: Vec<AuditEntry>)
    ensures
        entries@.len() == batch@.len(),
        forall|i: int| 0 <= i < batch@.len() ==> (#[trigger] entries@[i])@ == batch@[i]@,
{
    let mut entries: Vec<AuditEntry> = Vec::new();
    let mut i: usize = 0;
    while i < batch.len()
        invariant
            i <= batch.len(),
            entries@.len() == i,
            forall|j: int| 0 <= j < i ==> (#[trigger] entries@[j])@ == batch@[j]@,
        decreases batch.len() - i,
    {
        match extract_entry_from_batch(batch, i) {
            Some(entry) => entries.push(entry),
            None => {},
        }
        i += 1;
    }
    entries
}

/// The row of a logged event, given a fresh identifier and the texts of
/// the clock's reading and of its day, where they have one. Without them
/// the event cannot be written.
pub fn log_with(
    event_id: String,
    timestamp: Option<String>,
    date_partition: Option<String>,
    user_id: String,
    username: String,
    action: ActionType,
    resource: Option<String>,
    detail: String,
    ip_address: Option<String>,
) -> (result: Result<AuditRow, LakehouseError>)
    ensures
        match (timestamp, date_partition) {
            (Some(time), Some(day)) => result matches Ok(row) && row.action@ == action.spec_name()
                && row@ == (AuditView {
                event_id: event_id@,
                user_id: user_id@,
                username: username@,
                action,
                resource: text_of(resource),
                detail: detail@,
                ip_address: text_of(ip_address),
                timestamp: time@,
                date_partition: day@,
            }),
            _ => result matches Err(LakehouseError::AuditWriteFailed(_)),
        },
{
    match (timestamp, date_partition) {
        (Some(timestamp), Some(date_partition)) => {
            proof {
                crate::audit::types::lemma_action_name_round_trip(action, action);
            }
            Ok(
                AuditRow {
                    event_id,
                    user_id,
                    username,
                    action: String::from_str(action.as_str()),
                    resource,
                    detail,
                    ip_address,
                    timestamp,
                    date_partition,
                },
            )
        },
        _ => Err(
            LakehouseError::AuditWriteFailed(String::from_str("the clock is out of the calendar")),
        ),
    }
}

/// Handles the logging of an event: the event becomes one row of the
/// audit log, under a fresh identifier, stamped with the clock's reading
/// and partitioned by its day.
pub fn handle_log(
    user_id: String,
    username: String,
    action: ActionType,
    resource: Option<String>,
    detail: String,
    ip_address: Option<String>,
) -> (result: Result<AuditRow, LakehouseError>)
    ensures
        match result {
            Ok(row) => {
                &&& row.action@ == action.spec_name()
                &&& row@ == (AuditView {
                    event_id: row@.event_id,
                    user_id: user_id@,
                    username: username@,
                    action,
                    resource: text_of(resource),
                    detail: detail@,
                    ip_address: text_of(ip_address),
                    timestamp: row@.timestamp,
                    date_partition: row@.date_partition,
                })
                &&& row@.event_id.len() == 36
                &&& exists|secs: int, nanos: int|
                    #![trigger rfc3339_of(secs, nanos)]
                    rfc3339_of(secs, nanos) == Some(row@.timestamp) && date_of(secs, nanos) == Some(
                        row@.date_partition,
                    )
            },
            Err(e) => e is AuditWriteFailed,
        },
{
    let event_id = new_uuid();
    let now = Instant::now();
    let timestamp = now.to_rfc3339();
    let date_partition = now.date();
    proof {
        if timestamp is Some && date_partition is Some {
            assert(rfc3339_of(now.secs as int, now.nanos as int) == Some(timestamp->0@));
            assert(date_of(now.secs as int, now.nanos as int) == Some(date_partition->0@));
        }
    }
    log_with(
        event_id,
        timestamp,
        date_partition,
        user_id,
        username,
        action,
        resource,
        detail,
        ip_address,
    )
}

/// The statement that reads a user's latest events.
pub fn handle_user_activity(user_id: &str, limit: usize) -> (sql: String)
    ensures
        sql@ == "SELECT * FROM t WHERE user_id = '"@ + user_id@
            + "' ORDER BY timestamp DESC LIMIT "@ + decimal(limit as nat),
{
    let mut sql = concat3(
        "SELECT * FROM t WHERE user_id = '",
        user_id,
        "' ORDER BY timestamp DESC LIMIT ",
    );
    sql.append(u64_to_decimal(limit as u64).as_str());
    sql
}

/// The statement that reads the latest events of all users.
pub fn handle_recent_events(limit: usize) -> (sql: String)
    ensures
        sql@ == "SELECT * FROM t ORDER BY timestamp DESC LIMIT "@ + decimal(limit as nat),
{
    let mut sql = String::from_str("SELECT * FROM t ORDER BY timestamp DESC LIMIT ");
    sql.append(u64_to_decimal(limit as u64).as_str());
    sql
}

/// The statement that counts a user's events per action within a range
/// of days, both ends included.
pub fn billing_sql(user_id: &str, start_date: &str, end_date: &str) -> (sql: String)
    ensures
        sql@ == "SELECT action, COUNT(*) as cnt FROM t WHERE user_id = '"@ + user_id@
            + "' AND date_partition >= '"@ + start_date@ + "' AND date_partition <= '"@
            + end_date@ + "' GROUP BY action"@,
{
    let mut sql = concat3(
        "SELECT action, COUNT(*) as cnt FROM t WHERE user_id = '",
        user_id,
        "' AND date_partition >= '",
    );
    sql.append(start_date);
    sql.append("' AND date_partition <= '");
    sql.append(end_date);
    sql.append("' GROUP BY action");
    sql
}

/// The number of a user's events of one action, as the billing query
/// returns it.
#[derive(Debug, Clone)]
pub struct ActionCount {
    pub action: String,
    pub count: u64,
}

/// The number of events among `counts`.
pub open spec fn all_events(counts: Seq<ActionCount>) -> nat
    decreases counts.len(),
{
    if counts.len() == 0 {
        0
    } else {
        all_events(counts.drop_last()) + counts.last().count as nat
    }
}

/// The number of events of `action` among `counts`.
pub open spec fn events_of(counts: Seq<ActionCount>, action: ActionType) -> nat
    decreases counts.len(),
{
    if counts.len() == 0 {
        0
    } else if ActionType::named(counts.last().action@) == action {
        events_of(counts.drop_last(), action) + counts.last().count as nat
    } else {
        events_of(counts.drop_last(), action)
    }
}

/// The number of billable events among `counts`.
pub open spec fn billable_events(counts: Seq<ActionCount>) -> nat
    decreases counts.len(),
{
    if counts.len() == 0 {
        0
    } else if ActionType::named(counts.last().action@).spec_is_billable() {
        billable_events(counts.drop_last()) + counts.last().count as nat
    } else {
        billable_events(counts.drop_last())
    }
}

/// The events of one action are among all events.
pub proof fn lemma_events_of_are_events(counts: Seq<ActionCount>, action: ActionType)
    ensures
        events_of(counts, action) <= all_events(counts),
    decreases counts.len(),
{
    if counts.len() > 0 {
        lemma_events_of_are_events(counts.drop_last(), action);
    }
}

/// All events of a prefix of the counts are among all events.
proof fn lemma_events_grow(counts: Seq<ActionCount>, n: int)
    requires
        0 <= n <= counts.len(),
    ensures
        all_events(counts.subrange(0, n)) <= all_events(counts),
    decreases counts.len(),
{
    if n < counts.len() {
        lemma_events_grow(counts.drop_last(), n);
        assert(counts.drop_last().subrange(0, n) =~= counts.subrange(0, n));
    } else {
        assert(counts.subrange(0, n) =~= counts);
    }
}

/// The five billed totals together are the billable events: what a
/// summary bills follows from the one taxonomy of actions.
pub proof fn lemma_billed_totals_are_the_billable_events(counts: Seq<ActionCount>)
    ensures
        events_of(counts, ActionType::QueryExecuted) + events_of(counts, ActionType::DataUpload)
            + events_of(counts, ActionType::DataExport) + events_of(counts, ActionType::BacktestRun)
            + events_of(counts, ActionType::LiveTradeStart) == billable_events(counts),
        billable_events(counts) <= all_events(counts),
    decreases counts.len(),
{
    if counts.len() > 0 {
        lemma_billed_totals_are_the_billable_events(counts.drop_last());
    }
}

/// Tallies the counts of the billing query into a summary: every event
/// counts as an action, and the events of the billable actions are
/// counted per action. More events than can be counted are an internal
/// error.
pub fn handle_billing_summary(
    user_id: &str,
    start_date: &str,
    end_date: &str,
    counts: &Vec<ActionCount>,
) -> (result: Result<BillingSummary, LakehouseError>)
    ensures
        match result {
            Ok(summary) => {
                &&& all_events(counts@) <= u64::MAX
                &&& summary.user_id@ == user_id@
                &&& summary.period_start@ == start_date@
                &&& summary.period_end@ == end_date@
                &&& summary.total_actions == all_events(counts@)
                &&& summary.total_queries == events_of(counts@, ActionType::QueryExecuted)
                &&& summary.total_uploads == events_of(counts@, ActionType::DataUpload)
                &&& summary.total_exports == events_of(counts@, ActionType::DataExport)
                &&& summary.total_backtests == events_of(counts@, ActionType::BacktestRun)
                &&& summary.total_live_trades == events_of(counts@, ActionType::LiveTradeStart)
            },
            Err(e) => all_events(counts@) > u64::MAX && e is Internal,
        },
{
    let mut summary = BillingSummary {
        user_id: String::from_str(user_id),
        period_start: String::from_str(start_date),
        period_end: String::from_str(end_date),
        total_queries: 0,
        total_uploads: 0,
        total_exports: 0,
        total_backtests: 0,
        total_live_trades: 0,
        total_actions: 0,
    };
    let mut i: usize = 0;
    assert(counts@.subrange(0, 0) =~= Seq::empty());
    while i < counts.len()
        invariant
            i <= counts.len(),
            summary.user_id@ == user_id@,
            summary.period_start@ == start_date@,
            summary.period_end@ == end_date@,
            summary.total_actions == all_events(counts@.subrange(0, i as int)),
            summary.total_queries == events_of(
                counts@.subrange(0, i as int),
                ActionType::QueryExecuted,
            ),
            summary.total_uploads == events_of(
                counts@.subrange(0, i as int),
                ActionType::DataUpload,
            ),
            summary.total_exports == events_of(
                counts@.subrange(0, i as int),
                ActionType::DataExport,
            ),
            summary.total_backtests == events_of(
                counts@.subrange(0, i as int),
                ActionType::BacktestRun,
            ),
            summary.total_live_trades == events_of(
                counts@.subrange(0, i as int),
                ActionType::LiveTradeStart,
            ),
        decreases counts.len() - i,
    {
        let ghost before = counts@.subrange(0, i as int);
        let ghost prefix = counts@.subrange(0, i as int + 1);
        assert(prefix.drop_last() =~= before);
        assert(prefix.last() == counts@[i as int]);
        let count = counts[i].count;
        if count > u64::MAX - summary.total_actions {
            proof {
                lemma_events_grow(counts@, i as int + 1);
            }
            return Err(LakehouseError::Internal(String::from_str("too many events to count")));
        }
        proof {
            lemma_events_of_are_events(before, ActionType::QueryExecuted);
            lemma_events_of_are_events(before, ActionType::DataUpload);
            lemma_events_of_are_events(before, ActionType::DataExport);
            lemma_events_of_are_events(before, ActionType::BacktestRun);
            lemma_events_of_are_events(before, ActionType::LiveTradeStart);
        }
        summary.total_actions = summary.total_actions + count;
        match ActionType::from_str(counts[i].action.as_str()) {
            ActionType::QueryExecuted => {
                summary.total_queries = summary.total_queries + count;
            },
            ActionType::DataUpload => {
                summary.total_uploads = summary.total_uploads + count;
            },
            ActionType::DataExport => {
                summary.total_exports = summary.total_exports + count;
            },
            ActionType::BacktestRun => {
                summary.total_backtests = summary.total_backtests + count;
            },
            ActionType::LiveTradeStart => {
                summary.total_live_trades = summary.total_live_trades + count;
            },
            _ => {},
        }
        i += 1;
    }
    assert(counts@.subrange(0, counts@.len() as int) =~= counts@);
    Ok(summary)
}

} // verus!
