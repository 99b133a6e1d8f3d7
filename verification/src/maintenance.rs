//! The maintenance scheduler: which periodic tasks are due, and the
//! operations that each task performs.

use crate::clock::{rfc3339_of, Instant};
use crate::config::LakehouseConfig;
use crate::log::entry::copy_strings;
use crate::schema::{TABLE_AUDIT_LOG, TABLE_SESSIONS, TABLE_USERS, TABLE_USER_ACTIONS};
use crate::text::{concat3, names_of};
use vstd::prelude::*;

verus! {

/// The periodic tasks.
#[derive(Debug, Clone, Copy, PartialEq, Eq, Structural)]
pub enum MaintenanceTask {
    /// Delete the sessions that have expired.
    SessionCleanup,
    /// Compact every table.
    Compaction,
    /// Cluster each table on its key columns.
    Clustering,
    /// Vacuum every table.
    Vacuum,
}

impl MaintenanceTask {
    /// The default period of a task in seconds: one hour for the session
    /// cleanup, six hours for compaction, a day for clustering and for
    /// vacuum.
    pub open spec fn spec_default_period_secs(self) -> nat {
        match self {
            MaintenanceTask::SessionCleanup => 3_600,
            MaintenanceTask::Compaction => 21_600,
            MaintenanceTask::Clustering => 86_400,
            MaintenanceTask::Vacuum => 86_400,
        }
    }

    /// The default period of the task in seconds.
    pub fn default_period_secs(&self) -> (secs: u64)
        ensures
            secs == self.spec_default_period_secs(),
    {
        match self {
            MaintenanceTask::SessionCleanup => 3_600,
            MaintenanceTask::Compaction => 6 * 3_600,
            MaintenanceTask::Clustering => 24 * 3_600,
            MaintenanceTask::Vacuum => 24 * 3_600,
        }
    }
}

/// One operation on the store that a task performs. A step that fails is
/// logged; the steps after it are performed all the same.
#[derive(Debug, Clone)]
pub enum MaintenanceStep {
    Delete { table: String, predicate: String },
    Compact { table: String },
    Cluster { table: String, columns: Vec<String> },
    Vacuum { table: String, retention_hours: u64, dry_run: bool },
}

/// The mathematical content of a [`MaintenanceStep`].
pub enum StepView {
    Delete { table: Seq<char>, predicate: Seq<char> },
    Compact { table: Seq<char> },
    Cluster { table: Seq<char>, columns: Seq<Seq<char>> },
    Vacuum { table: Seq<char>, retention_hours: u64, dry_run: bool },
}

impl View for MaintenanceStep {
    type V = StepView;

    open spec fn view(&self) -> StepView {
        match self {
            MaintenanceStep::Delete { table, predicate } => StepView::Delete {
                table: table@,
                predicate: predicate@,
            },
            MaintenanceStep::Compact { table } => StepView::Compact { table: table@ },
            MaintenanceStep::Cluster { table, columns } => StepView::Cluster {
                table: table@,
                columns: names_of(columns@),
            },
            MaintenanceStep::Vacuum { table, retention_hours, dry_run } => StepView::Vacuum {
                table: table@,
                retention_hours: *retention_hours,
                dry_run: *dry_run,
            },
        }
    }
}

/// The views of a list of steps, in order.
pub open spec fn steps_view(steps: Seq<MaintenanceStep>) -> Seq<StepView> {
    steps.map_values(|s: MaintenanceStep| s@)
}

/// The tables of the lakehouse, in the order in which they are
/// maintained.
pub open spec fn maintained_tables() -> Seq<Seq<char>> {
    seq![TABLE_USERS@, TABLE_SESSIONS@, TABLE_AUDIT_LOG@, TABLE_USER_ACTIONS@]
}

/// The delete of the sessions that expired before `now`.
pub open spec fn cleanup_step(now: Seq<char>) -> StepView {
    StepView::Delete { table: TABLE_SESSIONS@, predicate: "expires_at < '"@ + now + "'"@ }
}

/// A compaction of every table.
pub open spec fn compaction_steps() -> Seq<StepView> {
    seq![
        StepView::Compact { table: TABLE_USERS@ },
        StepView::Compact { table: TABLE_SESSIONS@ },
        StepView::Compact { table: TABLE_AUDIT_LOG@ },
        StepView::Compact { table: TABLE_USER_ACTIONS@ },
    ]
}

/// A clustering of the sessions and of the audit log on their configured
/// columns, and of the user actions by user and action type.
pub open spec fn clustering_steps(config: LakehouseConfig) -> Seq<StepView> {
    seq![
        StepView::Cluster {
            table: TABLE_SESSIONS@,
            columns: names_of(config.session_z_order_columns@),
        },
        StepView::Cluster {
            table: TABLE_AUDIT_LOG@,
            columns: names_of(config.audit_z_order_columns@),
        },
        StepView::Cluster { table: TABLE_USER_ACTIONS@, columns: seq!["user_id"@, "action_type"@] },
    ]
}

/// A vacuum of every table with the given retention, not a dry run.
pub open spec fn vacuum_steps(retention_hours: u64) -> Seq<StepView> {
    seq![
        StepView::Vacuum { table: TABLE_USERS@, retention_hours, dry_run: false },
        StepView::Vacuum { table: TABLE_SESSIONS@, retention_hours, dry_run: false },
        StepView::Vacuum { table: TABLE_AUDIT_LOG@, retention_hours, dry_run: false },
        StepView::Vacuum { table: TABLE_USER_ACTIONS@, retention_hours, dry_run: false },
    ]
}

/// The steps of one task. The session cleanup needs the time as text.
pub open spec fn task_steps(task: MaintenanceTask, config: LakehouseConfig, now: Seq<char>) -> Seq<
    StepView,
> {
    match task {
        MaintenanceTask::SessionCleanup => seq![cleanup_step(now)],
        MaintenanceTask::Compaction => compaction_steps(),
        MaintenanceTask::Clustering => clustering_steps(config),
        MaintenanceTask::Vacuum => vacuum_steps(config.vacuum_retention_hours),
    }
}

fn compact(table: &str) -> (step: MaintenanceStep)
    ensures
        step@ == (StepView::Compact { table: table@ }),
{
    MaintenanceStep::Compact { table: String::from_str(table) }
}

fn vacuum(table: &str, retention_hours: u64) -> (step: MaintenanceStep)
    ensures
        step@ == (StepView::Vacuum { table: table@, retention_hours, dry_run: false }),
{
    MaintenanceStep::Vacuum { table: String::from_str(table), retention_hours, dry_run: false }
}

/// Appends the compaction of every table to `steps`.
fn push_compactions(steps: &mut Vec<MaintenanceStep>)
    ensures
        steps_view(final(steps)@) == steps_view(old(steps)@) + compaction_steps(),
{
    steps.push(compact(TABLE_USERS));
    steps.push(compact(TABLE_SESSIONS));
    steps.push(compact(TABLE_AUDIT_LOG));
    steps.push(compact(TABLE_USER_ACTIONS));
    assert(steps_view(steps@) =~= steps_view(old(steps)@) + compaction_steps());
}

/// Appends the vacuum of every table to `steps`.
fn push_vacuums(steps: &mut Vec<MaintenanceStep>, retention_hours: u64)
    ensures
        steps_view(final(steps)@) == steps_view(old(steps)@) + vacuum_steps(retention_hours),
{
    steps.push(vacuum(TABLE_USERS, retention_hours));
    steps.push(vacuum(TABLE_SESSIONS, retention_hours));
    steps.push(vacuum(TABLE_AUDIT_LOG, retention_hours));
    steps.push(vacuum(TABLE_USER_ACTIONS, retention_hours));
    assert(steps_view(steps@) =~= steps_view(old(steps)@) + vacuum_steps(retention_hours));
}

/// The delete of the sessions that expired before `now`.
pub fn session_cleanup(now: &str) -> (step: MaintenanceStep)
    ensures
        step@ == cleanup_step(now@),
{
    MaintenanceStep::Delete {
        table: String::from_str(TABLE_SESSIONS),
        predicate: concat3("expires_at < '", now, "'"),
    }
}

/// The steps that a task performs when it is due.
pub fn steps_of(task: MaintenanceTask, config: &LakehouseConfig, now: &str) -> (steps: Vec<
    MaintenanceStep,
>)
    ensures
        steps_view(steps@) == task_steps(task, *config, now@),
{
    let mut steps: Vec<MaintenanceStep> = Vec::new();
    assert(steps_view(steps@) =~= Seq::empty());
    match task {
        MaintenanceTask::SessionCleanup => {
            steps.push(session_cleanup(now));
            assert(steps_view(steps@) =~= seq![cleanup_step(now@)]);
        },
        MaintenanceTask::Compaction => {
            push_compactions(&mut steps);
            assert(steps_view(steps@) =~= compaction_steps());
        },
        MaintenanceTask::Clustering => {
            let mut user_action_columns: Vec<String> = Vec::new();
            user_action_columns.push(String::from_str("user_id"));
            user_action_columns.push(String::from_str("action_type"));
            assert(names_of(user_action_columns@) =~= seq!["user_id"@, "action_type"@]);
            steps.push(
                MaintenanceStep::Cluster {
                    table: String::from_str(TABLE_SESSIONS),
                    columns: copy_strings(&config.session_z_order_columns),
                },
            );
            steps.push(
                MaintenanceStep::Cluster {
                    table: String::from_str(TABLE_AUDIT_LOG),
                    columns: copy_strings(&config.audit_z_order_columns),
                },
            );
            steps.push(
                MaintenanceStep::Cluster {
                    table: String::from_str(TABLE_USER_ACTIONS),
                    columns: user_action_columns,
                },
            );
            assert(steps_view(steps@) =~= clustering_steps(*config));
        },
        MaintenanceTask::Vacuum => {
            push_vacuums(&mut steps, config.vacuum_retention_hours);
            assert(steps_view(steps@) =~= vacuum_steps(config.vacuum_retention_hours));
        },
    }
    steps
}

/// One pass of maintenance at the time `now`: the session cleanup, the
/// compaction of every table, and the vacuum of every table.
pub fn run_once_at(config: &LakehouseConfig, now: &str) -> (steps: Vec<MaintenanceStep>)
    ensures
        steps_view(steps@) == seq![cleanup_step(now@)] + compaction_steps() + vacuum_steps(
            config.vacuum_retention_hours,
        ),
{
    let mut steps: Vec<MaintenanceStep> = Vec::new();
    steps.push(session_cleanup(now));
    assert(steps_view(steps@) =~= seq![cleanup_step(now@)]);
    push_compactions(&mut steps);
    push_vacuums(&mut steps, config.vacuum_retention_hours);
    steps
}

/// A task and when it runs.
#[derive(Debug, Clone, Copy, PartialEq, Eq, Structural)]
pub struct ScheduledTask {
    pub task: MaintenanceTask,
    /// The task's period in milliseconds.
    pub period_ms: u64,
    /// The time at which the task runs next, in milliseconds since the
    /// Unix epoch.
    pub next_due_ms: i64,
}

impl ScheduledTask {
    /// The task as scheduled after it has run once: due one period
    /// later, or never again where that time cannot be written.
    pub open spec fn advanced(self) -> ScheduledTask {
        ScheduledTask {
            next_due_ms: if self.next_due_ms + self.period_ms > i64::MAX {
                i64::MAX
            } else {
                (self.next_due_ms + self.period_ms) as i64
            },
            ..self
        }
    }
}

/// The tasks in `tasks` that are due at `now_ms`, in order.
pub open spec fn due_at(tasks: Seq<ScheduledTask>, now_ms: i64) -> Seq<MaintenanceTask>
    decreases tasks.len(),
{
    if tasks.len() == 0 {
        Seq::empty()
    } else if tasks.last().next_due_ms <= now_ms {
        due_at(tasks.drop_last(), now_ms).push(tasks.last().task)
    } else {
        due_at(tasks.drop_last(), now_ms)
    }
}

/// The background maintenance scheduler.
#[derive(Debug, Clone)]
pub struct MaintenanceScheduler {
    config: LakehouseConfig,
    tasks: Vec<ScheduledTask>,
}

impl MaintenanceScheduler {
    /// The tasks that are running, in the order in which they were
    /// started.
    pub closed spec fn tasks(&self) -> Seq<ScheduledTask> {
        self.tasks@
    }

    /// The configuration that the scheduler maintains the store with.
    pub closed spec fn settings(&self) -> LakehouseConfig {
        self.config
    }

    /// A scheduler that runs nothing yet.
    pub fn new(config: LakehouseConfig) -> (scheduler: MaintenanceScheduler)
        ensures
            scheduler.tasks().len() == 0,
            scheduler.settings() == config,
    {
        MaintenanceScheduler { config, tasks: Vec::new() }
    }

    /// Starts a task with a period in seconds. It runs first at once, at
    /// `now_ms`, and then once per period.
    fn start_task(&mut self, task: MaintenanceTask, period_secs: u64, now_ms: i64)
        ensures
            final(self).settings() == old(self).settings(),
            final(self).tasks() == old(self).tasks().push(
                ScheduledTask {
                    task,
                    period_ms: if period_secs * 1000 > u64::MAX {
                        u64::MAX
                    } else {
                        (period_secs * 1000) as u64
                    },
                    next_due_ms: now_ms,
                },
            ),
    {
        let period_ms = if period_secs > u64::MAX / 1000 {
            u64::MAX
        } else {
            period_secs * 1000
        };
        self.tasks.push(ScheduledTask { task, period_ms, next_due_ms: now_ms });
    }

    /// Starts the periodic cleanup of expired sessions.
    pub fn start_session_cleanup(&mut self, period_secs: u64, now_ms: i64)
        ensures
            final(self).settings() == old(self).settings(),
            final(self).tasks().len() == old(self).tasks().len() + 1,
            final(self).tasks().drop_last() == old(self).tasks(),
            final(self).tasks().last().task == MaintenanceTask::SessionCleanup,
            final(self).tasks().last().next_due_ms == now_ms,
            period_secs * 1000 <= u64::MAX ==> final(self).tasks().last().period_ms == period_secs
                * 1000,
    {
        self.start_task(MaintenanceTask::SessionCleanup, period_secs, now_ms);
        assert(self.tasks().drop_last() =~= old(self).tasks());
    }

    /// Starts the periodic compaction of all tables.
    pub fn start_compaction(&mut self, period_secs: u64, now_ms: i64)
        ensures
            final(self).settings() == old(self).settings(),
            final(self).tasks().len() == old(self).tasks().len() + 1,
            final(self).tasks().drop_last() == old(self).tasks(),
            final(self).tasks().last().task == MaintenanceTask::Compaction,
            final(self).tasks().last().next_due_ms == now_ms,
            period_secs * 1000 <= u64::MAX ==> final(self).tasks().last().period_ms == period_secs
                * 1000,
    {
        self.start_task(MaintenanceTask::Compaction, period_secs, now_ms);
        assert(self.tasks().drop_last() =~= old(self).tasks());
    }

    /// Starts the periodic clustering.
    pub fn start_z_order(&mut self, period_secs: u64, now_ms: i64)
        ensures
            final(self).settings() == old(self).settings(),
            final(self).tasks().len() == old(self).tasks().len() + 1,
            final(self).tasks().drop_last() == old(self).tasks(),
            final(self).tasks().last().task == MaintenanceTask::Clustering,
            final(self).tasks().last().next_due_ms == now_ms,
            period_secs * 1000 <= u64::MAX ==> final(self).tasks().last().period_ms == period_secs
                * 1000,
    {
        self.start_task(MaintenanceTask::Clustering, period_secs, now_ms);
        assert(self.tasks().drop_last() =~= old(self).tasks());
    }

    /// Starts the periodic vacuum.
    pub fn start_vacuum(&mut self, period_secs: u64, now_ms: i64)
        ensures
            final(self).settings() == old(self).settings(),
            final(self).tasks().len() == old(self).tasks().len() + 1,
            final(self).tasks().drop_last() == old(self).tasks(),
            final(self).tasks().last().task == MaintenanceTask::Vacuum,
            final(self).tasks().last().next_due_ms == now_ms,
            period_secs * 1000 <= u64::MAX ==> final(self).tasks().last().period_ms == period_secs
                * 1000,
    {
        self.start_task(MaintenanceTask::Vacuum, period_secs, now_ms);
        assert(self.tasks().drop_last() =~= old(self).tasks());
    }

    /// Starts all four tasks with their default periods: the session
    /// cleanup every hour, compaction every six hours, clustering and
    /// vacuum every day.
    pub fn start(&mut self, now_ms: i64)
        ensures
            final(self).settings() == old(self).settings(),
            final(self).tasks() == old(self).tasks() + seq![
                ScheduledTask {
                    task: MaintenanceTask::SessionCleanup,
                    period_ms: 3_600_000,
                    next_due_ms: now_ms,
                },
                ScheduledTask {
                    task: MaintenanceTask::Compaction,
                    period_ms: 21_600_000,
                    next_due_ms: now_ms,
                },
                ScheduledTask {
                    task: MaintenanceTask::Clustering,
                    period_ms: 86_400_000,
                    next_due_ms: now_ms,
                },
                ScheduledTask {
                    task: MaintenanceTask::Vacuum,
                    period_ms: 86_400_000,
                    next_due_ms: now_ms,
                },
            ],
    {
        self.start_task(
            MaintenanceTask::SessionCleanup,
            MaintenanceTask::SessionCleanup.default_period_secs(),
            now_ms,
        );
        self.start_task(
            MaintenanceTask::Compaction,
            MaintenanceTask::Compaction.default_period_secs(),
            now_ms,
        );
        self.start_task(
            MaintenanceTask::Clustering,
            MaintenanceTask::Clustering.default_period_secs(),
            now_ms,
        );
        self.start_task(
            MaintenanceTask::Vacuum,
            MaintenanceTask::Vacuum.default_period_secs(),
            now_ms,
        );
        assert(self.tasks() =~= old(self).tasks() + seq![
            ScheduledTask {
                task: MaintenanceTask::SessionCleanup,
                period_ms: 3_600_000,
                next_due_ms: now_ms,
            },
            ScheduledTask {
                task: MaintenanceTask::Compaction,
                period_ms: 21_600_000,
                next_due_ms: now_ms,
            },
            ScheduledTask {
                task: MaintenanceTask::Clustering,
                period_ms: 86_400_000,
                next_due_ms: now_ms,
            },
            ScheduledTask {
                task: MaintenanceTask::Vacuum,
                period_ms: 86_400_000,
                next_due_ms: now_ms,
            },
        ]);
    }

    /// The tasks that are due at `now_ms`, in the order in which they
    /// were started. Each of them is rescheduled one period after the
    /// time at which it was due; the others stay as they are.
    pub fn tick(&mut self, now_ms: i64) -> (due: Vec<MaintenanceTask>)
        ensures
            final(self).settings() == old(self).settings(),
            due@ == due_at(old(self).tasks(), now_ms),
            final(self).tasks().len() == old(self).tasks().len(),
            forall|i: int|
                0 <= i < old(self).tasks().len() ==> (#[trigger] final(self).tasks()[i]) == if old(
                    self,
                ).tasks()[i].next_due_ms <= now_ms {
                    old(self).tasks()[i].advanced()
                } else {
                    old(self).tasks()[i]
                },
    {
        let mut due: Vec<MaintenanceTask> = Vec::new();
        let mut i: usize = 0;
        assert(old(self).tasks().subrange(0, 0) =~= Seq::empty());
        while i < self.tasks.len()
            invariant
                i <= self.tasks.len(),
                self.config == old(self).config,
                self.tasks@.len() == old(self).tasks@.len(),
                due@ == due_at(old(self).tasks@.subrange(0, i as int), now_ms),
                forall|j: int|
                    0 <= j < i ==> (#[trigger] self.tasks@[j]) == if old(self).tasks@[j].next_due_ms
                        <= now_ms {
                        old(self).tasks@[j].advanced()
                    } else {
                        old(self).tasks@[j]
                    },
                forall|j: int| i <= j < self.tasks@.len() ==> self.tasks@[j] == old(self).tasks@[j],
            decreases self.tasks.len() - i,
        {
            let ghost prefix = old(self).tasks@.subrange(0, i as int + 1);
            assert(prefix.drop_last() =~= old(self).tasks@.subrange(0, i as int));
            assert(prefix.last() == old(self).tasks@[i as int]);
            let scheduled = self.tasks[i];
            if scheduled.next_due_ms <= now_ms {
                due.push(scheduled.task);
                let next: i128 = scheduled.next_due_ms as i128 + scheduled.period_ms as i128;
                let next_due_ms = if next > i64::MAX as i128 {
                    i64::MAX
                } else {
                    next as i64
                };
                self.tasks.set(i, ScheduledTask { next_due_ms, ..scheduled });
            }
            i += 1;
        }
        assert(old(self).tasks@.subrange(0, old(self).tasks@.len() as int) =~= old(self).tasks@);
        due
    }

    /// The steps that a due task performs, with the clock's reading for
    /// the session cleanup. Where the reading has no text, the cleanup
    /// has no steps.
    pub fn steps(&self, task: MaintenanceTask) -> (steps: Vec<MaintenanceStep>)
        ensures
            !(task is SessionCleanup) ==> steps_view(steps@) == task_steps(
                task,
                self.settings(),
                Seq::empty(),
            ),
            task is SessionCleanup ==> steps@.len() <= 1 && (steps@.len() == 1 ==> exists|
                secs: int,
                nanos: int,
            |
                #![trigger rfc3339_of(secs, nanos)]
                rfc3339_of(secs, nanos) matches Some(now) && steps_view(steps@) == seq![
                    cleanup_step(now),
                ]),
    {
        match task {
            MaintenanceTask::SessionCleanup => {
                let now = Instant::now();
                match now.to_rfc3339() {
                    Some(text) => {
                        let steps = steps_of(task, &self.config, text.as_str());
                        assert(rfc3339_of(now.secs as int, now.nanos as int) == Some(text@));
                        assert(steps_view(steps@).len() == 1);
                        steps
                    },
                    None => Vec::new(),
                }
            },
            _ => steps_of(task, &self.config, ""),
        }
    }

    /// One pass of maintenance, for command lines and tests: the session
    /// cleanup as of the clock's reading, then the compaction of every
    /// table, then the vacuum of every table with the configured
    /// retention. The tasks are independent: where the reading has no
    /// text, only the cleanup, which needs it, is left out.
    pub fn run_once(config: &LakehouseConfig) -> (steps: Vec<MaintenanceStep>)
        ensures
            exists|secs: int, nanos: int|
                #![trigger rfc3339_of(secs, nanos)]
                match rfc3339_of(secs, nanos) {
                    Some(now) => steps_view(steps@) == seq![cleanup_step(now)]
                        + compaction_steps() + vacuum_steps(config.vacuum_retention_hours),
                    None => steps_view(steps@) == compaction_steps() + vacuum_steps(
                        config.vacuum_retention_hours,
                    ),
                },
    {
        let now = Instant::now();
        let steps = match now.to_rfc3339() {
            Some(text) => run_once_at(config, text.as_str()),
            None => {
                let mut steps: Vec<MaintenanceStep> = Vec::new();
                assert(steps_view(steps@) =~= Seq::empty());
                push_compactions(&mut steps);
                push_vacuums(&mut steps, config.vacuum_retention_hours);
                assert(steps_view(steps@) =~= compaction_steps() + vacuum_steps(
                    config.vacuum_retention_hours,
                ));
                steps
            },
        };
        assert(match rfc3339_of(now.secs as int, now.nanos as int) {
            Some(text) => steps_view(steps@) == seq![cleanup_step(text)] + compaction_steps()
                + vacuum_steps(config.vacuum_retention_hours),
            None => steps_view(steps@) == compaction_steps() + vacuum_steps(
                config.vacuum_retention_hours,
            ),
        });
        steps
    }

    /// Stops all tasks.
    pub fn stop(&mut self)
        ensures
            final(self).settings() == old(self).settings(),
            final(self).tasks().len() == 0,
    {
        self.tasks.clear();
    }
}

} // verus!
