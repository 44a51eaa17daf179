//! The sync engine: when a pass runs, what it does in which order, and what the
//! rest of the app sees of it.
use vstd::prelude::*;

use crate::config::{resolve_workspace, resolved, workspace_views, Config, Workspace, WorkspaceView};
use crate::github::RateLimit;
use crate::http::opt_text;
use crate::time;
use crate::time::{is_clock_time, is_due, is_timed, Timestamp, CLOCK_SPAN};

verus! {

broadcast use vstd::string::group_string_axioms;

/// Where the time of the last complete pass is remembered.
pub const LAST_SYNC_KEY: &'static str = "last_sync";

/// Where the time of the last rebuild of the cache is remembered.
pub const LAST_REBUILD_KEY: &'static str = "last_rebuild";

// ---- status ---------------------------------------------------------------

/// Live view of sync state shared with the API handlers.
#[derive(Debug, Clone)]
pub struct SyncStatus {
    pub running: bool,
    pub last_sync: Option<String>,
    pub last_error: Option<String>,
    pub rate_limit: Option<RateLimit>,
    /// Whether a manual "dismiss closed/merged" pass is in flight.
    pub dismiss_running: bool,
    /// Count from the last completed manual dismiss pass.
    pub last_dismiss: Option<usize>,
}

impl Default for SyncStatus {
    fn default() -> (r: SyncStatus)
        ensures
            !r.running,
            r.last_sync is None,
            r.last_error is None,
            r.rate_limit is None,
            !r.dismiss_running,
            r.last_dismiss is None,
    {
        SyncStatus {
            running: false,
            last_sync: None,
            last_error: None,
            rate_limit: None,
            dismiss_running: false,
            last_dismiss: None,
        }
    }
}

/// The status when a pass has begun: the error of the last one is forgotten.
pub open spec fn begun(s: SyncStatus) -> SyncStatus {
    SyncStatus { running: true, last_error: None, ..s }
}

/// The status when a pass has ended at the given time, or with the given error.
pub open spec fn ended(s: SyncStatus, result: Result<String, String>) -> SyncStatus {
    match result {
        Ok(now) => SyncStatus { running: false, last_sync: Some(now), ..s },
        Err(message) => SyncStatus { running: false, last_error: Some(message), ..s },
    }
}

impl SyncStatus {
    /// Begins a pass, unless one is running; the result tells whether it began.
    pub fn begin(&mut self) -> (r: bool)
        ensures
            r == !old(self).running,
            *final(self) == (if old(self).running {
                *old(self)
            } else {
                begun(*old(self))
            }),
    {
        if self.running {
            return false;
        }
        self.running = true;
        self.last_error = None;
        true
    }

    /// Ends a pass. `result` is the time of the pass, or the message of the
    /// error that ended it.
    pub fn finish(&mut self, result: Result<String, String>)
        ensures
            *final(self) == ended(*old(self), result),
    {
        self.running = false;
        match result {
            Ok(now) => {
                self.last_sync = Some(now);
            },
            Err(message) => {
                self.last_error = Some(message);
            },
        }
    }

    /// Notes the rate limit that an answer reports.
    pub fn record_rate_limit(&mut self, rate_limit: RateLimit)
        ensures
            *final(self) == (SyncStatus { rate_limit: Some(rate_limit), ..*old(self) }),
    {
        self.rate_limit = Some(rate_limit);
    }
}

// ---- the course of a pass -------------------------------------------------

/// Why a pass is run.
#[derive(Debug, Clone, Copy, PartialEq, Eq, Structural)]
pub enum Trigger {
    /// The engine has just started.
    Startup,
    /// The poll interval has passed.
    Tick,
    /// The user asked for it, or the configuration has changed.
    Request,
}

impl Trigger {
    /// Whether the pass refreshes the repositories regardless of when they were
    /// last refreshed.
    pub fn forces_refresh(&self) -> (r: bool)
        ensures
            r == (*self != Trigger::Tick),
    {
        match self {
            Trigger::Tick => false,
            _ => true,
        }
    }
}

/// The engine's view of the app: the workspace that the UI is currently showing,
/// whose repos are synced.
#[derive(Debug, Clone)]
pub struct SyncEngine {
    current_workspace: String,
}

impl View for SyncEngine {
    type V = Seq<char>;

    closed spec fn view(&self) -> Seq<char> {
        self.current_workspace@
    }
}

/// A pass to run.
#[derive(Debug, Clone)]
pub struct Pass {
    pub workspace: Workspace,
    /// Whether the pass bypasses the repo-refresh cadence.
    pub force: bool,
}

impl SyncEngine {
    /// An engine that begins with the first workspace.
    pub fn new(config: &Config) -> (r: SyncEngine)
        ensures
            r@ == (if config.workspaces@.len() > 0 {
                config.workspaces@[0].name@
            } else {
                Seq::empty()
            }),
    {
        SyncEngine { current_workspace: config.first_name() }
    }

    /// Record the active workspace (called when the UI switches workspaces).
    pub fn set_current_workspace(&mut self, name: &str)
        ensures
            final(self)@ == name@,
    {
        self.current_workspace = name.to_owned();
    }

    /// The pass to run on a trigger, under the configuration of that moment, so
    /// that edits take effect without a restart. Only the current workspace is
    /// synced.
    pub fn next_pass(&self, config: &Config, trigger: Trigger) -> (r: Pass)
        ensures
            r.workspace@ == resolved(workspace_views(config.workspaces@), self@),
            r.force == (trigger != Trigger::Tick),
    {
        Pass {
            workspace: resolve_workspace(config, self.current_workspace.as_str()),
            force: trigger.forces_refresh(),
        }
    }
}

/// One step of a pass.
#[derive(Debug, Clone, Copy, PartialEq, Eq, Structural)]
pub enum Phase {
    /// Poll the notification inbox.
    Notifications,
    /// Fetch the open issues of every tracked repository.
    Repos,
    /// Fetch the list of watched repositories.
    Watches,
    /// Fetch the subscription of every tracked repository.
    Subscriptions,
    /// Refresh the state of what the notifications are about.
    Subjects,
    /// Remember when the workspace's repositories were refreshed.
    NoteRefresh,
    /// Dismiss the threads of closed pull requests.
    Dismiss,
    /// Remember when the pass was run.
    NoteSync,
}

/// What a pass does besides polling the inbox.
#[derive(Debug, Clone, Copy, PartialEq, Eq, Structural)]
pub struct Plan {
    /// Whether the workspace's repositories are due for a refresh.
    pub refresh: bool,
    /// Whether threads of closed pull requests are dismissed.
    pub dismiss: bool,
}

/// The steps after the refresh, if there was one.
pub open spec fn closing_phases(plan: Plan) -> Seq<Phase> {
    if plan.dismiss {
        seq![Phase::Dismiss, Phase::NoteSync]
    } else {
        seq![Phase::NoteSync]
    }
}

/// The steps of a pass, in order.
pub open spec fn phases(plan: Plan) -> Seq<Phase> {
    let refresh = if plan.refresh {
        seq![
            Phase::Repos,
            Phase::Watches,
            Phase::Subscriptions,
            Phase::Subjects,
            Phase::NoteRefresh,
        ]
    } else {
        Seq::empty()
    };
    seq![Phase::Notifications] + refresh + closing_phases(plan)
}

/// The step after one that has succeeded.
pub open spec fn next_phase(phase: Phase, plan: Plan) -> Option<Phase> {
    match phase {
        Phase::Notifications => if plan.refresh {
            Some(Phase::Repos)
        } else if plan.dismiss {
            Some(Phase::Dismiss)
        } else {
            Some(Phase::NoteSync)
        },
        Phase::Repos => Some(Phase::Watches),
        Phase::Watches => Some(Phase::Subscriptions),
        Phase::Subscriptions => Some(Phase::Subjects),
        Phase::Subjects => Some(Phase::NoteRefresh),
        Phase::NoteRefresh => if plan.dismiss {
            Some(Phase::Dismiss)
        } else {
            Some(Phase::NoteSync)
        },
        Phase::Dismiss => Some(Phase::NoteSync),
        Phase::NoteSync => None,
    }
}

impl Phase {
    /// The step after this one has succeeded. A failure ends the pass.
    pub fn next(&self, plan: Plan) -> (r: Option<Phase>)
        ensures
            r == next_phase(*self, plan),
            *self == Phase::NoteSync <==> r is None,
            *self == Phase::Dismiss ==> r == Some(Phase::NoteSync),
            *self == Phase::Repos ==> r == Some(Phase::Watches),
            *self == Phase::Watches ==> r == Some(Phase::Subscriptions),
            *self == Phase::Subscriptions ==> r == Some(Phase::Subjects),
            *self == Phase::Subjects ==> r == Some(Phase::NoteRefresh),
            *self == Phase::NoteRefresh || (*self == Phase::Notifications && !plan.refresh) ==> r
                == Some(
                if plan.dismiss {
                    Phase::Dismiss
                } else {
                    Phase::NoteSync
                },
            ),
            *self == Phase::Notifications && plan.refresh ==> r == Some(Phase::Repos),
    {
        match self {
            Phase::Notifications => if plan.refresh {
                Some(Phase::Repos)
            } else if plan.dismiss {
                Some(Phase::Dismiss)
            } else {
                Some(Phase::NoteSync)
            },
            Phase::Repos => Some(Phase::Watches),
            Phase::Watches => Some(Phase::Subscriptions),
            Phase::Subscriptions => Some(Phase::Subjects),
            Phase::Subjects => Some(Phase::NoteRefresh),
            Phase::NoteRefresh => if plan.dismiss {
                Some(Phase::Dismiss)
            } else {
                Some(Phase::NoteSync)
            },
            Phase::Dismiss => Some(Phase::NoteSync),
            Phase::NoteSync => None,
        }
    }
}

/// Where the time of a workspace's last repo refresh is remembered. Freshness
/// is tracked per workspace: each workspace only fetches its own repos.
pub fn repo_refresh_key(workspace: &Workspace) -> (r: String)
    ensures
        r@ == "last_repo_refresh:"@ + workspace@.name,
{
    "last_repo_refresh:".to_owned().concat(workspace.name.as_str())
}

/// The plan of a pass that begins at the time `now`. `force` bypasses the
/// repo-refresh cadence.
pub open spec fn planned(
    now: Timestamp,
    workspace: WorkspaceView,
    force: bool,
    last: Option<Seq<char>>,
    refresh_interval: u64,
) -> Plan {
    Plan {
        refresh: force || is_due(now, last, refresh_interval),
        dismiss: workspace.auto_dismiss,
    }
}

/// What a pass for a workspace that begins at the time `now` does besides
/// polling the inbox. `last` is the time of the last refresh.
pub fn plan_at(
    now: &Timestamp,
    workspace: &Workspace,
    force: bool,
    last: &Option<String>,
    refresh_interval: u64,
) -> (r: Plan)
    ensures
        r == planned(*now, workspace@, force, opt_text(*last), refresh_interval),
        !force && is_clock_time(*now) && is_timed(opt_text(*last)) && refresh_interval >= CLOCK_SPAN
            ==> !r.refresh,
{
    plan_for(workspace, force || time::due_at(now, last, refresh_interval))
}

/// What a pass for a workspace does besides polling the inbox, by the clock.
/// `force`, or a last refresh that is missing or cannot be read, settles the
/// plan without it, and so does an interval beyond the span of the clock; for
/// the rest `plan_at` says what each time that it may show leads to.
pub fn plan(
    workspace: &Workspace,
    force: bool,
    last: &Option<String>,
    refresh_interval: u64,
) -> (r: Plan)
    ensures
        r.dismiss == workspace@.auto_dismiss,
        force || !is_timed(opt_text(*last)) ==> r.refresh,
        !force && is_timed(opt_text(*last)) && refresh_interval >= CLOCK_SPAN ==> !r.refresh,
        exists|now: Timestamp|
            is_clock_time(now) && r == #[trigger] planned(
                now,
                workspace@,
                force,
                opt_text(*last),
                refresh_interval,
            ),
{
    let now = time::clock();
    plan_at(&now, workspace, force, last, refresh_interval)
}

/// What a pass for a workspace does, given whether its repositories are due.
/// Threads are dismissed only for a workspace that opted in.
pub fn plan_for(workspace: &Workspace, refresh: bool) -> (r: Plan)
    ensures
        r == (Plan { refresh, dismiss: workspace@.auto_dismiss }),
{
    Plan { refresh, dismiss: workspace.auto_dismiss_closed_merged }
}

/// Whether one of the first `n` results is a failure.
pub open spec fn has_failure(results: Seq<Result<(), String>>, n: int) -> bool {
    exists|i: int| 0 <= i < n && (#[trigger] results[i]) is Err
}

/// The outcome of work that was handed out item by item: the first failure in
/// the order in which the results came in, if there is one.
pub fn first_failure(results: Vec<Result<(), String>>) -> (r: Result<(), String>)
    ensures
        r is Ok <==> !has_failure(results@, results@.len() as int),
        r is Err ==> exists|i: int|
            0 <= i < results@.len() && #[trigger] results@[i] == r && !has_failure(results@, i),
{
    let ghost all = results@;
    for result in it: results.into_iter()
        invariant
            it.seq() == all,
            all == results@,
            !has_failure(all, it.index() as int),
    {
        if result.is_err() {
            assert(all[it.index() as int] == result);
            return result;
        }
    }
    Ok(())
}

// ---- laws -----------------------------------------------------------------

/// The steps from one on.
pub open spec fn phases_from(phase: Phase, plan: Plan) -> Seq<Phase>
    decreases phase_rank(phase),
{
    match next_phase(phase, plan) {
        Some(next) => seq![phase] + phases_from(next, plan),
        None => seq![phase],
    }
}

/// How many steps may follow a step.
pub open spec fn phase_rank(phase: Phase) -> nat {
    match phase {
        Phase::Notifications => 7,
        Phase::Repos => 6,
        Phase::Watches => 5,
        Phase::Subscriptions => 4,
        Phase::Subjects => 3,
        Phase::NoteRefresh => 2,
        Phase::Dismiss => 1,
        Phase::NoteSync => 0,
    }
}

/// A pass takes its steps in order: it polls the inbox first, refreshes only
/// when that is due, dismisses only after the refresh and only where that is
/// asked for, and notes its time last.
pub proof fn law_pass_takes_its_steps(plan: Plan)
    ensures
        phases_from(Phase::Notifications, plan) == phases(plan),
{
    reveal_with_fuel(phases_from, 9);
    assert(phases_from(Phase::NoteSync, plan) =~= seq![Phase::NoteSync]);
    assert(phases_from(Phase::Dismiss, plan) =~= seq![Phase::Dismiss, Phase::NoteSync]);
    assert(phases_from(Phase::NoteRefresh, plan) =~= seq![Phase::NoteRefresh] + closing_phases(
        plan,
    ));
    assert(phases_from(Phase::Subjects, plan) =~= seq![Phase::Subjects, Phase::NoteRefresh]
        + closing_phases(plan));
    assert(phases_from(Phase::Subscriptions, plan) =~= seq![
        Phase::Subscriptions,
        Phase::Subjects,
        Phase::NoteRefresh,
    ] + closing_phases(plan));
    assert(phases_from(Phase::Watches, plan) =~= seq![
        Phase::Watches,
        Phase::Subscriptions,
        Phase::Subjects,
        Phase::NoteRefresh,
    ] + closing_phases(plan));
    assert(phases_from(Phase::Repos, plan) =~= seq![
        Phase::Repos,
        Phase::Watches,
        Phase::Subscriptions,
        Phase::Subjects,
        Phase::NoteRefresh,
    ] + closing_phases(plan));
    assert(phases_from(Phase::Notifications, plan) =~= phases(plan));
}

/// The time of the last complete pass is never lost: a pass that fails keeps
/// it, and notes its error instead; after either end another pass may begin.
pub proof fn law_failed_pass_keeps_last_sync(s: SyncStatus, message: String)
    ensures
        ended(begun(s), Err(message)).last_sync == s.last_sync,
        ended(begun(s), Err(message)).last_error == Some(message),
        !ended(begun(s), Err(message)).running,
{
}

/// A pass that succeeds leaves no error behind.
pub proof fn law_successful_pass_clears_error(s: SyncStatus, now: String)
    ensures
        ended(begun(s), Ok(now)).last_sync == Some(now),
        ended(begun(s), Ok(now)).last_error is None,
        !ended(begun(s), Ok(now)).running,
{
}

/// The steps of a pass for each plan: the inbox first and the note of the pass
/// last; between them the repositories, the watches, the subscriptions, the
/// subjects and the note of the refresh, when a refresh is due, and then the
/// dismissal, when it is asked for.
pub proof fn law_steps_of_each_plan(plan: Plan)
    ensures
        !plan.refresh && !plan.dismiss ==> phases_from(Phase::Notifications, plan) == seq![
            Phase::Notifications,
            Phase::NoteSync,
        ],
        !plan.refresh && plan.dismiss ==> phases_from(Phase::Notifications, plan) == seq![
            Phase::Notifications,
            Phase::Dismiss,
            Phase::NoteSync,
        ],
        plan.refresh && !plan.dismiss ==> phases_from(Phase::Notifications, plan) == seq![
            Phase::Notifications,
            Phase::Repos,
            Phase::Watches,
            Phase::Subscriptions,
            Phase::Subjects,
            Phase::NoteRefresh,
            Phase::NoteSync,
        ],
        plan.refresh && plan.dismiss ==> phases_from(Phase::Notifications, plan) == seq![
            Phase::Notifications,
            Phase::Repos,
            Phase::Watches,
            Phase::Subscriptions,
            Phase::Subjects,
            Phase::NoteRefresh,
            Phase::Dismiss,
            Phase::NoteSync,
        ],
{
    law_pass_takes_its_steps(plan);
    let all = phases(plan);
    if plan.refresh {
        if plan.dismiss {
            assert(all =~= seq![
                Phase::Notifications,
                Phase::Repos,
                Phase::Watches,
                Phase::Subscriptions,
                Phase::Subjects,
                Phase::NoteRefresh,
                Phase::Dismiss,
                Phase::NoteSync,
            ]);
        } else {
            assert(all =~= seq![
                Phase::Notifications,
                Phase::Repos,
                Phase::Watches,
                Phase::Subscriptions,
                Phase::Subjects,
                Phase::NoteRefresh,
                Phase::NoteSync,
            ]);
        }
    } else if plan.dismiss {
        assert(all =~= seq![Phase::Notifications, Phase::Dismiss, Phase::NoteSync]);
    } else {
        assert(all =~= seq![Phase::Notifications, Phase::NoteSync]);
    }
}

/// When repositories are refreshed: always when that is forced, or when the last
/// refresh is not known; otherwise exactly when at least the interval has passed
/// since. Threads are dismissed exactly for a workspace that opted in. The times
/// lie outside leap seconds.
pub proof fn law_refresh_keeps_its_cadence(
    now: Timestamp,
    ws: WorkspaceView,
    last: Seq<char>,
    interval: u64,
)
    ensures
        planned(now, ws, true, Some(last), interval).refresh,
        planned(now, ws, false, None, interval).refresh,
        time::instant_of(last) is None ==> planned(now, ws, false, Some(last), interval).refresh,
        time::instant_of(last) matches Some(t) ==> (t.nanos < 1_000_000_000 && now.nanos
            < 1_000_000_000 ==> (planned(now, ws, false, Some(last), interval).refresh <==> (now.secs
            - t.secs) * 1_000_000_000 + now.nanos - t.nanos >= interval * 1_000_000_000)),
        forall|force: bool| (#[trigger] planned(now, ws, force, Some(last), interval)).dismiss
            == ws.auto_dismiss,
{
}

/// A pass that runs keeps another from beginning, and a pass that begins forgets
/// the error of the one before it; nothing else of the status changes.
pub proof fn law_beginning_changes_nothing_else(s: SyncStatus)
    ensures
        begun(s).running,
        begun(s).last_error is None,
        begun(s).last_sync == s.last_sync,
        begun(s).rate_limit == s.rate_limit,
        begun(s).dismiss_running == s.dismiss_running,
        begun(s).last_dismiss == s.last_dismiss,
        forall|r: Result<String, String>|
            (#[trigger] ended(s, r)).rate_limit == s.rate_limit && !ended(s, r).running && ended(
                s,
                r,
            ).dismiss_running == s.dismiss_running && ended(s, r).last_dismiss == s.last_dismiss,
        forall|now: String| #[trigger]
            ended(s, Ok(now)).last_sync == Some(now) && ended(s, Ok(now)).last_error == s.last_error,
        forall|m: String| #[trigger]
            ended(s, Err(m)).last_error == Some(m) && ended(s, Err(m)).last_sync == s.last_sync,
{
}

} // verus!
