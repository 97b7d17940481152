//! The agent's run as a state machine: from the current state and what the
//! outside world reports, to the next state and what to do next.

use vstd::prelude::*;
use rand::Rng;
use crate::agent::{
    empty_month_dates, fetch_view, fetch_views, fetched_slots, relaxed_month_dates, is_found_event, is_notification,
    month_fetches, page_views, slot_dates, slot_views, unseen_slots, Agent, AgentError,
    AgentEvent, AvailabilitySlot, BookingPlan, MonthFetch, Notification,
};
use crate::booker::{transport_message, transport_step, Backoff, TransportError};
use crate::calendar::{date_text, rfc3339_text, LocalTime, LocalTimeView, NANOS_PER_SEC};
use crate::config::{clock_reading_ok, is_drop_time, lookup, Config, DropTime, Mode};
use crate::text::string_views;

verus! {

/// `rand::thread_rng().gen_range(0..bound)`: a number below `bound`.
/// `gen_range` panics on an empty range.
#[verifier::external_body]
fn random_below(bound: u64) -> (r: u64)
    requires
        bound > 0,
    ensures
        r < bound,
{
    rand::thread_rng().gen_range(0..bound)
}

/// The largest number of seconds `TimeDelta::seconds` accepts.
pub const MAX_DELTA_SECS: u64 = 9_223_372_036_854_775;

/// The largest jitter, in seconds, whose milliseconds (plus one) fit a `u64`.
pub const MAX_JITTER_SECS: u64 = 18_446_744_073_709_551;

/// The times of a run: the drop time with the strike moment it comes from,
/// the time to pre-warm, and the end of the check window.
#[derive(Clone, Copy, Debug)]
pub struct RunPlan {
    pub drop_time: LocalTime,
    pub strike_moment: Option<LocalTime>,
    pub pre_warm_deadline: LocalTime,
    pub window_end: LocalTime,
}

/// The plan for a drop time: pre-warming starts `pre_warm_offset` seconds
/// before it, the check window ends `check_window` seconds after it.
pub open spec fn is_run_plan(p: RunPlan, config: Config, drop: DropTime) -> bool {
    &&& p.drop_time == drop.time
    &&& p.strike_moment == drop.strike_moment
    &&& p.pre_warm_deadline@.wf()
    &&& p.window_end@.wf()
    &&& p.pre_warm_deadline@.instant() == drop.time@.instant() - config.pre_warm_offset
        * NANOS_PER_SEC
    &&& p.window_end@.instant() == drop.time@.instant() + config.check_window * NANOS_PER_SEC
}

/// The settings a run relies on: durations `TimeDelta::seconds` accepts.
pub open spec fn run_settings_ok(config: Config) -> bool {
    &&& config.pre_warm_offset <= MAX_DELTA_SECS
    &&& config.check_window <= MAX_DELTA_SECS
    &&& config.request_jitter <= MAX_JITTER_SECS
}

impl Agent {
    /// The times of a run with the given drop time; `None` where one of them
    /// falls outside chrono's range.
    pub fn run_plan(&self, drop: &DropTime) -> (r: Option<RunPlan>)
        requires
            drop.time@.wf(),
            run_settings_ok(self.settings()),
        ensures
            r matches Some(p) ==> is_run_plan(p, self.settings(), *drop),
            r is Some <==> crate::calendar::SAFE_TIMESTAMP_MIN <= drop.time@.timestamp
                - self.settings().pre_warm_offset && drop.time@.timestamp
                + self.settings().check_window <= crate::calendar::SAFE_TIMESTAMP,
    {
        let config = self.config();
        let back = config.pre_warm_offset as i64;
        let ahead = config.check_window as i64;
        let ts = drop.time.timestamp();
        if ts - back < crate::calendar::SAFE_TIMESTAMP_MIN || ts + ahead
            > crate::calendar::SAFE_TIMESTAMP {
            return None;
        }
        let deadline = drop.time.checked_add_seconds(-back);
        let end = drop.time.checked_add_seconds(ahead);
        match (deadline, end) {
            (Some(pre_warm_deadline), Some(window_end)) => Some(
                RunPlan {
                    drop_time: drop.time,
                    strike_moment: drop.strike_moment,
                    pre_warm_deadline,
                    window_end,
                },
            ),
            _ => None,
        }
    }

    /// The random pause before a check: at most `request_jitter` seconds,
    /// in milliseconds.
    pub fn jitter_ms(&self) -> (r: u64)
        requires
            self.settings().request_jitter <= MAX_JITTER_SECS,
        ensures
            r <= self.settings().request_jitter * 1000,
    {
        random_below(self.config().request_jitter * 1000 + 1)
    }
}

/// Where a run stands.
#[derive(Clone, Copy, Debug, PartialEq, Eq, Structural)]
pub enum RunPhase {
    /// Not started.
    Idle,
    /// Waiting for the time to pre-warm; `slept` once the long sleep is
    /// done and the run spins on the clock.
    WaitingForPreWarm { slept: bool },
    /// Waiting for the pre-warming request.
    PreWarming,
    /// Waiting for the drop time; `slept` as above.
    WaitingForDrop { slept: bool },
    /// In the check window, waiting for the clock before a check.
    Checking,
    /// Waiting for the pages of a check.
    AwaitingFetch,
    /// Waiting for the notification to be sent.
    Notifying,
    /// Waiting for the booking attempts.
    Booking,
    /// Done.
    Finished,
}

/// Why a run stopped without finishing.
#[derive(Clone, Debug)]
pub enum RunError {
    /// The clock reads outside the range the drop time can be computed in.
    ClockOutOfRange,
    /// The pre-warming time or the end of the check window lies outside
    /// chrono's range.
    TimeOutOfRange,
    /// Every pre-warming request failed; the last error.
    PreWarmFailed(String),
    /// The notification could not be sent.
    NotificationFailed(String),
    /// Booking needs an active site and a selected credential.
    Booking(AgentError),
}

/// What the outside world is to do next.
#[derive(Debug)]
pub enum RunAction {
    /// Log the event.
    Emit(AgentEvent),
    /// Request the URL to set up the connection and cookies.
    PreWarm(String),
    /// Sleep for milliseconds.
    SleepMillis(u64),
    /// Sleep for seconds.
    SleepSeconds(u64),
    /// Read the clock and report it.
    ReadClock,
    /// Fetch each URL and report the pages, `None` for a failed fetch.
    Fetch(Vec<String>),
    /// Log a warning.
    Warn(String),
    /// Send the notification and report whether it went out.
    Notify(Notification),
    /// Try the bookings of the plan.
    Book(BookingPlan),
    /// The run is over.
    Finish,
    /// The run stops with an error.
    Fail(RunError),
}

/// The state of a run.
#[derive(Debug)]
pub struct Run {
    pub phase: RunPhase,
    pub plan: Option<RunPlan>,
    pub check_count: u32,
    pub found: Vec<AvailabilitySlot>,
    pub notification_title: Option<String>,
    pub pre_warm: Backoff,
    pub fetches: Vec<MonthFetch>,
}

/// The action logs an event with this name and no data.
pub open spec fn emits(a: RunAction, name: Seq<char>) -> bool {
    a matches RunAction::Emit(e) && e.event@ == name && e.fields().len() == 0
}

/// `Finish` comes only last, right after the `agent_finished` event.
pub open spec fn finishes_properly(actions: Seq<RunAction>) -> bool {
    forall|i: int|
        0 <= i < actions.len() && (#[trigger] actions[i] is Finish) ==> i == actions.len() - 1
            && i >= 1 && emits(actions[i - 1], "agent_finished"@)
}

fn emit(name: &str) -> (r: RunAction)
    ensures
        emits(r, name@),
{
    RunAction::Emit(AgentEvent::new(name))
}

impl Run {
    /// A run not yet started.
    pub fn new() -> (r: Run)
        ensures
            r.phase == RunPhase::Idle,
            r.plan is None,
            r.check_count == 0,
            r.found@.len() == 0,
            r.notification_title is None,
            r.pre_warm.timeouts == 0 && r.pre_warm.network_errors == 0
                && r.pre_warm.last_pause_ms == 0,
            r.fetches@.len() == 0,
    {
        Run {
            phase: RunPhase::Idle,
            plan: None,
            check_count: 0,
            found: Vec::new(),
            notification_title: None,
            pre_warm: Backoff::new(),
            fetches: Vec::new(),
        }
    }
}

/// The time written as chrono writes it in RFC 3339 form.
pub open spec fn time_text(t: LocalTimeView) -> Seq<char> {
    rfc3339_text(t.timestamp, t.nanosecond, t.offset)
}

/// The action logs `agent_start` with the run id and the drop time.
pub open spec fn is_start_event(a: RunAction, run_id: Seq<char>, drop: LocalTimeView) -> bool {
    a matches RunAction::Emit(e) && e.event@ == "agent_start"@ && crate::agent::distinct_keys(
        e.fields(),
    ) && crate::agent::field_value(e.fields(), "run_id"@) == Some(run_id)
        && crate::agent::field_value(e.fields(), "drop_time"@) == Some(time_text(drop))
}

impl Agent {
    /// Starts a run at `now`: computes the drop time and the run's times,
    /// logs `agent_start`, and waits for the time to pre-warm.
    pub fn start_run(&self, run: &mut Run, run_id: String, now: &LocalTime) -> (actions: Vec<
        RunAction,
    >)
        requires
            old(run).phase == RunPhase::Idle,
            now@.wf(),
            run_settings_ok(self.settings()),
        ensures
            finishes_properly(actions@),
            final(run).check_count == 0,
            final(run).found@.len() == 0,
            final(run).fetches@.len() == 0,
            !clock_reading_ok(now@) ==> final(run).phase == RunPhase::Finished && actions@.len()
                == 1 && (actions@[0] matches RunAction::Fail(RunError::ClockOutOfRange)),
            clock_reading_ok(now@) && final(run).plan is None ==> final(run).phase
                == RunPhase::Finished && actions@.len() == 1 && (actions@[0] matches RunAction::Fail(
                RunError::TimeOutOfRange,
            )),
            final(run).plan matches Some(p) ==> clock_reading_ok(now@) && is_drop_time(
                (DropTime { strike_moment: p.strike_moment, time: p.drop_time }),
                self.settings().strike_time@,
                now@,
            ) && is_run_plan(
                p,
                self.settings(),
                (DropTime { strike_moment: p.strike_moment, time: p.drop_time }),
            ) && actions@.len() == 2 && is_start_event(actions@[0], run_id@, p.drop_time@)
                && actions@[1] is ReadClock && final(run).phase == (RunPhase::WaitingForPreWarm {
                slept: false,
            }) && final(run).pre_warm.timeouts == 0 && final(run).pre_warm.network_errors == 0
                && final(run).pre_warm.last_pause_ms == 0,
    {
        let mut actions: Vec<RunAction> = Vec::new();
        run.check_count = 0;
        run.found = Vec::new();
        run.fetches = Vec::new();
        run.plan = None;
        run.pre_warm = Backoff::new();
        let ts = now.timestamp();
        if !(crate::calendar::SAFE_TIMESTAMP_MIN + 4 * crate::calendar::SECS_PER_DAY <= ts && ts
            <= crate::calendar::SAFE_TIMESTAMP - 4 * crate::calendar::SECS_PER_DAY) {
            run.phase = RunPhase::Finished;
            actions.push(RunAction::Fail(RunError::ClockOutOfRange));
            return actions;
        }
        let drop = self.config().drop_time_at(now);
        let plan = match self.run_plan(&drop) {
            Some(p) => p,
            None => {
                run.phase = RunPhase::Finished;
                actions.push(RunAction::Fail(RunError::TimeOutOfRange));
                return actions;
            },
        };
        run.plan = Some(plan);
        let start = AgentEvent::new("agent_start").with_data("run_id", run_id);
        let start = start.with_data("drop_time", drop.time.to_rfc3339());
        proof {
            reveal_strlit("run_id");
            reveal_strlit("drop_time");
            assert("run_id"@.len() != "drop_time"@.len());
        }
        actions.push(RunAction::Emit(start));
        actions.push(RunAction::ReadClock);
        run.phase = RunPhase::WaitingForPreWarm { slept: false };
        actions
    }
}

/// The plan's times are well formed.
pub open spec fn plan_ok(run: Run) -> bool {
    run.plan matches Some(p) && p.drop_time@.wf() && p.pre_warm_deadline@.wf() && p.window_end@.wf()
}

/// What the run waits for in a waiting phase: the time to pre-warm, or the
/// drop time.
pub open spec fn wait_target(phase: RunPhase, p: RunPlan) -> LocalTimeView {
    match phase {
        RunPhase::WaitingForPreWarm { .. } => p.pre_warm_deadline@,
        _ => p.drop_time@,
    }
}

/// Whether the long sleep of a waiting phase is done.
pub open spec fn wait_slept(phase: RunPhase) -> bool {
    match phase {
        RunPhase::WaitingForPreWarm { slept } => slept,
        RunPhase::WaitingForDrop { slept } => slept,
        _ => true,
    }
}

/// The same waiting phase with the long sleep done.
pub open spec fn after_sleep(phase: RunPhase) -> RunPhase {
    match phase {
        RunPhase::WaitingForPreWarm { .. } => RunPhase::WaitingForPreWarm { slept: true },
        _ => RunPhase::WaitingForDrop { slept: true },
    }
}

impl Agent {
    /// The clock reads `now` while waiting: before the time waited for,
    /// sleep until ten milliseconds before it (once), then spin on the
    /// clock. At the time to pre-warm, log `pre_warm_start` and pre-warm the
    /// active site (with none there is nothing to pre-warm). At the drop
    /// time, open the check window.
    pub fn on_clock_waiting(&self, run: &mut Run, now: &LocalTime) -> (actions: Vec<RunAction>)
        requires
            old(run).phase is WaitingForPreWarm || old(run).phase is WaitingForDrop,
            plan_ok(*old(run)),
            now@.wf(),
        ensures
            finishes_properly(actions@),
            final(run).plan == old(run).plan,
            ({
                let p = old(run).plan.unwrap();
                let target = wait_target(old(run).phase, p);
                if now@.instant() < target.instant() {
                    let ms = (target.instant() - now@.instant()) / 1_000_000;
                    &&& final(run).phase == after_sleep(old(run).phase)
                    &&& final(run).check_count == old(run).check_count
                    &&& final(run).found == old(run).found
                    &&& final(run).pre_warm == old(run).pre_warm
                    &&& if !wait_slept(old(run).phase) && ms > 10 {
                        actions@.len() == 2 && actions@[0] == RunAction::SleepMillis(
                            (ms - 10) as u64,
                        ) && actions@[1] is ReadClock
                    } else {
                        actions@.len() == 1 && actions@[0] is ReadClock
                    }
                } else if old(run).phase is WaitingForPreWarm {
                    &&& final(run).check_count == old(run).check_count
                    &&& final(run).found == old(run).found
                    &&& emits(actions@[0], "pre_warm_start"@)
                    &&& match lookup(self.settings().sites@, self.settings().active_site@) {
                        Some(site) => actions@.len() == 2 && final(run).phase == RunPhase::PreWarming
                            && (actions@[1] matches RunAction::PreWarm(u) && u@ == site.baseurl@)
                            && final(run).pre_warm.timeouts == 0
                            && final(run).pre_warm.network_errors == 0
                            && final(run).pre_warm.last_pause_ms == 0,
                        None => actions@.len() == 3 && final(run).phase
                            == RunPhase::WaitingForDrop { slept: false } && emits(
                            actions@[1],
                            "pre_warm_complete"@,
                        ) && actions@[2] is ReadClock,
                    }
                } else {
                    &&& final(run).phase == RunPhase::Checking
                    &&& final(run).check_count == 0
                    &&& final(run).found@.len() == 0
                    &&& actions@.len() == 2
                    &&& actions@[0] matches RunAction::Emit(e) && e.event@ == "check_window_start"@
                        && crate::agent::field_value(e.fields(), "deadline"@) == Some(
                        time_text(p.window_end@),
                    )
                    &&& actions@[1] is ReadClock
                }
            }),
    {
        let plan = run.plan.unwrap();
        let (target, slept, pre) = match run.phase {
            RunPhase::WaitingForPreWarm { slept } => (plan.pre_warm_deadline, slept, true),
            RunPhase::WaitingForDrop { slept } => (plan.drop_time, slept, false),
            _ => (plan.drop_time, true, false),
        };
        let mut actions: Vec<RunAction> = Vec::new();
        if now.is_before(&target) {
            if !slept {
                let ms = now.millis_until(&target);
                if ms > 10 {
                    actions.push(RunAction::SleepMillis((ms - 10) as u64));
                }
            }
            actions.push(RunAction::ReadClock);
            run.phase = if pre {
                RunPhase::WaitingForPreWarm { slept: true }
            } else {
                RunPhase::WaitingForDrop { slept: true }
            };
        } else if pre {
            actions.push(emit("pre_warm_start"));
            match self.config().get_active_site() {
                Some(site) => {
                    actions.push(RunAction::PreWarm(site.baseurl.clone()));
                    run.pre_warm = Backoff::new();
                    run.phase = RunPhase::PreWarming;
                },
                None => {
                    actions.push(emit("pre_warm_complete"));
                    actions.push(RunAction::ReadClock);
                    run.phase = RunPhase::WaitingForDrop { slept: false };
                },
            }
        } else {
            let start = AgentEvent::new("check_window_start").with_data(
                "deadline",
                plan.window_end.to_rfc3339(),
            );
            actions.push(RunAction::Emit(start));
            actions.push(RunAction::ReadClock);
            run.phase = RunPhase::Checking;
            run.check_count = 0;
            run.found = Vec::new();
        }
        actions
    }

    /// The pre-warming request ended: on success log `pre_warm_complete` and
    /// wait for the drop time. A failed request is retried after a pause (a
    /// timeout once, a network error up to three times, each pause at least
    /// twice the last); when the retries are used up the run stops.
    pub fn on_pre_warm(&self, run: &mut Run, result: Result<(), TransportError>) -> (actions: Vec<
        RunAction,
    >)
        requires
            old(run).phase == RunPhase::PreWarming,
        ensures
            finishes_properly(actions@),
            final(run).plan == old(run).plan,
            final(run).check_count == old(run).check_count,
            final(run).found == old(run).found,
            match result {
                Ok(_) => final(run).phase == RunPhase::WaitingForDrop { slept: false }
                    && actions@.len() == 2 && emits(actions@[0], "pre_warm_complete"@)
                    && actions@[1] is ReadClock,
                Err(e) => {
                    let (b, pause) = transport_step(old(run).pre_warm, e);
                    &&& final(run).pre_warm == b
                    &&& match pause {
                        None => final(run).phase == RunPhase::Finished && actions@.len() == 1 && (
                        actions@[0] matches RunAction::Fail(RunError::PreWarmFailed(m)) && m@
                            == transport_message(e)),
                        Some(ms) => match lookup(
                            self.settings().sites@,
                            self.settings().active_site@,
                        ) {
                            Some(site) => final(run).phase == RunPhase::PreWarming && actions@.len()
                                == 2 && actions@[0] == RunAction::SleepMillis(ms as u64) && (
                            actions@[1] matches RunAction::PreWarm(u) && u@ == site.baseurl@),
                            None => final(run).phase == RunPhase::WaitingForDrop { slept: false }
                                && actions@.len() == 2 && emits(actions@[0], "pre_warm_complete"@)
                                && actions@[1] is ReadClock,
                        },
                    }
                },
            },
    {
        let mut actions: Vec<RunAction> = Vec::new();
        match result {
            Ok(_) => {
                actions.push(emit("pre_warm_complete"));
                actions.push(RunAction::ReadClock);
                run.phase = RunPhase::WaitingForDrop { slept: false };
            },
            Err(e) => {
                match run.pre_warm.on_transport_error(&e) {
                    Some(ms) => match self.config().get_active_site() {
                        Some(site) => {
                            actions.push(RunAction::SleepMillis(ms));
                            actions.push(RunAction::PreWarm(site.baseurl.clone()));
                        },
                        None => {
                            actions.push(emit("pre_warm_complete"));
                            actions.push(RunAction::ReadClock);
                            run.phase = RunPhase::WaitingForDrop { slept: false };
                        },
                    },
                    None => {
                        let msg = match e {
                            TransportError::Timeout(m) => m,
                            TransportError::Network(m) => m,
                        };
                        actions.push(RunAction::Fail(RunError::PreWarmFailed(msg)));
                        run.phase = RunPhase::Finished;
                    },
                }
            },
        }
        actions
    }
}

/// The action logs `availability_fetch` for a request: its URL and the
/// date asked for.
pub open spec fn is_fetch_event(a: RunAction, f: (int, (int, int, int), Seq<char>)) -> bool {
    a matches RunAction::Emit(e) && e.event@ == "availability_fetch"@ && crate::agent::field_value(
        e.fields(),
        "url"@,
    ) == Some(f.2) && crate::agent::field_value(e.fields(), "month"@) == Some(date_text(f.1))
}

impl Agent {
    /// The clock reads `now` in the check window: within the window, wait a
    /// random pause of at most `request_jitter` seconds, log
    /// `availability_fetch` for each month's request, and fetch them all;
    /// after it, log `check_window_expired` and finish.
    pub fn on_clock_checking(&self, run: &mut Run, now: &LocalTime) -> (actions: Vec<RunAction>)
        requires
            old(run).phase == RunPhase::Checking,
            plan_ok(*old(run)),
            now@.wf(),
            run_settings_ok(self.settings()),
        ensures
            finishes_properly(actions@),
            final(run).plan == old(run).plan,
            final(run).check_count == old(run).check_count,
            final(run).found == old(run).found,
            ({
                let p = old(run).plan.unwrap();
                if now@.instant() <= p.window_end@.instant() {
                    let fs = month_fetches(self.settings(), p.drop_time@.date);
                    &&& final(run).phase == RunPhase::AwaitingFetch
                    &&& fetch_views(final(run).fetches@) == fs
                    &&& actions@.len() == fs.len() + 2
                    &&& actions@[0] matches RunAction::SleepMillis(ms) && ms
                        <= self.settings().request_jitter * 1000
                    &&& forall|k: int|
                        1 <= k <= fs.len() ==> is_fetch_event(#[trigger] actions@[k], fs[k - 1])
                    &&& actions@[fs.len() as int + 1] matches RunAction::Fetch(urls) && urls@.len()
                        == fs.len() && forall|k: int|
                        0 <= k < fs.len() ==> #[trigger] urls@[k]@ == fs[k].2
                } else {
                    &&& final(run).phase == RunPhase::Finished
                    &&& actions@.len() == 3
                    &&& emits(actions@[0], "check_window_expired"@)
                    &&& emits(actions@[1], "agent_finished"@)
                    &&& actions@[2] is Finish
                }
            }),
    {
        let plan = run.plan.unwrap();
        let mut actions: Vec<RunAction> = Vec::new();
        if !plan.window_end.is_before(now) {
            actions.push(RunAction::SleepMillis(self.jitter_ms()));
            let fetches = self.month_fetches(plan.drop_time.date());
            let ghost fs = fetch_views(fetches@);
            let mut urls: Vec<String> = Vec::new();
            let mut i: usize = 0;
            while i < fetches.len()
                invariant
                    i <= fetches@.len(),
                    fs == fetch_views(fetches@),
                    actions@.len() == i + 1,
                    actions@[0] matches RunAction::SleepMillis(ms) && ms
                        <= self.settings().request_jitter * 1000,
                    forall|k: int| 1 <= k <= i ==> is_fetch_event(#[trigger] actions@[k], fs[k - 1]),
                    urls@.len() == i,
                    forall|k: int| 0 <= k < i ==> #[trigger] urls@[k]@ == fs[k].2,
                decreases fetches@.len() - i,
            {
                let f = &fetches[i];
                assert(fs[i as int] == fetch_view(*f));
                let e = AgentEvent::new("availability_fetch").with_data("url", f.url.clone());
                let e = e.with_data("month", f.date.to_iso_string());
                proof {
                    reveal_strlit("url");
                    reveal_strlit("month");
                    assert("url"@.len() != "month"@.len());
                }
                actions.push(RunAction::Emit(e));
                urls.push(f.url.clone());
                i = i + 1;
            }
            actions.push(RunAction::Fetch(urls));
            run.fetches = fetches;
            run.phase = RunPhase::AwaitingFetch;
        } else {
            actions.push(emit("check_window_expired"));
            actions.push(emit("agent_finished"));
            actions.push(RunAction::Finish);
            run.phase = RunPhase::Finished;
        }
        actions
    }
}

/// Whether a check ends in a rest: `rest_cycle_checks` checks have been
/// made and the check window is longer than a minute.
pub open spec fn rests_after(config: Config, count: int) -> bool {
    count >= config.rest_cycle_checks && config.check_window > 60
}

/// Law: rests come only after `rest_cycle_checks` checks, and only in a
/// window longer than a minute: with fewer checks counted there is never a
/// rest, whatever the window; in a window of a minute or less there is
/// never a rest; once enough checks are counted in a longer window there is
/// always one. Since a rest resets the count, a run rests once every
/// `rest_cycle_checks` checks.
pub proof fn law_rest_only_after_enough_checks(config: Config, count: int)
    ensures
        count < config.rest_cycle_checks ==> !rests_after(config, count),
        config.check_window <= 60 ==> !rests_after(config, count),
        count >= config.rest_cycle_checks && config.check_window > 60 ==> rests_after(
            config,
            count,
        ),
{
}

/// The booking plan of a check with found slots.
pub open spec fn is_booking_plan(
    p: BookingPlan,
    config: Config,
    found: Seq<(Seq<char>, Seq<char>)>,
    dry_run: bool,
) -> bool {
    match lookup(config.sites@, config.active_site@) {
        None => false,
        Some(site) => match lookup(config.credentials@, config.selected_credential@) {
            None => false,
            Some(cred) => p.credential == cred && p.success_indicator@ == site.successindicator@
                && p.dry_run == dry_run
                && slot_views(p.slots@) == crate::agent::preferred_first(
                crate::text::string_views(config.preferred_days@),
                found,
            ),
        },
    }
}

/// What follows a check once its events are logged and any rest is taken:
/// with found slots, notify (alert mode) or book (booking mode); without,
/// sleep `check_interval` seconds and read the clock.
pub open spec fn is_check_outcome(
    tail: Seq<RunAction>,
    phase: RunPhase,
    config: Config,
    found: Seq<(Seq<char>, Seq<char>)>,
    dry_run: bool,
) -> bool {
    if found.len() > 0 {
        match config.mode {
            Mode::Alert => phase == RunPhase::Notifying && tail.len() == 1 && (
            tail[0] matches RunAction::Notify(n) && is_notification(n, config, found)),
            Mode::Booking => match (
                lookup(config.sites@, config.active_site@),
                lookup(config.credentials@, config.selected_credential@),
            ) {
                (Some(_), Some(_)) => phase == RunPhase::Booking && tail.len() == 1 && (
                tail[0] matches RunAction::Book(p) && is_booking_plan(p, config, found, dry_run)),
                (None, _) => phase == RunPhase::Finished && tail.len() == 1 && (
                tail[0] matches RunAction::Fail(RunError::Booking(e)) && e
                    == AgentError::NoActiveSite),
                (Some(_), None) => phase == RunPhase::Finished && tail.len() == 1 && (
                tail[0] matches RunAction::Fail(RunError::Booking(e)) && e
                    == AgentError::NoSelectedCredential),
            },
        }
    } else {
        phase == RunPhase::Checking && tail.len() == 2 && tail[0] == RunAction::SleepSeconds(
            config.check_interval,
        ) && tail[1] is ReadClock
    }
}

/// The action logs `no_availability` for a month whose page holds no slot.
pub open spec fn is_empty_month_event(a: RunAction, date: Seq<char>) -> bool {
    a matches RunAction::Emit(e) && e.event@ == "no_availability"@ && crate::agent::field_value(
        e.fields(),
        "date"@,
    ) == Some(date)
}

/// The warning logged where a month's page was read with every link.
pub open spec fn relaxed_warning(date: Seq<char>) -> Seq<char> {
    "no link matches the booking link selector; every link was read for "@ + date
}

/// The action warns that the month of `date` was read with every link.
pub open spec fn is_relaxed_warning(a: RunAction, date: Seq<char>) -> bool {
    a matches RunAction::Warn(m) && m@ == relaxed_warning(date)
}

impl Agent {
    /// The pages of a check arrived: `pages[k]` is the page of the check's
    /// k-th request, `None` where its fetch failed. Warn for each month whose
    /// page was read with every link (the relaxed selector), log
    /// `no_availability` for each month whose page holds no slot, then each
    /// new date; count
    /// the check and rest after `rest_cycle_checks` checks; then notify,
    /// book, or wait for the next check.
    pub fn on_fetched(&mut self, run: &mut Run, pages: Vec<Option<String>>) -> (actions: Vec<
        RunAction,
    >)
        requires
            old(run).phase == RunPhase::AwaitingFetch,
            old(run).check_count < u32::MAX,
            pages@.len() == old(run).fetches@.len(),
        ensures
            finishes_properly(actions@),
            final(self).settings() == old(self).settings(),
            final(self).is_dry_run() == old(self).is_dry_run(),
            final(run).plan == old(run).plan,
            ({
                let config = old(self).settings();
                let site = lookup(config.sites@, config.active_site@);
                let pv = page_views(pages@);
                let slots = fetched_slots(pv, site, pages@.len() as nat);
                let empties = empty_month_dates(
                    pv,
                    fetch_views(old(run).fetches@),
                    site,
                    pages@.len() as nat,
                );
                let warns = relaxed_month_dates(
                    pv,
                    fetch_views(old(run).fetches@),
                    site,
                    pages@.len() as nat,
                );
                let w = warns.len() as int;
                let m = w + empties.len();
                let new_slots = unseen_slots(old(self).seen(), slots);
                let n = new_slots.len() as int;
                let count = old(run).check_count + 1;
                let rest = rests_after(config, count);
                let head = if rest {
                    m + n + 1
                } else {
                    m + n
                };
                &&& final(self).seen() == old(self).seen().union(slot_dates(slots))
                &&& slot_views(final(run).found@) == slot_views(old(run).found@) + new_slots
                &&& forall|k: int|
                    0 <= k < w ==> is_relaxed_warning(#[trigger] actions@[k], warns[k])
                &&& forall|k: int|
                    w <= k < m ==> is_empty_month_event(#[trigger] actions@[k], empties[k - w])
                &&& forall|k: int|
                    m <= k < m + n ==> (#[trigger] actions@[k] matches RunAction::Emit(e)
                        && is_found_event(e, new_slots[k - m]))
                &&& final(run).check_count == if rest {
                    0
                } else {
                    count
                }
                &&& rest ==> actions@[m + n] == RunAction::SleepSeconds(config.rest_cycle_duration)
                &&& actions@.len() >= head
                &&& is_check_outcome(
                    actions@.skip(head),
                    final(run).phase,
                    config,
                    slot_views(final(run).found@),
                    old(self).is_dry_run(),
                )
            }),
    {
        let (slots, empties, relaxed) = self.check_results(&run.fetches, &pages);
        let ghost seen0 = self.seen();
        let ghost sv = slot_views(slots@);
        let ghost ev = string_views(empties@);
        let ghost rv = string_views(relaxed@);
        let mut actions: Vec<RunAction> = Vec::new();
        let mut r: usize = 0;
        while r < relaxed.len()
            invariant
                r <= relaxed@.len(),
                rv == string_views(relaxed@),
                actions@.len() == r,
                forall|k: int| 0 <= k < r ==> is_relaxed_warning(#[trigger] actions@[k], rv[k]),
            decreases relaxed@.len() - r,
        {
            let mut text = "no link matches the booking link selector; every link was read for "
                .to_owned();
            text.append(relaxed[r].as_str());
            actions.push(RunAction::Warn(text));
            r = r + 1;
        }
        let ghost w = actions@.len() as int;
        let mut j: usize = 0;
        while j < empties.len()
            invariant
                j <= empties@.len(),
                ev == string_views(empties@),
                rv == string_views(relaxed@),
                w == rv.len(),
                actions@.len() == w + j,
                forall|k: int| 0 <= k < w ==> is_relaxed_warning(#[trigger] actions@[k], rv[k]),
                forall|k: int|
                    w <= k < w + j ==> is_empty_month_event(#[trigger] actions@[k], ev[k - w]),
            decreases empties@.len() - j,
        {
            let e = AgentEvent::new("no_availability").with_data("date", empties[j].clone());
            proof {
                reveal_strlit("date");
            }
            actions.push(RunAction::Emit(e));
            j = j + 1;
        }
        let ghost new_slots = unseen_slots(seen0, sv);
        let events = self.record_slots(slots, &mut run.found);
        let ghost m = actions@.len() as int;
        let mut i: usize = 0;
        while i < events.len()
            invariant
                i <= events@.len(),
                actions@.len() == m + i,
                m == w + ev.len(),
                w == rv.len(),
                forall|k: int| 0 <= k < w ==> is_relaxed_warning(#[trigger] actions@[k], rv[k]),
                events@.len() == new_slots.len(),
                forall|k: int|
                    0 <= k < events@.len() ==> is_found_event(#[trigger] events@[k], new_slots[k]),
                forall|k: int|
                    w <= k < m ==> is_empty_month_event(#[trigger] actions@[k], ev[k - w]),
                forall|k: int|
                    m <= k < m + i ==> (#[trigger] actions@[k] matches RunAction::Emit(e)
                        && is_found_event(e, new_slots[k - m])),
            decreases events@.len() - i,
        {
            assert(is_found_event(events@[i as int], new_slots[i as int]));
            actions.push(RunAction::Emit(events[i].duplicate()));
            i = i + 1;
        }
        let config = self.config();
        let count = run.check_count + 1;
        if count >= config.rest_cycle_checks && config.check_window > 60 {
            actions.push(RunAction::SleepSeconds(config.rest_cycle_duration));
            run.check_count = 0;
        } else {
            run.check_count = count;
        }
        let ghost head = actions@.len() as int;
        let ghost before = actions@;
        if run.found.len() > 0 {
            match config.mode {
                Mode::Alert => {
                    let n = self.notification(&run.found);
                    run.notification_title = Some(n.title.clone());
                    actions.push(RunAction::Notify(n));
                    run.phase = RunPhase::Notifying;
                },
                Mode::Booking => {
                    match self.booking_plan(&run.found) {
                        Ok(p) => {
                            actions.push(RunAction::Book(p));
                            run.phase = RunPhase::Booking;
                        },
                        Err(e) => {
                            actions.push(RunAction::Fail(RunError::Booking(e)));
                            run.phase = RunPhase::Finished;
                        },
                    }
                },
            }
        } else {
            actions.push(RunAction::SleepSeconds(config.check_interval));
            actions.push(RunAction::ReadClock);
            run.phase = RunPhase::Checking;
        }
        assert(actions@.skip(head) =~= actions@.subrange(head, actions@.len() as int));
        actions
    }
}

impl Agent {
    /// The notification was posted: where it went out, log
    /// `notification_sent` with its title and topic, then finish; where the
    /// post failed, the run stops with the error.
    pub fn on_notified(&self, run: &mut Run, result: Result<(), String>) -> (actions: Vec<
        RunAction,
    >)
        requires
            old(run).phase == RunPhase::Notifying,
            old(run).notification_title is Some,
        ensures
            finishes_properly(actions@),
            final(run).phase == RunPhase::Finished,
            match result {
                Ok(_) => actions@.len() == 3 && (actions@[0] matches RunAction::Emit(e) && e.event@
                    == "notification_sent"@ && crate::agent::field_value(e.fields(), "title"@)
                    == Some(old(run).notification_title.unwrap()@) && crate::agent::field_value(
                    e.fields(),
                    "topic"@,
                ) == Some(self.settings().ntfy_topic@)) && emits(actions@[1], "agent_finished"@)
                    && actions@[2] is Finish,
                Err(msg) => actions@.len() == 1 && (actions@[0] matches RunAction::Fail(
                    RunError::NotificationFailed(m),
                ) && m == msg),
            },
    {
        let mut actions: Vec<RunAction> = Vec::new();
        run.phase = RunPhase::Finished;
        match result {
            Ok(_) => {
                let title = match &run.notification_title {
                    Some(t) => t.clone(),
                    None => String::new(),
                };
                let sent = AgentEvent::new("notification_sent").with_data("title", title);
                let sent = sent.with_data("topic", self.config().ntfy_topic.clone());
                proof {
                    reveal_strlit("title");
                    reveal_strlit("topic");
                    assert("title"@[1] != "topic"@[1]);
                }
                actions.push(RunAction::Emit(sent));
                actions.push(emit("agent_finished"));
                actions.push(RunAction::Finish);
            },
            Err(msg) => {
                actions.push(RunAction::Fail(RunError::NotificationFailed(msg)));
            },
        }
        actions
    }

    /// The booking attempts are over: finish.
    pub fn on_bookings_done(&self, run: &mut Run) -> (actions: Vec<RunAction>)
        requires
            old(run).phase == RunPhase::Booking,
        ensures
            finishes_properly(actions@),
            final(run).phase == RunPhase::Finished,
            actions@.len() == 2,
            emits(actions@[0], "agent_finished"@),
            actions@[1] is Finish,
    {
        let mut actions: Vec<RunAction> = Vec::new();
        actions.push(emit("agent_finished"));
        actions.push(RunAction::Finish);
        run.phase = RunPhase::Finished;
        actions
    }
}

} // verus!
