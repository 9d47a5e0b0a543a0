//! The interval detector: from successive samples of the focused application
//! to completed usage intervals.
//!
//! The detector remembers which application had focus and since when. A
//! sample that names another application is a transition: it closes the
//! interval of the application that had focus, and that interval is emitted
//! if it lasted more than `MIN_SECONDS` whole seconds and there was an
//! application to close at all.

use crate::moment::{elapsed_seconds, Moment};
use vstd::prelude::*;

verus! {

/// An interval is emitted only if it lasted more than this many whole
/// seconds.
pub const MIN_SECONDS: u64 = 1;

/// The name under which time without a known focused application is kept.
pub const SYSTEM_IDLE: &'static str = "System/Idle";

/// The name under which time without a known focused application is kept.
pub open spec fn idle_label() -> Seq<char> {
    SYSTEM_IDLE@
}

/// The name under which time without a known focused application is kept,
/// as an owned name.
pub fn system_idle() -> (app: String)
    ensures
        app@ == idle_label(),
{
    SYSTEM_IDLE.to_owned()
}

/// One observation of the focused application.
#[derive(Clone, Debug, PartialEq, Eq)]
pub struct Sample {
    pub app: String,
    pub observed_at: Moment,
}

/// What a `Sample` holds.
pub struct SampleView {
    pub app: Seq<char>,
    pub observed_at: Moment,
}

impl View for Sample {
    type V = SampleView;

    open spec fn view(&self) -> SampleView {
        SampleView { app: self.app@, observed_at: self.observed_at }
    }
}

impl Sample {
    /// The sample for what a query of the window system gave at
    /// `observed_at`: the application's name, or nothing where the query
    /// failed, which counts as idle time.
    pub fn new(focused: Option<String>, observed_at: Moment) -> (sample: Sample)
        ensures
            sample@.observed_at == observed_at,
            sample@.app == match focused {
                Some(name) => name@,
                None => idle_label(),
            },
    {
        match focused {
            Some(name) => Sample { app: name, observed_at },
            None => Sample { app: system_idle(), observed_at },
        }
    }
}

/// A completed span of focus on one application.
#[derive(Clone, Debug, PartialEq, Eq)]
pub struct UsageInterval {
    pub app: String,
    pub started_at: Moment,
    pub ended_at: Moment,
    pub duration_seconds: u64,
}

/// What a `UsageInterval` holds.
pub struct IntervalView {
    pub app: Seq<char>,
    pub started_at: Moment,
    pub ended_at: Moment,
    pub duration_seconds: nat,
}

impl View for UsageInterval {
    type V = IntervalView;

    open spec fn view(&self) -> IntervalView {
        IntervalView {
            app: self.app@,
            started_at: self.started_at,
            ended_at: self.ended_at,
            duration_seconds: self.duration_seconds as nat,
        }
    }
}

impl IntervalView {
    /// What holds of every interval that the detector emits: its duration is
    /// the whole seconds between its ends, and more than `MIN_SECONDS`.
    pub open spec fn well_formed(self) -> bool {
        &&& self.duration_seconds == elapsed_seconds(self.started_at, self.ended_at)
        &&& self.duration_seconds > MIN_SECONDS
    }
}

/// What the detector remembers between samples: the application that has
/// focus, none before the first sample, and when its interval began.
#[derive(Clone, Debug, PartialEq, Eq)]
pub struct TrackerState {
    pub current_app: Option<String>,
    pub interval_started_at: Moment,
}

/// What a `TrackerState` holds.
pub struct TrackerStateView {
    pub current_app: Option<Seq<char>>,
    pub interval_started_at: Moment,
}

impl View for TrackerState {
    type V = TrackerStateView;

    open spec fn view(&self) -> TrackerStateView {
        TrackerStateView {
            current_app: match self.current_app {
                Some(name) => Some(name@),
                None => None,
            },
            interval_started_at: self.interval_started_at,
        }
    }
}

/// The state before the first sample, for a tracker started at `started_at`.
pub open spec fn initial_state(started_at: Moment) -> TrackerStateView {
    TrackerStateView { current_app: None, interval_started_at: started_at }
}

/// Whether a sample of `app` shows that focus has moved.
pub open spec fn is_transition(state: TrackerStateView, app: Seq<char>) -> bool {
    state.current_app != Some(app)
}

/// The state after a sample of `app` taken at `now`: unchanged while focus
/// stays, and at a transition the new application with its interval starting
/// at `now`.
pub open spec fn next_state(state: TrackerStateView, app: Seq<char>, now: Moment)
    -> TrackerStateView {
    if is_transition(state, app) {
        TrackerStateView { current_app: Some(app), interval_started_at: now }
    } else {
        state
    }
}

/// The interval that a sample of `app` taken at `now` completes, if any: at a
/// transition away from an application that had focus for more than
/// `MIN_SECONDS` whole seconds, the interval of that application.
pub open spec fn emitted_interval(state: TrackerStateView, app: Seq<char>, now: Moment) -> Option<
    IntervalView,
> {
    let seconds = elapsed_seconds(state.interval_started_at, now);
    match state.current_app {
        Some(previous) if is_transition(state, app) && seconds > MIN_SECONDS => Some(
            IntervalView {
                app: previous,
                started_at: state.interval_started_at,
                ended_at: now,
                duration_seconds: seconds,
            },
        ),
        _ => None,
    }
}

/// What an optional interval holds.
pub open spec fn interval_view(interval: Option<UsageInterval>) -> Option<IntervalView> {
    match interval {
        Some(interval) => Some(interval@),
        None => None,
    }
}

impl TrackerState {
    /// The state of a tracker started at `started_at`, before its first
    /// sample.
    pub fn new(started_at: Moment) -> (state: TrackerState)
        ensures
            state@ == initial_state(started_at),
    {
        TrackerState { current_app: None, interval_started_at: started_at }
    }

    /// Takes in one sample, attributed to the moment `now`, and hands out the
    /// interval that it completes, if any.
    pub fn on_sample(&mut self, sample: &Sample, now: Moment) -> (emitted: Option<UsageInterval>)
        ensures
            final(self)@ == next_state(old(self)@, sample@.app, now),
            interval_view(emitted) == emitted_interval(old(self)@, sample@.app, now),
    {
        let focus_stays = match &self.current_app {
            Some(current) => *current == sample.app,
            None => false,
        };
        if focus_stays {
            return None;
        }
        let seconds: u64 = self.interval_started_at.seconds_until(now);
        let started_at = self.interval_started_at;
        let previous = self.current_app.take();
        self.current_app = Some(sample.app.clone());
        self.interval_started_at = now;
        match previous {
            Some(app) if seconds > MIN_SECONDS => Some(
                UsageInterval { app, started_at, ended_at: now, duration_seconds: seconds },
            ),
            _ => None,
        }
    }
}

/// A transition that comes `MIN_SECONDS` whole seconds or less after the
/// interval began emits nothing, whatever the applications are; the state
/// moves on to the new application all the same.
pub proof fn law_short_interval_is_dropped(state: TrackerStateView, app: Seq<char>, now: Moment)
    requires
        elapsed_seconds(state.interval_started_at, now) <= MIN_SECONDS,
    ensures
        emitted_interval(state, app, now) is None,
        is_transition(state, app) ==> next_state(state, app, now) == (TrackerStateView {
            current_app: Some(app),
            interval_started_at: now,
        }),
{
}

/// The first sample after the start emits nothing, however long after the
/// start it comes, and makes its application the current one.
pub proof fn law_first_sample_emits_nothing(started_at: Moment, app: Seq<char>, now: Moment)
    ensures
        emitted_interval(initial_state(started_at), app, now) is None,
        next_state(initial_state(started_at), app, now) == (TrackerStateView {
            current_app: Some(app),
            interval_started_at: now,
        }),
{
}

/// Every interval that the detector emits is well formed, names the
/// application that had focus, and spans from the start of that
/// application's interval to the sample that ended it.
pub proof fn law_emitted_interval_is_well_formed(
    state: TrackerStateView,
    app: Seq<char>,
    now: Moment,
)
    ensures
        match emitted_interval(state, app, now) {
            Some(interval) => {
                &&& interval.well_formed()
                &&& state.current_app == Some(interval.app)
                &&& interval.app != app
                &&& interval.started_at == state.interval_started_at
                &&& interval.ended_at == now
            },
            None => true,
        },
{
}

} // verus!
