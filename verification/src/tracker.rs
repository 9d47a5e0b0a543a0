//! The driver's side of one tick: detector, aggregator, log and renderer in
//! their fixed order.
//!
//! The program around the tracker samples the focused application once per
//! period and hands the sample to `Tracker::tick`. Where the sample completes
//! an interval, the tick folds it into the totals and hands back what is to
//! be written: the line to append to the log and the document that replaces
//! the report. An interval still open when the program ends is never
//! emitted.

use crate::aggregate::{
    distinct_apps, folded, folded_all, lemma_folded, totals_map, AggregateStats, AppTotalView,
};
use crate::clock::{is_stamp, is_stamp_char, local_time_text, STAMP_PATTERN};
use crate::detector::{
    emitted_interval, initial_state, next_state, IntervalView, Sample, SampleView, TrackerState,
    TrackerStateView, UsageInterval,
};
use crate::moment::Moment;
use crate::report::{document_text, render};
use crate::text::{decimal_digits, decimal_value};
use crate::usage_log::{
    law_record_fields_read_back, law_record_is_one_line, line_of, opening_text, record_line,
    record_text,
};
use vstd::prelude::*;

verus! {

/// The period of the driver's loop, in seconds: one sample per period.
pub const SAMPLE_PERIOD_SECONDS: u64 = 1;

/// What the program has to write for one emitted interval.
#[derive(Clone, Debug, PartialEq, Eq)]
pub struct Emission {
    /// The interval that was completed.
    pub interval: UsageInterval,
    /// The local date and time at which it was emitted.
    pub timestamp: String,
    /// The line to append to the usage log.
    pub log_line: String,
    /// The document to replace the report with.
    pub report: String,
}

/// What an `Emission` holds.
pub struct EmissionView {
    pub interval: IntervalView,
    pub timestamp: Seq<char>,
    pub log_line: Seq<char>,
    pub report: Seq<char>,
}

impl View for Emission {
    type V = EmissionView;

    open spec fn view(&self) -> EmissionView {
        EmissionView {
            interval: self.interval@,
            timestamp: self.timestamp@,
            log_line: self.log_line@,
            report: self.report@,
        }
    }
}

/// The emission of `interval`, stamped `timestamp`, by a tracker whose totals
/// were `totals` before it: one log record with the interval's application
/// and seconds, and the chart of the totals with the interval folded in.
pub open spec fn emission_of(totals: Seq<AppTotalView>, interval: IntervalView, timestamp: Seq<char>)
    -> EmissionView {
    EmissionView {
        interval,
        timestamp,
        log_line: line_of(record_text(timestamp, interval.app, interval.duration_seconds)),
        report: document_text(folded(totals, interval.app, interval.duration_seconds)),
    }
}

/// The detector's state and the totals of one run of the program.
#[derive(Debug, PartialEq, Eq)]
pub struct Tracker {
    pub state: TrackerState,
    pub stats: AggregateStats,
}

/// What a `Tracker` holds.
pub struct TrackerView {
    pub state: TrackerStateView,
    pub totals: Seq<AppTotalView>,
}

impl View for Tracker {
    type V = TrackerView;

    open spec fn view(&self) -> TrackerView {
        TrackerView { state: self.state@, totals: self.stats.totals() }
    }
}

/// A tracker started at `started_at`: no application yet, no totals.
pub open spec fn started(started_at: Moment) -> TrackerView {
    TrackerView { state: initial_state(started_at), totals: Seq::empty() }
}

/// A tracker after one sample: the detector's next state, and the totals with
/// the emitted interval folded in, if one was emitted.
pub open spec fn ticked(tracker: TrackerView, sample: SampleView) -> TrackerView {
    TrackerView {
        state: next_state(tracker.state, sample.app, sample.observed_at),
        totals: match emitted_interval(tracker.state, sample.app, sample.observed_at) {
            Some(interval) => folded(tracker.totals, interval.app, interval.duration_seconds),
            None => tracker.totals,
        },
    }
}

/// A tracker after each of `samples` in turn.
pub open spec fn run(tracker: TrackerView, samples: Seq<SampleView>) -> TrackerView
    decreases samples.len(),
{
    if samples.len() == 0 {
        tracker
    } else {
        ticked(run(tracker, samples.drop_last()), samples.last())
    }
}

/// The intervals that a tracker emits over `samples`, in order.
pub open spec fn run_intervals(tracker: TrackerView, samples: Seq<SampleView>) -> Seq<IntervalView>
    decreases samples.len(),
{
    if samples.len() == 0 {
        Seq::empty()
    } else {
        let before = samples.drop_last();
        let last = samples.last();
        match emitted_interval(run(tracker, before).state, last.app, last.observed_at) {
            Some(interval) => run_intervals(tracker, before).push(interval),
            None => run_intervals(tracker, before),
        }
    }
}

impl Tracker {
    /// A tracker started at `started_at`. Its totals are empty whatever an
    /// earlier run has left in the log.
    pub fn new(started_at: Moment) -> (tracker: Tracker)
        ensures
            tracker@ == started(started_at),
            tracker.stats@ == Map::<Seq<char>, u64>::empty(),
    {
        Tracker { state: TrackerState::new(started_at), stats: AggregateStats::new() }
    }

    /// Emits `interval` with the stamp `timestamp`: folds it into the totals,
    /// once, and hands back its one log record and the report of the totals
    /// after it. The detector's state is left alone.
    pub fn emit(&mut self, interval: UsageInterval, timestamp: String) -> (emission: Emission)
        ensures
            final(self)@.state == old(self)@.state,
            final(self)@.totals == folded(
                old(self)@.totals,
                interval@.app,
                interval@.duration_seconds,
            ),
            emission@ == emission_of(old(self)@.totals, interval@, timestamp@),
    {
        self.stats.apply(&interval);
        let report = render(&self.stats);
        let log_line = record_line(
            timestamp.as_str(),
            interval.app.as_str(),
            interval.duration_seconds,
        );
        Emission { interval, timestamp, log_line, report }
    }

    /// One tick: takes in the sample, attributed to the moment it was
    /// observed at, and where it completes an interval emits that interval
    /// with the current local time as its stamp. Without an interval nothing
    /// is handed back and the totals stay as they are.
    pub fn tick(&mut self, sample: &Sample) -> (emission: Option<Emission>)
        ensures
            final(self)@ == ticked(old(self)@, sample@),
            match emitted_interval(old(self)@.state, sample@.app, sample@.observed_at) {
                Some(interval) => {
                    &&& emission is Some
                    &&& is_stamp(emission->0@.timestamp)
                    &&& emission->0@ == emission_of(
                        old(self)@.totals,
                        interval,
                        emission->0@.timestamp,
                    )
                },
                None => emission is None,
            },
    {
        match self.state.on_sample(sample, sample.observed_at) {
            Some(interval) => {
                let timestamp = local_time_text(STAMP_PATTERN);
                Some(self.emit(interval, timestamp))
            },
            None => None,
        }
    }
}

/// Every emitted interval has one log record that matches it: the emission's
/// log line is one record, its name field is the interval's application and
/// its seconds field is the interval's duration, whatever the stamp that the
/// clock gave. (One record is one line unless the name itself holds a line
/// end.)
pub proof fn law_emission_has_one_matching_record(
    totals: Seq<AppTotalView>,
    interval: IntervalView,
    timestamp: Seq<char>,
)
    requires
        is_stamp(timestamp),
    ensures
        ({
            let emission = emission_of(totals, interval, timestamp);
            let record = record_text(timestamp, interval.app, interval.duration_seconds);
            let digits = decimal_digits(interval.duration_seconds);
            let first = timestamp.len() as int;
            let last = record.len() - digits.len() - 1;
            &&& emission.interval == interval
            &&& emission.log_line == line_of(record)
            &&& 0 <= first <= last < record.len()
            &&& record[first] == ',' && forall|i: int| 0 <= i < first ==> record[i] != ','
            &&& record[last] == ',' && forall|i: int| last < i < record.len() ==> record[i] != ','
            &&& record.subrange(first + 1, last) == interval.app
            &&& decimal_value(record.subrange(last + 1, record.len() as int))
                == interval.duration_seconds
            &&& !interval.app.contains('\n') ==> forall|i: int|
                0 <= i < emission.log_line.len() - 1 ==> emission.log_line[i] != '\n'
        }),
{
    assert(!timestamp.contains(',')) by {
        if timestamp.contains(',') {
            let i = choose|i: int| 0 <= i < timestamp.len() && timestamp[i] == ',';
            assert(is_stamp_char(timestamp[i]));
        }
    }
    assert(!timestamp.contains('\n')) by {
        if timestamp.contains('\n') {
            let i = choose|i: int| 0 <= i < timestamp.len() && timestamp[i] == '\n';
            assert(is_stamp_char(timestamp[i]));
        }
    }
    law_record_fields_read_back(timestamp, interval.app, interval.duration_seconds);
    if !interval.app.contains('\n') {
        law_record_is_one_line(timestamp, interval.app, interval.duration_seconds);
    }
}

/// Over any run of samples the totals are the emitted intervals folded in,
/// each once and in order, and no application gets two entries.
pub proof fn law_run_folds_emitted_intervals(tracker: TrackerView, samples: Seq<SampleView>)
    requires
        distinct_apps(tracker.totals),
    ensures
        run(tracker, samples).totals == folded_all(tracker.totals, run_intervals(tracker, samples)),
        distinct_apps(run(tracker, samples).totals),
    decreases samples.len(),
{
    if samples.len() > 0 {
        let before = samples.drop_last();
        let last = samples.last();
        law_run_folds_emitted_intervals(tracker, before);
        match emitted_interval(run(tracker, before).state, last.app, last.observed_at) {
            Some(interval) => {
                let emitted = run_intervals(tracker, samples);
                assert(emitted.drop_last() =~= run_intervals(tracker, before));
                assert(emitted.last() == interval);
                lemma_folded(
                    run(tracker, before).totals,
                    interval.app,
                    interval.duration_seconds,
                );
            },
            None => {},
        }
    }
}

/// Every interval that any run of samples emits is well formed: it lasted
/// more than one whole second, and its seconds are those between its ends.
pub proof fn law_run_emits_well_formed_intervals(tracker: TrackerView, samples: Seq<SampleView>)
    ensures
        forall|i: int|
            0 <= i < run_intervals(tracker, samples).len() ==> (#[trigger] run_intervals(
                tracker,
                samples,
            )[i]).well_formed(),
    decreases samples.len(),
{
    if samples.len() > 0 {
        let before = run_intervals(tracker, samples.drop_last());
        let emitted = run_intervals(tracker, samples);
        law_run_emits_well_formed_intervals(tracker, samples.drop_last());
        assert forall|i: int| 0 <= i < emitted.len() implies (#[trigger] emitted[i]).well_formed() by {
            if i < before.len() {
                assert(emitted[i] == before[i]);
            }
        }
    }
}

/// The first sample of a run emits nothing and changes no total, however
/// late after the start it comes.
pub proof fn law_run_starts_silent(started_at: Moment, samples: Seq<SampleView>)
    requires
        samples.len() >= 1,
    ensures
        run_intervals(started(started_at), samples.take(1)) == Seq::<IntervalView>::empty(),
        run(started(started_at), samples.take(1)).totals == Seq::<AppTotalView>::empty(),
        run(started(started_at), samples.take(1)).state == (TrackerStateView {
            current_app: Some(samples[0].app),
            interval_started_at: samples[0].observed_at,
        }),
{
    let first = samples.take(1);
    assert(first.drop_last() =~= Seq::<SampleView>::empty());
    assert(first.last() == samples[0]);
    reveal_with_fuel(run, 2);
    reveal_with_fuel(run_intervals, 2);
}

/// A restart begins from empty totals while the log keeps what it holds: the
/// totals of a started tracker do not depend on the log, and opening a log
/// that holds records adds nothing to it and takes nothing away.
pub proof fn law_restart_resets_totals_only(log: Seq<char>, sink_len: u64, started_at: Moment)
    requires
        (sink_len == 0) == (log.len() == 0),
    ensures
        totals_map(started(started_at).totals) == Map::<Seq<char>, u64>::empty(),
        log.is_prefix_of(log + opening_text(sink_len)),
        log.len() > 0 ==> log + opening_text(sink_len) == log,
{
    assert(totals_map(started(started_at).totals) =~= Map::<Seq<char>, u64>::empty());
    assert(log.len() > 0 ==> log + opening_text(sink_len) =~= log);
}

} // verus!
