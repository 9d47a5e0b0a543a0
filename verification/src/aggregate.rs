//! The aggregator: cumulative seconds per application.
//!
//! The totals are kept as a list with one entry per application, in the order
//! in which the applications were first seen. Read as a mapping it is the
//! table from application to total; the order is what the chart follows.
//! A total that would pass `u64::MAX` stays at `u64::MAX`.

use crate::detector::{IntervalView, UsageInterval};
use vstd::prelude::*;

verus! {

/// The total of one application.
#[derive(Clone, Debug, PartialEq, Eq)]
pub struct AppTotal {
    pub app: String,
    pub total_seconds: u64,
}

/// What an `AppTotal` holds.
pub struct AppTotalView {
    pub app: Seq<char>,
    pub total_seconds: u64,
}

impl View for AppTotal {
    type V = AppTotalView;

    open spec fn view(&self) -> AppTotalView {
        AppTotalView { app: self.app@, total_seconds: self.total_seconds }
    }
}

/// The number of seconds `n` as a total: `n` itself, or the largest total
/// that can be kept where `n` is beyond it.
pub open spec fn capped(n: int) -> u64 {
    if n <= 0 {
        0
    } else if n <= u64::MAX {
        n as u64
    } else {
        u64::MAX
    }
}

/// Whether `totals` has an entry for `app`.
pub open spec fn has_app(totals: Seq<AppTotalView>, app: Seq<char>) -> bool {
    exists|i: int| 0 <= i < totals.len() && (#[trigger] totals[i]).app == app
}

/// The place of an entry for `app` in `totals`.
pub open spec fn index_of(totals: Seq<AppTotalView>, app: Seq<char>) -> int {
    choose|i: int| 0 <= i < totals.len() && (#[trigger] totals[i]).app == app
}

/// The seconds that `totals` holds for `app`: zero where it has no entry.
pub open spec fn total_of(totals: Seq<AppTotalView>, app: Seq<char>) -> u64 {
    if has_app(totals, app) {
        totals[index_of(totals, app)].total_seconds
    } else {
        0
    }
}

/// No application has two entries.
pub open spec fn distinct_apps(totals: Seq<AppTotalView>) -> bool {
    forall|i: int, j: int|
        0 <= i < j < totals.len() ==> (#[trigger] totals[i]).app != (#[trigger] totals[j]).app
}

/// The mapping that a list of totals stands for.
pub open spec fn totals_map(totals: Seq<AppTotalView>) -> Map<Seq<char>, u64> {
    Map::new(|app: Seq<char>| has_app(totals, app), |app: Seq<char>| total_of(totals, app))
}

/// `totals` after `seconds` more for `app`: the entry of `app` grows in its
/// place, and an application not seen before gets a new entry at the end.
pub open spec fn folded(totals: Seq<AppTotalView>, app: Seq<char>, seconds: nat) -> Seq<
    AppTotalView,
> {
    let total = AppTotalView { app, total_seconds: capped(total_of(totals, app) + seconds) };
    if has_app(totals, app) {
        totals.update(index_of(totals, app), total)
    } else {
        totals.push(total)
    }
}

/// `totals` after each of `intervals` in turn.
pub open spec fn folded_all(totals: Seq<AppTotalView>, intervals: Seq<IntervalView>) -> Seq<
    AppTotalView,
>
    decreases intervals.len(),
{
    if intervals.len() == 0 {
        totals
    } else {
        folded(
            folded_all(totals, intervals.drop_last()),
            intervals.last().app,
            intervals.last().duration_seconds,
        )
    }
}

/// The seconds of those of `intervals` that belong to `app`, summed.
pub open spec fn seconds_of(intervals: Seq<IntervalView>, app: Seq<char>) -> nat
    decreases intervals.len(),
{
    if intervals.len() == 0 {
        0
    } else {
        let rest = seconds_of(intervals.drop_last(), app);
        if intervals.last().app == app {
            rest + intervals.last().duration_seconds
        } else {
            rest
        }
    }
}

/// Cumulative seconds per application, over the life of one tracker.
#[derive(Debug, PartialEq, Eq)]
pub struct AggregateStats {
    entries: Vec<AppTotal>,
}

impl View for AggregateStats {
    type V = Map<Seq<char>, u64>;

    /// The mapping from application to total.
    open spec fn view(&self) -> Map<Seq<char>, u64> {
        totals_map(self.totals())
    }
}

impl AggregateStats {
    /// The entries in order, one per application.
    pub closed spec fn totals(&self) -> Seq<AppTotalView> {
        self.entries@.map_values(|entry: AppTotal| entry@)
    }

    /// No application has two entries.
    #[verifier::type_invariant]
    pub open spec fn well_formed(&self) -> bool {
        distinct_apps(self.totals())
    }

    /// The totals of a tracker that has just started: none.
    pub fn new() -> (stats: AggregateStats)
        ensures
            stats.totals() == Seq::<AppTotalView>::empty(),
            stats@ == Map::<Seq<char>, u64>::empty(),
            stats.well_formed(),
    {
        let stats = AggregateStats { entries: Vec::new() };
        assert(stats.totals() =~= Seq::<AppTotalView>::empty());
        assert(stats@ =~= Map::<Seq<char>, u64>::empty());
        stats
    }

    /// The entries in order, one per application.
    pub fn entries(&self) -> (entries: &Vec<AppTotal>)
        ensures
            entries@.len() == self.totals().len(),
            forall|i: int| 0 <= i < entries@.len() ==> (#[trigger] entries@[i])@ == self.totals()[i],
            self.well_formed(),
    {
        proof {
            use_type_invariant(self);
        }
        &self.entries
    }

    /// The number of applications seen.
    pub fn len(&self) -> (n: usize)
        ensures
            n == self.totals().len(),
    {
        self.entries.len()
    }

    /// Where the entry for `app` is, if there is one.
    fn find(&self, app: &String) -> (place: Option<usize>)
        ensures
            match place {
                Some(i) => has_app(self.totals(), app@) && i == index_of(self.totals(), app@),
                None => !has_app(self.totals(), app@),
            },
    {
        proof {
            use_type_invariant(self);
        }
        let mut i: usize = 0;
        while i < self.entries.len()
            invariant
                i <= self.entries.len(),
                distinct_apps(self.totals()),
                forall|j: int| 0 <= j < i ==> (#[trigger] self.totals()[j]).app != app@,
            decreases self.entries.len() - i,
        {
            if self.entries[i].app == *app {
                proof {
                    lemma_entry_is_found(self.totals(), i as int);
                }
                return Some(i);
            }
            i += 1;
        }
        None
    }

    /// The total of `app`: zero for an application never seen.
    pub fn total(&self, app: &String) -> (seconds: u64)
        ensures
            seconds == total_of(self.totals(), app@),
            seconds == if self@.dom().contains(app@) {
                self@[app@]
            } else {
                0
            },
    {
        match self.find(app) {
            Some(i) => self.entries[i].total_seconds,
            None => 0,
        }
    }

    /// Folds one emitted interval into the totals: the total of its
    /// application grows by its seconds, and stops at `u64::MAX`.
    pub fn apply(&mut self, interval: &UsageInterval)
        ensures
            final(self).totals() == folded(
                old(self).totals(),
                interval@.app,
                interval@.duration_seconds,
            ),
            final(self)@ == old(self)@.insert(
                interval@.app,
                capped(total_of(old(self).totals(), interval@.app) + interval@.duration_seconds),
            ),
            final(self).well_formed(),
    {
        proof {
            use_type_invariant(&*self);
            lemma_folded(self.totals(), interval@.app, interval@.duration_seconds);
        }
        let place = self.find(&interval.app);
        // The list is taken out, changed and put back, so that `self` is
        // well formed at every step.
        let mut entries: Vec<AppTotal> = Vec::new();
        assert(entries@.map_values(|entry: AppTotal| entry@) =~= Seq::<AppTotalView>::empty());
        core::mem::swap(&mut self.entries, &mut entries);
        match place {
            Some(i) => {
                let total: u64 = entries[i].total_seconds.saturating_add(
                    interval.duration_seconds,
                );
                let entry = AppTotal { app: interval.app.clone(), total_seconds: total };
                assert(old(self).totals().update(i as int, entry@) =~= entries@.update(
                    i as int,
                    entry,
                ).map_values(|entry: AppTotal| entry@));
                entries.set(i, entry);
            },
            None => {
                let entry = AppTotal {
                    app: interval.app.clone(),
                    total_seconds: interval.duration_seconds,
                };
                assert(old(self).totals().push(entry@) =~= entries@.push(entry).map_values(
                    |entry: AppTotal| entry@,
                ));
                entries.push(entry);
            },
        }
        self.entries = entries;
    }
}

/// In a list without doubles, an entry for `app` is the entry for `app`.
pub proof fn lemma_entry_is_found(totals: Seq<AppTotalView>, i: int)
    requires
        distinct_apps(totals),
        0 <= i < totals.len(),
    ensures
        has_app(totals, totals[i].app),
        index_of(totals, totals[i].app) == i,
        total_of(totals, totals[i].app) == totals[i].total_seconds,
{
    let app = totals[i].app;
    let found = index_of(totals, app);
    assert(0 <= found < totals.len() && totals[found].app == app);
    if found < i {
        assert(totals[found].app != totals[i].app);
    } else if i < found {
        assert(totals[i].app != totals[found].app);
    }
}

/// One more interval for `app` leaves the entry of every other application
/// as it is.
proof fn lemma_folded_elsewhere(
    totals: Seq<AppTotalView>,
    app: Seq<char>,
    seconds: nat,
    other: Seq<char>,
)
    requires
        distinct_apps(totals),
        distinct_apps(folded(totals, app, seconds)),
        other != app,
    ensures
        has_app(folded(totals, app, seconds), other) == has_app(totals, other),
        total_of(folded(totals, app, seconds), other) == total_of(totals, other),
{
    let after = folded(totals, app, seconds);
    if has_app(totals, other) {
        let i = index_of(totals, other);
        assert(after[i] == totals[i]);
        lemma_entry_is_found(after, i);
    }
    if has_app(after, other) {
        let i = index_of(after, other);
        assert(after[i] == totals[i]);
        lemma_entry_is_found(totals, i);
    }
}

/// What one more interval does to the totals: the application's total grows
/// by the interval's seconds, up to the largest total, and nothing else
/// changes.
pub proof fn lemma_folded(totals: Seq<AppTotalView>, app: Seq<char>, seconds: nat)
    requires
        distinct_apps(totals),
    ensures
        distinct_apps(folded(totals, app, seconds)),
        has_app(folded(totals, app, seconds), app),
        total_of(folded(totals, app, seconds), app) == capped(total_of(totals, app) + seconds),
        forall|other: Seq<char>|
            other != app ==> #[trigger] has_app(folded(totals, app, seconds), other) == has_app(
                totals,
                other,
            ),
        forall|other: Seq<char>|
            other != app ==> #[trigger] total_of(folded(totals, app, seconds), other) == total_of(
                totals,
                other,
            ),
        totals_map(folded(totals, app, seconds)) == totals_map(totals).insert(
            app,
            capped(total_of(totals, app) + seconds),
        ),
{
    let after = folded(totals, app, seconds);
    let place = if has_app(totals, app) {
        index_of(totals, app)
    } else {
        totals.len() as int
    };
    assert(0 <= place < after.len() && after[place].app == app);
    assert(after.len() >= totals.len());
    assert forall|i: int| 0 <= i < totals.len() implies (#[trigger] after[i]).app
        == totals[i].app by {}
    assert forall|i: int| 0 <= i < after.len() && i != place implies 0 <= i < totals.len()
        && #[trigger] after[i] == totals[i] by {}
    assert(distinct_apps(after)) by {
        assert forall|i: int, j: int| 0 <= i < j < after.len() implies (#[trigger] after[i]).app
            != (#[trigger] after[j]).app by {
            if j < totals.len() {
                assert(totals[i].app != totals[j].app);
            } else {
                assert(j == place && !has_app(totals, app));
                assert(totals[i].app != app);
            }
        }
    }
    lemma_entry_is_found(after, place);
    assert forall|other: Seq<char>| other != app implies #[trigger] has_app(after, other)
        == has_app(totals, other) by {
        lemma_folded_elsewhere(totals, app, seconds, other);
    }
    assert forall|other: Seq<char>| other != app implies #[trigger] total_of(after, other)
        == total_of(totals, other) by {
        lemma_folded_elsewhere(totals, app, seconds, other);
    }
    assert(totals_map(after) =~= totals_map(totals).insert(
        app,
        capped(total_of(totals, app) + seconds),
    ));
}

/// The totals are sums: after any sequence of intervals, the total of an
/// application is what it was before plus the seconds of its intervals, up to
/// the largest total. Started from nothing, it is the sum of the seconds of
/// the application's intervals, exactly so while that sum is within `u64`.
pub proof fn law_total_is_sum_of_intervals(
    totals: Seq<AppTotalView>,
    intervals: Seq<IntervalView>,
    app: Seq<char>,
)
    requires
        distinct_apps(totals),
    ensures
        distinct_apps(folded_all(totals, intervals)),
        total_of(folded_all(totals, intervals), app) == capped(
            total_of(totals, app) + seconds_of(intervals, app),
        ),
        total_of(folded_all(Seq::empty(), intervals), app) == capped(
            seconds_of(intervals, app) as int,
        ),
        seconds_of(intervals, app) <= u64::MAX ==> total_of(
            folded_all(Seq::empty(), intervals),
            app,
        ) == seconds_of(intervals, app),
    decreases intervals.len(),
{
    assert(!has_app(Seq::<AppTotalView>::empty(), app));
    if intervals.len() > 0 {
        let before = intervals.drop_last();
        let last = intervals.last();
        law_total_is_sum_of_intervals(totals, before, app);
        law_total_is_sum_of_intervals(Seq::empty(), before, app);
        lemma_folded(folded_all(totals, before), last.app, last.duration_seconds);
        lemma_folded(folded_all(Seq::empty(), before), last.app, last.duration_seconds);
    }
}

/// The totals never decrease: no interval, and no sequence of intervals,
/// makes the total of any application smaller.
pub proof fn law_totals_never_decrease(
    totals: Seq<AppTotalView>,
    intervals: Seq<IntervalView>,
    app: Seq<char>,
)
    requires
        distinct_apps(totals),
    ensures
        total_of(totals, app) <= total_of(folded_all(totals, intervals), app),
        intervals.len() > 0 ==> total_of(folded_all(totals, intervals.drop_last()), app)
            <= total_of(folded_all(totals, intervals), app),
    decreases intervals.len(),
{
    if intervals.len() > 0 {
        let before = intervals.drop_last();
        let last = intervals.last();
        law_totals_never_decrease(totals, before, app);
        law_total_is_sum_of_intervals(totals, before, app);
        lemma_folded(folded_all(totals, before), last.app, last.duration_seconds);
    }
}

/// Folding the same interval in twice counts it twice.
pub proof fn law_folding_twice_counts_twice(
    totals: Seq<AppTotalView>,
    app: Seq<char>,
    seconds: nat,
)
    requires
        distinct_apps(totals),
    ensures
        total_of(folded(folded(totals, app, seconds), app, seconds), app) == capped(
            total_of(totals, app) + 2 * seconds,
        ),
{
    lemma_folded(totals, app, seconds);
    lemma_folded(folded(totals, app, seconds), app, seconds);
}

} // verus!
