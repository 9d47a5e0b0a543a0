//! The report renderer: from the totals to a chart document.
//!
//! The document is a page that draws the totals as a doughnut chart, one
//! segment per application, each segment's share of the ring being the
//! application's share of the seconds. It is written out whole every time:
//! the page's fixed text, and inside it the list of labels and the list of
//! values, both in the order of the totals. A label is the application's
//! name between single quotes, escaped so that no name can end the quotes.

use crate::aggregate::{
    distinct_apps, has_app, index_of, lemma_entry_is_found, totals_map, AggregateStats, AppTotal,
    AppTotalView,
};
use crate::text::{decimal_digits, escaped, push_decimal, push_escaped};
use vstd::prelude::*;
use vstd::string::StringExecFns;

verus! {

/// The document up to the list of labels.
pub const DOCUMENT_HEAD: &'static str =
    "\n<!DOCTYPE html>\n<html>\n<head>\n    <title>My Lazy Monitor</title>\n    <script src=\"https://cdn.jsdelivr.net/npm/chart.js\"></script>\n    <style>\n        body { font-family: sans-serif; text-align: center; padding: 50px; background: #f4f4f9; }\n        .container { width: 60%; margin: auto; background: white; padding: 20px; border-radius: 10px; box-shadow: 0 0 10px rgba(0,0,0,0.1); }\n    </style>\n</head>\n<body>\n    <div class=\"container\">\n        <h2>\u{1F4BB} App Usage Time Distribution (seconds)</h2>\n        <canvas id=\"myChart\"></canvas>\n    </div>\n    <script>\n        const ctx = document.getElementById('myChart');\n        new Chart(ctx, {\n            type: 'doughnut',\n            data: {\n                labels: [";

/// The document between the list of labels and the list of values.
pub const DOCUMENT_MIDDLE: &'static str =
    "],\n                datasets: [{\n                    label: 'Usage Time (seconds)',\n                    data: [";

/// The document after the list of values.
pub const DOCUMENT_TAIL: &'static str =
    "], \n                    borderWidth: 1\n                }]\n            }\n        });\n    </script>\n</body>\n</html>\n";

/// One item of the list of labels: the escaped name between single quotes,
/// and a comma.
pub open spec fn label_item(app: Seq<char>) -> Seq<char> {
    seq!['\''] + escaped(app) + seq!['\'', ',']
}

/// One item of the list of values: the seconds in decimal, and a comma.
pub open spec fn value_item(seconds: u64) -> Seq<char> {
    decimal_digits(seconds as nat).push(',')
}

/// The list of labels, one item per entry, in order.
pub open spec fn labels_text(totals: Seq<AppTotalView>) -> Seq<char>
    decreases totals.len(),
{
    if totals.len() == 0 {
        Seq::empty()
    } else {
        labels_text(totals.drop_last()) + label_item(totals.last().app)
    }
}

/// The list of values, one item per entry, in order.
pub open spec fn values_text(totals: Seq<AppTotalView>) -> Seq<char>
    decreases totals.len(),
{
    if totals.len() == 0 {
        Seq::empty()
    } else {
        values_text(totals.drop_last()) + value_item(totals.last().total_seconds)
    }
}

/// The chart document of `totals`.
pub open spec fn document_text(totals: Seq<AppTotalView>) -> Seq<char> {
    DOCUMENT_HEAD@ + labels_text(totals) + DOCUMENT_MIDDLE@ + values_text(totals) + DOCUMENT_TAIL@
}

/// The data points that the chart of `totals` shows, as a set: one pair of
/// application and seconds per entry.
pub open spec fn chart_points(totals: Seq<AppTotalView>) -> Set<AppTotalView> {
    totals.to_set()
}

/// Renders the totals as a chart document, to replace the one before it.
pub fn render(stats: &AggregateStats) -> (document: String)
    ensures
        document@ == document_text(stats.totals()),
{
    let entries = stats.entries();
    let ghost totals = stats.totals();
    let mut document = DOCUMENT_HEAD.to_owned();
    let mut i: usize = 0;
    assert(totals.take(0) =~= Seq::<AppTotalView>::empty());
    while i < entries.len()
        invariant
            i <= entries@.len() == totals.len(),
            forall|k: int| 0 <= k < entries@.len() ==> (#[trigger] entries@[k])@ == totals[k],
            document@ == DOCUMENT_HEAD@ + labels_text(totals.take(i as int)),
        decreases entries.len() - i,
    {
        let entry: &AppTotal = &entries[i];
        proof {
            let done = totals.take(i as int);
            let next = totals.take(i + 1);
            assert(next.drop_last() =~= done);
            assert(next.last() == entry@);
            assert(DOCUMENT_HEAD@ + (labels_text(done) + label_item(entry@.app)) =~= DOCUMENT_HEAD@
                + labels_text(done) + seq!['\''] + escaped(entry@.app) + seq!['\'', ',']);
        }
        document.push('\'');
        push_escaped(&mut document, entry.app.as_str());
        document.push('\'');
        document.push(',');
        assert(document@ =~= DOCUMENT_HEAD@ + labels_text(totals.take(i as int)) + seq!['\'']
            + escaped(entry@.app) + seq!['\'', ',']);
        i += 1;
    }
    assert(totals.take(totals.len() as int) =~= totals);
    document.append(DOCUMENT_MIDDLE);
    let ghost front = DOCUMENT_HEAD@ + labels_text(totals) + DOCUMENT_MIDDLE@;
    i = 0;
    assert(document@ =~= front + values_text(totals.take(0)));
    while i < entries.len()
        invariant
            i <= entries@.len() == totals.len(),
            forall|k: int| 0 <= k < entries@.len() ==> (#[trigger] entries@[k])@ == totals[k],
            document@ == front + values_text(totals.take(i as int)),
        decreases entries.len() - i,
    {
        let entry: &AppTotal = &entries[i];
        proof {
            let done = totals.take(i as int);
            let next = totals.take(i + 1);
            assert(next.drop_last() =~= done);
            assert(next.last() == entry@);
            assert(front + (values_text(done) + value_item(entry@.total_seconds)) =~= (front
                + values_text(done) + decimal_digits(entry@.total_seconds as nat)).push(','));
        }
        push_decimal(&mut document, entry.total_seconds);
        document.push(',');
        i += 1;
    }
    document.append(DOCUMENT_TAIL);
    document
}

/// Rendering depends on what the totals hold, not on the order in which
/// they were gathered: two lists of totals that stand for the same mapping
/// give charts with the same set of data points, and as many of them as the
/// mapping has applications.
pub proof fn law_same_totals_same_points(first: Seq<AppTotalView>, second: Seq<AppTotalView>)
    requires
        distinct_apps(first),
        distinct_apps(second),
        totals_map(first) == totals_map(second),
    ensures
        chart_points(first) == chart_points(second),
        first.len() == second.len(),
        first.len() == totals_map(first).dom().len(),
{
    law_chart_has_one_point_per_application(first);
    law_chart_has_one_point_per_application(second);
    assert(chart_points(first) =~= chart_points(second));
}

/// Every application of the totals is one data point of the chart, with its
/// seconds: the chart's points are the pairs of the mapping that the totals
/// stand for, and there are as many points as applications.
pub proof fn law_chart_has_one_point_per_application(totals: Seq<AppTotalView>)
    requires
        distinct_apps(totals),
    ensures
        forall|point: AppTotalView| #[trigger]
            chart_points(totals).contains(point) <==> totals_map(totals).contains_pair(
                point.app,
                point.total_seconds,
            ),
        chart_points(totals).len() == totals.len(),
        totals_map(totals).dom().finite(),
        totals_map(totals).dom().len() == totals.len(),
{
    assert forall|point: AppTotalView| #[trigger]
        chart_points(totals).contains(point) <==> totals_map(totals).contains_pair(
            point.app,
            point.total_seconds,
        ) by {
        if chart_points(totals).contains(point) {
            let i = choose|i: int| 0 <= i < totals.len() && totals[i] == point;
            lemma_entry_is_found(totals, i);
        }
        if totals_map(totals).contains_pair(point.app, point.total_seconds) {
            let i = index_of(totals, point.app);
            assert(totals[i] == point);
        }
    }
    assert(totals.no_duplicates()) by {
        assert forall|i: int, j: int| 0 <= i < totals.len() && 0 <= j < totals.len() && i
            != j implies totals[i] != totals[j] by {
            if i < j {
                assert(totals[i].app != totals[j].app);
            } else {
                assert(totals[j].app != totals[i].app);
            }
        }
    }
    totals.unique_seq_to_set();
    let apps = totals.map_values(|entry: AppTotalView| entry.app);
    assert(apps.no_duplicates()) by {
        assert forall|i: int, j: int| 0 <= i < apps.len() && 0 <= j < apps.len() && i
            != j implies apps[i] != apps[j] by {
            if i < j {
                assert(totals[i].app != totals[j].app);
            } else {
                assert(totals[j].app != totals[i].app);
            }
        }
    }
    apps.unique_seq_to_set();
    assert(apps.to_set() =~= totals_map(totals).dom()) by {
        assert forall|app: Seq<char>| apps.to_set().contains(app) <==> has_app(totals, app) by {
            if apps.to_set().contains(app) {
                let i = choose|i: int| 0 <= i < apps.len() && apps[i] == app;
                assert(totals[i].app == app);
            }
            if has_app(totals, app) {
                let i = index_of(totals, app);
                assert(apps[i] == app);
            }
        }
    }
}

} // verus!
