use lazy_monitor::aggregate::AggregateStats;
use lazy_monitor::detector::UsageInterval;
use lazy_monitor::moment::Moment;
use lazy_monitor::report::{render, DOCUMENT_HEAD, DOCUMENT_MIDDLE, DOCUMENT_TAIL};

fn spent(app: &str, seconds: u64) -> UsageInterval {
    UsageInterval {
        app: app.to_string(),
        started_at: Moment::from_secs(0),
        ended_at: Moment::from_secs(seconds),
        duration_seconds: seconds,
    }
}

fn page(labels: &str, data: &str) -> String {
    format!(
        r#"
<!DOCTYPE html>
<html>
<head>
    <title>My Lazy Monitor</title>
    <script src="https://cdn.jsdelivr.net/npm/chart.js"></script>
    <style>
        body {{ font-family: sans-serif; text-align: center; padding: 50px; background: #f4f4f9; }}
        .container {{ width: 60%; margin: auto; background: white; padding: 20px; border-radius: 10px; box-shadow: 0 0 10px rgba(0,0,0,0.1); }}
    </style>
</head>
<body>
    <div class="container">
        <h2>💻 App Usage Time Distribution (seconds)</h2>
        <canvas id="myChart"></canvas>
    </div>
    <script>
        const ctx = document.getElementById('myChart');
        new Chart(ctx, {{
            type: 'doughnut',
            data: {{
                labels: [{labels}],
                datasets: [{{
                    label: 'Usage Time (seconds)',
                    data: [{data}], 
                    borderWidth: 1
                }}]
            }}
        }});
    </script>
</body>
</html>
"#,
        labels = labels,
        data = data
    )
}

#[test]
fn fixed_text_is_the_page_around_the_lists() {
    assert_eq!(format!("{}{}{}", DOCUMENT_HEAD, DOCUMENT_MIDDLE, DOCUMENT_TAIL), page("", ""));
    assert!(DOCUMENT_HEAD.ends_with("labels: ["));
    assert!(DOCUMENT_MIDDLE.ends_with("data: ["));
}

#[test]
fn empty_totals_give_an_empty_chart() {
    assert_eq!(render(&AggregateStats::new()), page("", ""));
}

#[test]
fn one_application_gives_one_segment() {
    let mut stats = AggregateStats::new();
    stats.apply(&spent("Firefox", 42));
    assert_eq!(render(&stats), page("'Firefox',", "42,"));
}

#[test]
fn segments_follow_the_order_of_first_use() {
    let mut stats = AggregateStats::new();
    stats.apply(&spent("Editor", 7));
    stats.apply(&spent("Browser", 30));
    stats.apply(&spent("Editor", 5));
    stats.apply(&spent("System/Idle", 600));
    assert_eq!(
        render(&stats),
        page("'Editor','Browser','System/Idle',", "12,30,600,")
    );
}

#[test]
fn names_are_escaped_in_labels() {
    let mut stats = AggregateStats::new();
    stats.apply(&spent("it's", 3));
    stats.apply(&spent("</script><script>alert(1)", 4));
    stats.apply(&spent("a\\b\n", 5));
    assert_eq!(
        render(&stats),
        page(
            "'it\\u{000027}s','\\u{00003C}/script\\u{00003E}\\u{00003C}script\\u{00003E}alert(1)','a\\u{00005C}b\\u{00000A}',",
            "3,4,5,"
        )
    );
}

#[test]
fn no_name_can_leave_its_quotes() {
    let mut stats = AggregateStats::new();
    stats.apply(&spent("'],datasets:[]}});alert('x", 9));
    let document = render(&stats);
    let labels = document
        .strip_prefix(DOCUMENT_HEAD)
        .unwrap()
        .split(DOCUMENT_MIDDLE)
        .next()
        .unwrap()
        .to_string();
    assert_eq!(labels.matches('\'').count(), 2);
    assert!(labels.starts_with('\''));
    assert!(labels.ends_with("',"));
    assert!(!labels.contains('<'));
}

#[test]
fn rendering_twice_gives_the_same_document() {
    let mut stats = AggregateStats::new();
    stats.apply(&spent("Editor", 7));
    stats.apply(&spent("Browser", 30));
    assert_eq!(render(&stats), render(&stats));
}

fn points(stats: &AggregateStats) -> Vec<(String, u64)> {
    let document = render(stats);
    let rest = document.strip_prefix(DOCUMENT_HEAD).unwrap();
    let (labels, rest) = rest.split_once(DOCUMENT_MIDDLE).unwrap();
    let values = rest.strip_suffix(DOCUMENT_TAIL).unwrap();
    let labels: Vec<String> = labels
        .split_terminator(',')
        .map(|label| label.trim_matches('\'').to_string())
        .collect();
    let values: Vec<u64> = values.split_terminator(',').map(|v| v.parse().unwrap()).collect();
    assert_eq!(labels.len(), values.len());
    let mut points: Vec<(String, u64)> = labels.into_iter().zip(values).collect();
    points.sort();
    points
}

#[test]
fn equal_totals_give_the_same_points_in_any_order() {
    let mut first = AggregateStats::new();
    first.apply(&spent("Editor", 7));
    first.apply(&spent("Browser", 30));
    first.apply(&spent("Terminal", 2));
    first.apply(&spent("Editor", 5));
    let mut second = AggregateStats::new();
    second.apply(&spent("Terminal", 2));
    second.apply(&spent("Editor", 12));
    second.apply(&spent("Browser", 10));
    second.apply(&spent("Browser", 20));
    assert_ne!(render(&first), render(&second));
    assert_eq!(points(&first), points(&second));
    assert_eq!(
        points(&first),
        vec![
            ("Browser".to_string(), 30),
            ("Editor".to_string(), 12),
            ("Terminal".to_string(), 2)
        ]
    );
}
