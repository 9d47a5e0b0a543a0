use lazy_monitor::aggregate::{AggregateStats, AppTotal};
use lazy_monitor::detector::{Sample, TrackerState, UsageInterval};
use lazy_monitor::moment::Moment;
use lazy_monitor::report::render;
use lazy_monitor::tracker::{Emission, Tracker};

fn sample(app: &str, secs: u64) -> Sample {
    Sample::new(Some(app.to_string()), Moment::from_secs(secs))
}

fn interval(app: &str, from_secs: u64, to_secs: u64) -> UsageInterval {
    UsageInterval {
        app: app.to_string(),
        started_at: Moment::from_secs(from_secs),
        ended_at: Moment::from_secs(to_secs),
        duration_seconds: to_secs - from_secs,
    }
}

fn entry(app: &str, total_seconds: u64) -> AppTotal {
    AppTotal { app: app.to_string(), total_seconds }
}

fn is_stamp(text: &str) -> bool {
    let layout = "dddd-dd-dd dd:dd:dd";
    text.len() == layout.len()
        && text
            .chars()
            .zip(layout.chars())
            .all(|(ch, slot)| if slot == 'd' { ch.is_ascii_digit() } else { ch == slot })
}

#[test]
fn new_tracker_has_no_application_and_no_totals() {
    let tracker = Tracker::new(Moment::from_secs(3));
    assert_eq!(tracker.state, TrackerState::new(Moment::from_secs(3)));
    assert_eq!(tracker.stats, AggregateStats::new());
    assert_eq!(tracker.stats.len(), 0);
}

#[test]
fn emit_folds_once_and_frames_the_record() {
    let mut tracker = Tracker::new(Moment::from_secs(0));
    let state = tracker.state.clone();
    let emission = tracker.emit(interval("Firefox", 5, 47), "2024-03-09 14:05:59".to_string());
    assert_eq!(tracker.state, state);
    assert_eq!(tracker.stats.entries(), &vec![entry("Firefox", 42)]);
    assert_eq!(
        emission,
        Emission {
            interval: interval("Firefox", 5, 47),
            timestamp: "2024-03-09 14:05:59".to_string(),
            log_line: "2024-03-09 14:05:59,Firefox,42\n".to_string(),
            report: render(&tracker.stats),
        }
    );
    assert!(emission.report.contains("labels: ['Firefox',],"));
    assert!(emission.report.contains("data: [42,], "));
}

#[test]
fn emit_reports_the_totals_after_the_interval() {
    let mut tracker = Tracker::new(Moment::from_secs(0));
    tracker.emit(interval("Firefox", 0, 10), "2024-03-09 14:00:10".to_string());
    tracker.emit(interval("Editor", 10, 13), "2024-03-09 14:00:13".to_string());
    let emission = tracker.emit(interval("Firefox", 13, 20), "2024-03-09 14:00:20".to_string());
    assert_eq!(emission.log_line, "2024-03-09 14:00:20,Firefox,7\n");
    assert!(emission.report.contains("labels: ['Firefox','Editor',],"));
    assert!(emission.report.contains("data: [17,3,], "));
}

#[test]
fn tick_without_transition_hands_back_nothing() {
    let mut tracker = Tracker::new(Moment::from_secs(0));
    assert_eq!(tracker.tick(&sample("Editor", 0)), None);
    assert_eq!(tracker.tick(&sample("Editor", 1)), None);
    assert_eq!(tracker.tick(&sample("Editor", 900)), None);
    assert_eq!(tracker.stats.len(), 0);
    assert_eq!(tracker.state.current_app, Some("Editor".to_string()));
    assert_eq!(tracker.state.interval_started_at, Moment::from_secs(0));
}

#[test]
fn tick_drops_a_flicker() {
    let mut tracker = Tracker::new(Moment::from_secs(0));
    assert_eq!(tracker.tick(&sample("Editor", 0)), None);
    assert_eq!(tracker.tick(&sample("Popup", 30)).map(|e| e.interval), Some(interval("Editor", 0, 30)));
    assert_eq!(tracker.tick(&sample("Editor", 31)), None);
    assert_eq!(tracker.stats.entries(), &vec![entry("Editor", 30)]);
    assert_eq!(tracker.stats.total(&"Popup".to_string()), 0);
}

#[test]
fn tick_stamps_the_record_with_the_local_time() {
    let mut tracker = Tracker::new(Moment::from_secs(0));
    tracker.tick(&sample("Editor", 0));
    let emission = tracker.tick(&sample("Browser", 8)).unwrap();
    assert!(is_stamp(&emission.timestamp), "{:?}", emission.timestamp);
    assert_eq!(emission.interval, interval("Editor", 0, 8));
    assert_eq!(emission.log_line, format!("{},Editor,8\n", emission.timestamp));
    assert_eq!(emission.report, render(&tracker.stats));
    assert_eq!(tracker.stats.entries(), &vec![entry("Editor", 8)]);
}

#[test]
fn end_to_end_scenario() {
    let mut tracker = Tracker::new(Moment::from_secs(0));
    let apps = ["A", "A", "A", "B", "B", "B", "B", "B", "A", "A"];
    let mut emitted: Vec<(u64, UsageInterval)> = Vec::new();
    let mut log = String::new();
    for (t, app) in apps.iter().enumerate() {
        if let Some(emission) = tracker.tick(&sample(app, t as u64)) {
            log.push_str(&emission.log_line);
            emitted.push((t as u64, emission.interval));
        }
    }
    assert_eq!(emitted, vec![(3, interval("A", 0, 3)), (8, interval("B", 3, 8))]);
    assert_eq!(emitted[0].1.duration_seconds, 3);
    assert_eq!(emitted[1].1.duration_seconds, 5);
    assert_eq!(tracker.stats.total(&"A".to_string()), 3);
    assert_eq!(tracker.stats.total(&"B".to_string()), 5);
    assert_eq!(tracker.stats.entries(), &vec![entry("A", 3), entry("B", 5)]);
    assert_eq!(tracker.state.current_app, Some("A".to_string()));
    assert_eq!(tracker.state.interval_started_at, Moment::from_secs(8));
    let records: Vec<&str> = log.lines().collect();
    assert_eq!(records.len(), 2);
    assert!(records[0].ends_with(",A,3"));
    assert!(records[1].ends_with(",B,5"));
}

#[test]
fn every_emission_has_one_matching_record() {
    let mut tracker = Tracker::new(Moment::from_secs(0));
    let apps = ["A", "B", "B", "C", "A", "A", "A", "C", "B", "B", "B", "A"];
    let mut emissions: Vec<Emission> = Vec::new();
    for (i, app) in apps.iter().enumerate() {
        if let Some(emission) = tracker.tick(&sample(app, 3 * i as u64)) {
            emissions.push(emission);
        }
    }
    assert_eq!(emissions.len(), 6);
    for emission in &emissions {
        assert_eq!(emission.log_line.matches('\n').count(), 1);
        let record = emission.log_line.strip_suffix('\n').unwrap();
        let fields: Vec<&str> = record.split(',').collect();
        assert_eq!(fields.len(), 3);
        assert_eq!(fields[0], emission.timestamp);
        assert_eq!(fields[1], emission.interval.app);
        assert_eq!(fields[2], emission.interval.duration_seconds.to_string());
    }
    assert_eq!(tracker.stats.total(&"A".to_string()), 3 + 9);
    assert_eq!(tracker.stats.total(&"B".to_string()), 6 + 9);
    assert_eq!(tracker.stats.total(&"C".to_string()), 3 + 3);
}

#[test]
fn restart_begins_from_empty_totals() {
    let mut first = Tracker::new(Moment::from_secs(0));
    first.tick(&sample("Editor", 0));
    first.tick(&sample("Browser", 50));
    assert_eq!(first.stats.total(&"Editor".to_string()), 50);
    let second = Tracker::new(Moment::from_secs(0));
    assert_eq!(second.stats.len(), 0);
    assert_eq!(second.stats.total(&"Editor".to_string()), 0);
    assert_eq!(second.state.current_app, None);
}

#[test]
fn open_interval_is_lost_at_the_end() {
    let mut tracker = Tracker::new(Moment::from_secs(0));
    tracker.tick(&sample("Editor", 0));
    tracker.tick(&sample("Editor", 1000));
    assert_eq!(tracker.stats.total(&"Editor".to_string()), 0);
    assert_eq!(tracker.stats.len(), 0);
}
