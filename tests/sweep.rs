use hbot::gate::{decide, Action, IncomingMessage};
use hbot::recency::RecencySet;
use hbot::sweep::{step, sweep, SweepStep, Wake, SWEEP_INTERVAL_SECS};

#[test]
fn sweep_interval_is_two_seconds() {
    assert_eq!(SWEEP_INTERVAL_SECS, 2);
}

#[test]
fn sweep_of_empty_set_reports_nothing() {
    let mut set = RecencySet::new();
    assert_eq!(sweep(&mut set), None);
    assert!(set.is_empty());
}

#[test]
fn sweep_clears_recent_subjects_and_counts_recordings() {
    let mut set = RecencySet::new();
    set.insert("A".to_string());
    set.insert("B".to_string());
    set.insert("A".to_string());
    assert_eq!(sweep(&mut set), Some(3));
    assert!(!set.contains(&"A".to_string()));
    assert!(!set.contains(&"B".to_string()));
    assert_eq!(sweep(&mut set), None);
}

#[test]
fn subject_may_trigger_again_after_sweep() {
    let mut set = RecencySet::new();
    set.insert("A".to_string());
    let m = IncomingMessage {
        author: "A".to_string(),
        self_authored: false,
        content: "h".to_string(),
    };
    assert_eq!(decide(&set, &m), Action::Warn);
    sweep(&mut set);
    assert_eq!(decide(&set, &m), Action::Respond);
}

#[test]
fn step_ticks_and_stops() {
    let mut set = RecencySet::new();
    assert_eq!(step(&mut set, Wake::Tick), SweepStep::Continue(None));
    set.insert("A".to_string());
    assert_eq!(step(&mut set, Wake::Shutdown), SweepStep::Stop);
    assert_eq!(set.len(), 1);
    assert_eq!(step(&mut set, Wake::Tick), SweepStep::Continue(Some(1)));
    assert!(set.is_empty());
}
