use ternary_prophet::{AccuracyTracker, Ternary};

fn accuracy(tracker: &AccuracyTracker) -> f64 {
    if tracker.total() == 0 {
        return 0.0;
    }
    tracker.correct() as f64 / tracker.total() as f64
}

fn recent_accuracy(tracker: &AccuracyTracker, n: usize) -> f64 {
    let (hits, len) = tracker.recent_hits(n);
    if len == 0 {
        return 0.0;
    }
    hits as f64 / len as f64
}

#[test]
fn test_accuracy_tracker() {
    let mut tracker = AccuracyTracker::new();
    tracker.record(Ternary::Positive, Ternary::Positive);
    tracker.record(Ternary::Negative, Ternary::Positive);
    tracker.record(Ternary::Zero, Ternary::Zero);
    assert!((accuracy(&tracker) - 0.6667).abs() < 0.01);
}

#[test]
fn test_accuracy_tracker_perfect() {
    let mut tracker = AccuracyTracker::new();
    tracker.record(Ternary::Positive, Ternary::Positive);
    tracker.record(Ternary::Positive, Ternary::Positive);
    assert!((accuracy(&tracker) - 1.0).abs() < f64::EPSILON);
}

#[test]
fn test_accuracy_tracker_recent() {
    let mut tracker = AccuracyTracker::new();
    tracker.record(Ternary::Positive, Ternary::Negative); // miss
    tracker.record(Ternary::Positive, Ternary::Positive); // hit
    assert!((recent_accuracy(&tracker, 1) - 1.0).abs() < f64::EPSILON);
}

#[test]
fn test_accuracy_confusion_matrix() {
    let mut tracker = AccuracyTracker::new();
    tracker.record(Ternary::Positive, Ternary::Positive);
    tracker.record(Ternary::Negative, Ternary::Negative);
    let matrix = tracker.confusion_matrix();
    assert_eq!(matrix[2][2], 1); // Positive predicted Positive
    assert_eq!(matrix[0][0], 1); // Negative predicted Negative
}

#[test]
fn counts_of_a_fresh_tracker_are_zero() {
    let tracker = AccuracyTracker::default();
    assert_eq!(tracker.total(), 0);
    assert_eq!(tracker.correct(), 0);
    assert_eq!(tracker.recent_hits(5), (0, 0));
    assert_eq!(tracker.confusion_matrix(), [[0; 3]; 3]);
    assert_eq!(accuracy(&tracker), 0.0);
}

#[test]
fn confusion_matrix_accounts_for_every_record() {
    let mut tracker = AccuracyTracker::new();
    let pairs = [
        (Ternary::Positive, Ternary::Negative),
        (Ternary::Zero, Ternary::Zero),
        (Ternary::Negative, Ternary::Zero),
        (Ternary::Positive, Ternary::Negative),
        (Ternary::Zero, Ternary::Positive),
        (Ternary::Negative, Ternary::Negative),
    ];
    for (p, a) in pairs {
        tracker.record(p, a);
    }
    let m = tracker.confusion_matrix();
    assert_eq!(m, [[1, 1, 0], [0, 1, 1], [2, 0, 0]]);
    let total: usize = m.iter().map(|row| row.iter().sum::<usize>()).sum();
    assert_eq!(total, tracker.total());
    assert_eq!(m[0][0] + m[1][1] + m[2][2], tracker.correct());
    assert_eq!(tracker.correct(), 2);
}

#[test]
fn recent_window_covers_at_most_the_history() {
    let mut tracker = AccuracyTracker::new();
    tracker.record(Ternary::Zero, Ternary::Zero); // hit
    tracker.record(Ternary::Zero, Ternary::Positive); // miss
    tracker.record(Ternary::Positive, Ternary::Positive); // hit
    assert_eq!(tracker.recent_hits(2), (1, 2));
    assert_eq!(tracker.recent_hits(3), (2, 3));
    assert_eq!(tracker.recent_hits(10), (tracker.correct(), tracker.total()));
    assert_eq!(tracker.recent_hits(0), (0, 0));
}

#[test]
fn order_of_records_does_not_matter() {
    let mut a = AccuracyTracker::new();
    let mut b = AccuracyTracker::new();
    a.record(Ternary::Zero, Ternary::Zero);
    b.record(Ternary::Zero, Ternary::Zero);
    a.record(Ternary::Positive, Ternary::Negative);
    a.record(Ternary::Negative, Ternary::Negative);
    b.record(Ternary::Negative, Ternary::Negative);
    b.record(Ternary::Positive, Ternary::Negative);
    assert_eq!(a.total(), b.total());
    assert_eq!(a.correct(), b.correct());
    assert_eq!(a.confusion_matrix(), b.confusion_matrix());
}
