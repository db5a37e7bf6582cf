//! Tests for the performance counters, grading messages and the drill
//! failure threshold.

use gtypist_rs::{DrillExercise, Percent, PerformanceGrade, PerformanceTracker};
use gtypist_rs::exercises::{get_content_width, SpeedTestExercise, TutorialExercise};

#[test]
fn test_tracker_counts() {
    let mut tracker = PerformanceTracker::new();
    assert_eq!(tracker.correct_chars(), 0);
    assert_eq!(tracker.errors(), 0);
    assert_eq!(tracker.backspaces(), 0);
    assert_eq!(tracker.total_keystrokes(), 0);
    assert_eq!(tracker.elapsed(), 0);

    for _ in 0..8 {
        tracker.record_correct_char();
    }
    for _ in 0..2 {
        tracker.record_error();
    }
    tracker.record_backspace();

    assert_eq!(tracker.correct_chars(), 8);
    assert_eq!(tracker.errors(), 2);
    assert_eq!(tracker.backspaces(), 1);
    assert_eq!(tracker.total_keystrokes(), 11);
}

#[test]
fn test_tracker_set_duration() {
    let mut tracker = PerformanceTracker::new();
    for _ in 0..50 {
        tracker.record_correct_char();
    }
    tracker.set_duration(60_000);
    assert_eq!(tracker.elapsed(), 60_000);
}

#[test]
fn test_grade_messages() {
    assert_eq!(
        PerformanceGrade::Excellent.message(),
        "Excellent typing! You're a speed demon!"
    );
    assert_eq!(
        PerformanceGrade::Good.message(),
        "Good job! Your typing skills are solid."
    );
    assert_eq!(
        PerformanceGrade::Fair.message(),
        "Not bad! Keep practicing to improve."
    );
    assert_eq!(
        PerformanceGrade::NeedsImprovement.message(),
        "Keep practicing - you'll get there!"
    );
}

#[test]
fn test_drill_threshold_default() {
    // A zero ceiling means "no explicit ceiling" and becomes 100%.
    let drill = DrillExercise::new("abc".to_string(), false, Percent { hundredths: 0 });
    assert_eq!(drill.max_error_rate, Percent { hundredths: 10000 });
    // An error rate can then never exceed it.
    assert!(!drill.exceeds_error_limit(0, 10));
    assert!(!drill.exceeds_error_limit(5, 5));

    let drill = DrillExercise::new("abc".to_string(), true, Percent { hundredths: 500 });
    assert_eq!(drill.max_error_rate, Percent { hundredths: 500 });
}

#[test]
fn test_drill_error_limit() {
    // Ceiling 5%: 2 errors out of 10 characters is 20%, over the limit;
    // 0 errors is under it; exactly 5% is not over it.
    let drill = DrillExercise::new("x".to_string(), false, Percent { hundredths: 500 });
    assert!(drill.exceeds_error_limit(8, 2));
    assert!(!drill.exceeds_error_limit(10, 0));
    assert!(!drill.exceeds_error_limit(19, 1));
    // Nothing typed yet: no failure.
    assert!(!drill.exceeds_error_limit(0, 0));
}

#[test]
fn test_exercise_constructors() {
    let tutorial = TutorialExercise::new("welcome".to_string());
    assert_eq!(tutorial.text, "welcome");

    let speed = SpeedTestExercise::new("fast".to_string(), true, Some(60));
    assert_eq!(speed.text, "fast");
    assert!(speed.practice_only);
    assert_eq!(speed.time_limit, Some(60));

    assert_eq!(get_content_width(), 50);
}
