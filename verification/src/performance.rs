//! Typing performance counters: correct characters, errors and
//! backspaces, with start time and final duration kept in milliseconds.
//! Rate formulas (words per minute and friends) belong to the display
//! side of the program, not to this crate.

use vstd::prelude::*;

verus! {

/// Mathematical image of a [`PerformanceTracker`].
#[verifier::ext_equal]
pub struct PerformanceModel {
    pub correct_chars: int,
    pub errors: int,
    pub backspaces: int,
    pub start_time: Option<int>,
    pub duration: Option<int>,
}

/// Performance tracking for typing exercises.
#[derive(Debug, Clone)]
pub struct PerformanceTracker {
    correct_chars: usize,
    errors: usize,
    backspaces: usize,
    start_time: Option<u64>,
    duration: Option<u64>,
}

impl View for PerformanceTracker {
    type V = PerformanceModel;

    closed spec fn view(&self) -> PerformanceModel {
        PerformanceModel {
            correct_chars: self.correct_chars as int,
            errors: self.errors as int,
            backspaces: self.backspaces as int,
            start_time: match self.start_time {
                Some(t) => Some(t as int),
                None => None,
            },
            duration: match self.duration {
                Some(d) => Some(d as int),
                None => None,
            },
        }
    }
}

/// Relies on std::time::SystemTime::now for the wall clock, read as
/// milliseconds since the Unix epoch; nothing is assumed of the value.
#[verifier::external_body]
fn now_millis() -> u64 {
    std::time::SystemTime::now()
        .duration_since(std::time::UNIX_EPOCH)
        .map(|d| d.as_millis() as u64)
        .unwrap_or(0)
}

impl PerformanceTracker {
    /// Create a new performance tracker.
    pub fn new() -> (r: Self)
        ensures
            r@ == (PerformanceModel {
                correct_chars: 0,
                errors: 0,
                backspaces: 0,
                start_time: None,
                duration: None,
            }),
    {
        Self { correct_chars: 0, errors: 0, backspaces: 0, start_time: None, duration: None }
    }

    /// Start timing; once started, the start time never moves.
    pub fn start(&mut self)
        ensures
            final(self)@.correct_chars == old(self)@.correct_chars,
            final(self)@.errors == old(self)@.errors,
            final(self)@.backspaces == old(self)@.backspaces,
            final(self)@.duration == old(self)@.duration,
            final(self)@.start_time is Some,
            old(self)@.start_time is Some ==> final(self)@.start_time == old(self)@.start_time,
    {
        if self.start_time.is_none() {
            self.start_time = Some(now_millis());
        }
    }

    /// Record a correctly typed character; timing starts on the first
    /// keystroke.
    pub fn record_correct_char(&mut self)
        requires
            old(self)@.correct_chars < usize::MAX,
        ensures
            final(self)@.correct_chars == old(self)@.correct_chars + 1,
            final(self)@.errors == old(self)@.errors,
            final(self)@.backspaces == old(self)@.backspaces,
            final(self)@.duration == old(self)@.duration,
            final(self)@.start_time is Some,
            old(self)@.start_time is Some ==> final(self)@.start_time == old(self)@.start_time,
    {
        self.start();
        self.correct_chars = self.correct_chars + 1;
    }

    /// Record an incorrectly typed character; timing starts on the first
    /// keystroke.
    pub fn record_error(&mut self)
        requires
            old(self)@.errors < usize::MAX,
        ensures
            final(self)@.errors == old(self)@.errors + 1,
            final(self)@.correct_chars == old(self)@.correct_chars,
            final(self)@.backspaces == old(self)@.backspaces,
            final(self)@.duration == old(self)@.duration,
            final(self)@.start_time is Some,
            old(self)@.start_time is Some ==> final(self)@.start_time == old(self)@.start_time,
    {
        self.start();
        self.errors = self.errors + 1;
    }

    /// Record a backspace operation.
    pub fn record_backspace(&mut self)
        requires
            old(self)@.backspaces < usize::MAX,
        ensures
            final(self)@ == (PerformanceModel {
                backspaces: old(self)@.backspaces + 1,
                ..old(self)@
            }),
    {
        self.backspaces = self.backspaces + 1;
    }

    /// Set the final duration, in milliseconds, for a completed exercise.
    pub fn set_duration(&mut self, duration: u64)
        ensures
            final(self)@ == (PerformanceModel {
                duration: Some(duration as int),
                ..old(self)@
            }),
    {
        self.duration = Some(duration);
    }

    /// Elapsed milliseconds: the recorded duration if one was set, the
    /// wall-clock time since start while running, and zero before any
    /// keystroke.
    pub fn elapsed(&self) -> (r: u64)
        ensures
            self@.duration matches Some(d) ==> r == d,
            self@.duration is None && self@.start_time is None ==> r == 0,
    {
        match self.duration {
            Some(d) => d,
            None => match self.start_time {
                Some(s) => {
                    let now = now_millis();
                    if now >= s {
                        now - s
                    } else {
                        0
                    }
                },
                None => 0,
            },
        }
    }

    /// Get correct character count.
    pub fn correct_chars(&self) -> (n: usize)
        ensures
            n == self@.correct_chars,
    {
        self.correct_chars
    }

    /// Get error count.
    pub fn errors(&self) -> (n: usize)
        ensures
            n == self@.errors,
    {
        self.errors
    }

    /// Get backspace count.
    pub fn backspaces(&self) -> (n: usize)
        ensures
            n == self@.backspaces,
    {
        self.backspaces
    }

    /// Get total keystrokes, errors and backspaces included.
    pub fn total_keystrokes(&self) -> (n: usize)
        requires
            self@.correct_chars + self@.errors + self@.backspaces <= usize::MAX,
        ensures
            n == self@.correct_chars + self@.errors + self@.backspaces,
    {
        self.correct_chars + self.errors + self.backspaces
    }
}

impl Default for PerformanceTracker {
    fn default() -> (r: Self)
        ensures
            r@ == (PerformanceModel {
                correct_chars: 0,
                errors: 0,
                backspaces: 0,
                start_time: None,
                duration: None,
            }),
    {
        Self::new()
    }
}

/// Performance grading levels.
#[derive(Debug, Clone, Copy, PartialEq, Eq, Structural)]
pub enum PerformanceGrade {
    Excellent,
    Good,
    Fair,
    NeedsImprovement,
}

impl PerformanceGrade {
    /// A descriptive message for the grade.
    pub fn message(&self) -> (m: &'static str)
        ensures
            match self {
                PerformanceGrade::Excellent => m@ == "Excellent typing! You're a speed demon!"@,
                PerformanceGrade::Good => m@ == "Good job! Your typing skills are solid."@,
                PerformanceGrade::Fair => m@ == "Not bad! Keep practicing to improve."@,
                PerformanceGrade::NeedsImprovement => m@
                    == "Keep practicing - you'll get there!"@,
            },
    {
        match self {
            PerformanceGrade::Excellent => "Excellent typing! You're a speed demon!",
            PerformanceGrade::Good => "Good job! Your typing skills are solid.",
            PerformanceGrade::Fair => "Not bad! Keep practicing to improve.",
            PerformanceGrade::NeedsImprovement => "Keep practicing - you'll get there!",
        }
    }
}

} // verus!
