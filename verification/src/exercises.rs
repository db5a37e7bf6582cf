//! Exercise descriptions.  The interactive runners (keystroke capture,
//! rendering, timing) live outside this crate; here are the value types
//! they are built from, and the exact failure-threshold rule a drill
//! applies.

use vstd::prelude::*;
use crate::script::commands::Percent;

verus! {

/// What an exercise collaborator reports back to the executor.  The
/// statistics of a completed exercise are the collaborator's own affair
/// and are not carried here.
#[derive(Debug, Clone, Copy, PartialEq, Eq, Structural)]
pub enum ExerciseOutcome {
    /// Exercise completed successfully.
    Completed,
    /// User quit the exercise.
    Quit,
    /// Exercise failed (too many errors).
    Failed,
    /// User requested retry.
    Retry,
}

/// Tutorial exercise - display-only, no user input required.
#[derive(Debug, Clone)]
pub struct TutorialExercise {
    pub text: String,
}

impl TutorialExercise {
    pub fn new(text: String) -> (r: Self)
        ensures
            r.text@ == text@,
    {
        Self { text }
    }
}

/// Drill exercise - typing practice with error tracking.
#[derive(Debug, Clone)]
pub struct DrillExercise {
    pub text: String,
    pub practice_only: bool,
    /// The failure ceiling; a drill fails once its error rate exceeds it.
    pub max_error_rate: Percent,
}

impl DrillExercise {
    /// A zero ceiling means "no explicit ceiling" and becomes one hundred
    /// percent, which an error rate can never exceed.
    pub fn new(text: String, practice_only: bool, max_error_rate: Percent) -> (r: Self)
        ensures
            r.text@ == text@,
            r.practice_only == practice_only,
            r.max_error_rate == (if max_error_rate.hundredths == 0 {
                Percent { hundredths: 10000 }
            } else {
                max_error_rate
            }),
    {
        Self {
            text,
            practice_only,
            max_error_rate: if max_error_rate.hundredths == 0 {
                Percent { hundredths: 10000 }
            } else {
                max_error_rate
            },
        }
    }

    /// The failure rule: the error rate, in percent of the characters
    /// typed so far, strictly exceeds the ceiling.  Stated over the exact
    /// rational comparison `errors / total * 100 > ceiling / 100`.
    pub open spec fn exceeds_spec(self, correct: int, errors: int) -> bool {
        let total = correct + errors;
        total > 0 && errors * 10000 > self.max_error_rate.hundredths * total
    }

    /// Runtime check of [`DrillExercise::exceeds_spec`].
    pub fn exceeds_error_limit(&self, correct_chars: usize, errors: usize) -> (b: bool)
        ensures
            b == self.exceeds_spec(correct_chars as int, errors as int),
    {
        let total: u128 = (correct_chars as u128) + (errors as u128);
        if total == 0 {
            false
        } else {
            let h: u128 = self.max_error_rate.hundredths as u128;
            proof {
                assert(h * total <= 0xffff_ffffu128 * 0x2_0000_0000_0000_0000u128)
                    by (nonlinear_arith)
                    requires
                        0 <= h <= 0xffff_ffffu128,
                        0 <= total <= 0x2_0000_0000_0000_0000u128,
                ;
            }
            (errors as u128) * 10000 > h * total
        }
    }
}

/// Speed test exercise - timed typing, with an optional time limit in
/// seconds.
#[derive(Debug, Clone)]
pub struct SpeedTestExercise {
    pub text: String,
    pub practice_only: bool,
    pub time_limit: Option<u64>,
}

impl SpeedTestExercise {
    pub fn new(text: String, practice_only: bool, time_limit: Option<u64>) -> (r: Self)
        ensures
            r.text@ == text@,
            r.practice_only == practice_only,
            r.time_limit == time_limit,
    {
        Self { text, practice_only, time_limit }
    }
}

/// Line width for exercise text content: a fixed, readable width.
pub fn get_content_width() -> (w: usize)
    ensures
        w == 50,
{
    50
}

} // verus!
