//! Script command executor: the control-flow state machine that walks a
//! [`Script`] one command at a time.
//!
//! Interactive work (running an exercise, prompting, showing a menu) is
//! done by collaborators outside this crate.  The host inspects the
//! current command, performs whatever that collaborator does, and hands
//! the outcome back as a [`CollaboratorReply`]; the executor then applies
//! the control-flow rules, specified whole by [`step_model`].

use vstd::prelude::*;
use crate::exercises::ExerciseOutcome;
use crate::script::commands::{Command, CommandModel, Percent};
use crate::script::{Script, ScriptError, ScriptErrorModel, ScriptModel, ScriptResult};

verus! {

/// Result of executing a command.
#[derive(Debug, Clone, PartialEq)]
pub enum ExecutionResult {
    /// Continue to next command.
    Continue,
    /// Jump to a specific label.
    Jump(String),
    /// Exit the script.
    Exit,
    /// Script execution finished.
    Finished,
    /// Wait for user input.
    WaitForInput,
}

/// Mathematical image of an [`ExecutionResult`].
#[verifier::ext_equal]
pub enum ExecutionResultModel {
    Continue,
    Jump(Seq<char>),
    Exit,
    Finished,
    WaitForInput,
}

impl View for ExecutionResult {
    type V = ExecutionResultModel;

    open spec fn view(&self) -> ExecutionResultModel {
        match self {
            ExecutionResult::Continue => ExecutionResultModel::Continue,
            ExecutionResult::Jump(l) => ExecutionResultModel::Jump(l@),
            ExecutionResult::Exit => ExecutionResultModel::Exit,
            ExecutionResult::Finished => ExecutionResultModel::Finished,
            ExecutionResult::WaitForInput => ExecutionResultModel::WaitForInput,
        }
    }
}

/// What the yes/no prompt collaborator reports.
#[derive(Debug, Clone, Copy, PartialEq, Eq, Structural)]
pub enum QueryAnswer {
    Yes,
    No,
    Cancelled,
}

/// What the host hands back for the current command: the outcome of the
/// collaborator that the command delegates to, or `NotNeeded` for
/// commands that have none.  `Failed` reports a collaborator's own
/// failure, which the executor deliberately swallows (fail-soft).
#[derive(Debug, Clone, PartialEq)]
pub enum CollaboratorReply {
    /// The current command needs no collaborator.
    NotNeeded,
    /// Outcome of an exercise collaborator (Tutorial, Drill, SpeedTest
    /// and their file-backed variants).
    Exercise(ExerciseOutcome),
    /// Answer of the yes/no prompt, for Query.
    Answer(QueryAnswer),
    /// Menu selection: the chosen label, or `None` if the user declined.
    Selection(Option<String>),
    /// The collaborator itself failed.
    Failed,
}

/// Mathematical image of a [`CollaboratorReply`].
#[verifier::ext_equal]
pub enum CollaboratorReplyModel {
    NotNeeded,
    Exercise(ExerciseOutcome),
    Answer(QueryAnswer),
    Selection(Option<Seq<char>>),
    Failed,
}

impl View for CollaboratorReply {
    type V = CollaboratorReplyModel;

    open spec fn view(&self) -> CollaboratorReplyModel {
        match self {
            CollaboratorReply::NotNeeded => CollaboratorReplyModel::NotNeeded,
            CollaboratorReply::Exercise(o) => CollaboratorReplyModel::Exercise(*o),
            CollaboratorReply::Answer(a) => CollaboratorReplyModel::Answer(*a),
            CollaboratorReply::Selection(s) => CollaboratorReplyModel::Selection(
                match s {
                    Some(l) => Some(l@),
                    None => None,
                },
            ),
            CollaboratorReply::Failed => CollaboratorReplyModel::Failed,
        }
    }
}

/// The commands that delegate to an exercise collaborator.
pub open spec fn is_exercise(c: CommandModel) -> bool {
    ||| c is Tutorial
    ||| c is Drill
    ||| c is SpeedTest
    ||| c is TutorialFile
    ||| c is DrillFile
    ||| c is SpeedTestFile
}

/// Which replies a command can be answered with.
pub open spec fn reply_fits(c: CommandModel, reply: CollaboratorReplyModel) -> bool {
    if is_exercise(c) {
        reply is Exercise || reply is Failed
    } else if c is Query {
        reply is Answer
    } else if c is Menu {
        reply is Selection || reply is Failed
    } else {
        reply is NotNeeded
    }
}

/// Mathematical image of an [`Executor`].
#[verifier::ext_equal]
pub struct ExecutorModel {
    pub script: ScriptModel,
    pub error_percentage: Percent,
    pub failure_label: Option<Seq<char>>,
    pub last_query_response: Option<bool>,
}

/// Script executor state: the script it owns plus the session fields
/// that span command boundaries.
pub struct Executor {
    pub script: Script,
    /// Drill failure threshold, set by `E:`; zero means "engine default".
    pub error_percentage: Percent,
    /// Label a failed drill redirects to, set by `F:`.
    pub failure_label: Option<String>,
    /// The answer of the most recent Query, read by `Y:` and `N:`.
    pub last_query_response: Option<bool>,
}

impl View for Executor {
    type V = ExecutorModel;

    open spec fn view(&self) -> ExecutorModel {
        ExecutorModel {
            script: self.script@,
            error_percentage: self.error_percentage,
            failure_label: match &self.failure_label {
                Some(l) => Some(l@),
                None => None,
            },
            last_query_response: self.last_query_response,
        }
    }
}

/// Outcome of one command under a reply: the session fields after it,
/// and the raw result before any jump resolution or cursor movement.
pub open spec fn command_outcome(
    m: ExecutorModel,
    c: CommandModel,
    reply: CollaboratorReplyModel,
) -> (ExecutorModel, ExecutionResultModel) {
    match c {
        CommandModel::Comment { .. } => (m, ExecutionResultModel::Continue),
        CommandModel::Label { .. } => (m, ExecutionResultModel::Continue),
        CommandModel::KeyBind { .. } => (m, ExecutionResultModel::Continue),
        CommandModel::Clear { .. } => (m, ExecutionResultModel::Continue),
        CommandModel::Instruction { .. } => (m, ExecutionResultModel::WaitForInput),
        CommandModel::Goto { label } => (m, ExecutionResultModel::Jump(label)),
        CommandModel::Exit => (m, ExecutionResultModel::Exit),
        CommandModel::Tutorial { .. } => (m, plain_exercise_result(reply)),
        CommandModel::TutorialFile { .. } => (m, plain_exercise_result(reply)),
        CommandModel::SpeedTest { .. } => (m, plain_exercise_result(reply)),
        CommandModel::SpeedTestFile { .. } => (m, plain_exercise_result(reply)),
        CommandModel::Drill { practice_only, .. } => (m, drill_result(m, practice_only, reply)),
        CommandModel::DrillFile { practice_only, .. } => (
            m,
            drill_result(m, practice_only, reply),
        ),
        CommandModel::Query { .. } => match reply {
            CollaboratorReplyModel::Answer(QueryAnswer::Yes) => (
                ExecutorModel { last_query_response: Some(true), ..m },
                ExecutionResultModel::Continue,
            ),
            CollaboratorReplyModel::Answer(QueryAnswer::No) => (
                ExecutorModel { last_query_response: Some(false), ..m },
                ExecutionResultModel::Continue,
            ),
            CollaboratorReplyModel::Answer(QueryAnswer::Cancelled) => (
                m,
                ExecutionResultModel::Exit,
            ),
            _ => (m, ExecutionResultModel::Continue),
        },
        CommandModel::YesGoto { label } => {
            if m.last_query_response == Some(true) {
                (m, ExecutionResultModel::Jump(label))
            } else {
                (m, ExecutionResultModel::Continue)
            }
        },
        CommandModel::NoGoto { label } => {
            if m.last_query_response == Some(false) {
                (m, ExecutionResultModel::Jump(label))
            } else {
                (m, ExecutionResultModel::Continue)
            }
        },
        CommandModel::ErrorMaxSet { percentage } => (
            ExecutorModel { error_percentage: percentage, ..m },
            ExecutionResultModel::Continue,
        ),
        CommandModel::OnFailureSet { label } => (
            ExecutorModel { failure_label: Some(label), ..m },
            ExecutionResultModel::Continue,
        ),
        CommandModel::Menu { .. } => match reply {
            CollaboratorReplyModel::Selection(Some(l)) => (m, ExecutionResultModel::Jump(l)),
            CollaboratorReplyModel::Selection(None) => (m, ExecutionResultModel::Exit),
            _ => (m, ExecutionResultModel::Continue),
        },
    }
}

/// Exercise outcome mapping for exercises that cannot fail the lesson
/// (tutorials and speed tests): only Quit ends the script.
pub open spec fn plain_exercise_result(reply: CollaboratorReplyModel) -> ExecutionResultModel {
    match reply {
        CollaboratorReplyModel::Exercise(ExerciseOutcome::Quit) => ExecutionResultModel::Exit,
        _ => ExecutionResultModel::Continue,
    }
}

/// Exercise outcome mapping for drills: a failure redirects to the
/// failure label when one is set, and is otherwise ignored.  A
/// practice-only drill never triggers failure redirection, whatever is
/// reported of it.
pub open spec fn drill_result(
    m: ExecutorModel,
    practice_only: bool,
    reply: CollaboratorReplyModel,
) -> ExecutionResultModel {
    match reply {
        CollaboratorReplyModel::Exercise(ExerciseOutcome::Quit) => ExecutionResultModel::Exit,
        CollaboratorReplyModel::Exercise(ExerciseOutcome::Failed) => {
            if practice_only {
                ExecutionResultModel::Continue
            } else {
                match m.failure_label {
                    Some(l) => ExecutionResultModel::Jump(l),
                    None => ExecutionResultModel::Continue,
                }
            }
        },
        _ => ExecutionResultModel::Continue,
    }
}

/// A collaborator asked to re-present the current exercise.
pub open spec fn retry_requested(c: CommandModel, reply: CollaboratorReplyModel) -> bool {
    is_exercise(c) && reply == CollaboratorReplyModel::Exercise(ExerciseOutcome::Retry)
}

/// `m` with the cursor moved to `p`.
pub open spec fn with_position(m: ExecutorModel, p: int) -> ExecutorModel {
    ExecutorModel { script: ScriptModel { position: p, ..m.script }, ..m }
}

/// One whole step of the executor: Finished past the end; otherwise the
/// current command's outcome, with a Jump resolved through the label
/// table (absorbed into Continue, or LabelNotFound), and the cursor
/// advanced unless the script exits or a retry was requested.
pub open spec fn step_model(m: ExecutorModel, reply: CollaboratorReplyModel) -> (
    ExecutorModel,
    Result<ExecutionResultModel, ScriptErrorModel>,
) {
    if m.script.position >= m.script.commands.len() {
        (m, Ok(ExecutionResultModel::Finished))
    } else {
        let c = m.script.commands[m.script.position];
        let (m1, res) = command_outcome(m, c, reply);
        match res {
            ExecutionResultModel::Jump(l) => {
                if m1.script.labels.contains_key(l) {
                    (
                        with_position(m1, m1.script.labels[l]),
                        Ok(ExecutionResultModel::Continue),
                    )
                } else {
                    (m1, Err(ScriptErrorModel::LabelNotFound { label: l }))
                }
            },
            ExecutionResultModel::Exit => (m1, Ok(res)),
            _ => {
                if retry_requested(c, reply) {
                    (m1, Ok(res))
                } else {
                    (with_position(m1, m1.script.position + 1), Ok(res))
                }
            },
        }
    }
}

impl Executor {
    /// The owned script is well formed.
    pub open spec fn wf(self) -> bool {
        self.script.wf()
    }

    /// Create a new executor for a script, with no failure threshold, no
    /// failure label and no recorded answer.
    pub fn new(script: Script) -> (r: Executor)
        ensures
            r@ == (ExecutorModel {
                script: script@,
                error_percentage: Percent { hundredths: 0 },
                failure_label: None,
                last_query_response: None,
            }),
            script.wf() ==> r.wf(),
    {
        Executor {
            script,
            error_percentage: Percent { hundredths: 0 },
            failure_label: None,
            last_query_response: None,
        }
    }

    /// Apply the current command under the host's reply: the session
    /// fields change as the command dictates, and the raw result comes
    /// back for `execute_next` to resolve.
    fn execute_command(&mut self, reply: CollaboratorReply) -> (r: ExecutionResult)
        requires
            old(self)@.script.position < old(self)@.script.commands.len(),
        ensures
            ({
                let (m1, res) = command_outcome(
                    old(self)@,
                    old(self)@.script.commands[old(self)@.script.position],
                    reply@,
                );
                final(self)@ == m1 && r@ == res
            }),
            final(self).script == old(self).script,
    {
        let pos = self.script.position;
        match &self.script.commands[pos] {
            Command::Comment { .. } => ExecutionResult::Continue,
            Command::Label { .. } => ExecutionResult::Continue,
            Command::KeyBind { .. } => ExecutionResult::Continue,
            Command::Clear { .. } => ExecutionResult::Continue,
            Command::Instruction { .. } => ExecutionResult::WaitForInput,
            Command::Goto { label } => ExecutionResult::Jump(label.clone()),
            Command::Exit => ExecutionResult::Exit,
            Command::Tutorial { .. } | Command::TutorialFile { .. } | Command::SpeedTest {
                ..
            } | Command::SpeedTestFile { .. } => match reply {
                CollaboratorReply::Exercise(ExerciseOutcome::Quit) => ExecutionResult::Exit,
                _ => ExecutionResult::Continue,
            },
            Command::Drill { practice_only, .. } | Command::DrillFile {
                practice_only,
                ..
            } => match reply {
                CollaboratorReply::Exercise(ExerciseOutcome::Quit) => ExecutionResult::Exit,
                CollaboratorReply::Exercise(ExerciseOutcome::Failed) => {
                    if *practice_only {
                        ExecutionResult::Continue
                    } else {
                        match &self.failure_label {
                            Some(l) => ExecutionResult::Jump(l.clone()),
                            None => ExecutionResult::Continue,
                        }
                    }
                },
                _ => ExecutionResult::Continue,
            },
            Command::Query { .. } => match reply {
                CollaboratorReply::Answer(QueryAnswer::Yes) => {
                    self.last_query_response = Some(true);
                    ExecutionResult::Continue
                },
                CollaboratorReply::Answer(QueryAnswer::No) => {
                    self.last_query_response = Some(false);
                    ExecutionResult::Continue
                },
                CollaboratorReply::Answer(QueryAnswer::Cancelled) => ExecutionResult::Exit,
                _ => ExecutionResult::Continue,
            },
            Command::YesGoto { label } => match self.last_query_response {
                Some(true) => ExecutionResult::Jump(label.clone()),
                _ => ExecutionResult::Continue,
            },
            Command::NoGoto { label } => match self.last_query_response {
                Some(false) => ExecutionResult::Jump(label.clone()),
                _ => ExecutionResult::Continue,
            },
            Command::ErrorMaxSet { percentage } => {
                let p = *percentage;
                self.error_percentage = p;
                ExecutionResult::Continue
            },
            Command::OnFailureSet { label } => {
                let l = label.clone();
                self.failure_label = Some(l);
                ExecutionResult::Continue
            },
            Command::Menu { .. } => match reply {
                CollaboratorReply::Selection(Some(l)) => ExecutionResult::Jump(l),
                CollaboratorReply::Selection(None) => ExecutionResult::Exit,
                _ => ExecutionResult::Continue,
            },
        }
    }

    /// Execute the next command under the host's reply, as
    /// [`step_model`] dictates.
    pub fn execute_next(&mut self, reply: CollaboratorReply) -> (r: ScriptResult<
        ExecutionResult,
    >)
        requires
            old(self).wf(),
            old(self)@.script.position < old(self)@.script.commands.len() ==> reply_fits(
                old(self)@.script.commands[old(self)@.script.position],
                reply@,
            ),
        ensures
            final(self).wf(),
            ({
                let (m2, out) = step_model(old(self)@, reply@);
                &&& final(self)@ == m2
                &&& match r {
                    Ok(res) => out matches Ok(o) && res@ == o,
                    Err(e) => out matches Err(me) && e@ == me,
                }
            }),
    {
        if self.script.is_finished() {
            return Ok(ExecutionResult::Finished);
        }
        let pos = self.script.position;
        let retry = match (&self.script.commands[pos], &reply) {
            (Command::Tutorial { .. }, CollaboratorReply::Exercise(ExerciseOutcome::Retry))
                | (Command::Drill { .. }, CollaboratorReply::Exercise(ExerciseOutcome::Retry))
                | (Command::SpeedTest { .. }, CollaboratorReply::Exercise(
                    ExerciseOutcome::Retry,
                ))
                | (Command::TutorialFile { .. }, CollaboratorReply::Exercise(
                    ExerciseOutcome::Retry,
                ))
                | (Command::DrillFile { .. }, CollaboratorReply::Exercise(
                    ExerciseOutcome::Retry,
                ))
                | (Command::SpeedTestFile { .. }, CollaboratorReply::Exercise(
                    ExerciseOutcome::Retry,
                )) => true,
            _ => false,
        };
        proof {
            assert(retry == retry_requested(
                old(self)@.script.commands[old(self)@.script.position],
                reply@,
            ));
        }
        let result = self.execute_command(reply);
        match result {
            ExecutionResult::Jump(label) => {
                match self.script.goto_label(label.as_str()) {
                    Ok(()) => Ok(ExecutionResult::Continue),
                    Err(e) => Err(e),
                }
            },
            ExecutionResult::Exit => Ok(ExecutionResult::Exit),
            other => {
                if !retry {
                    self.script.next();
                }
                Ok(other)
            },
        }
    }
}

} // verus!
