//! Lesson-script interpreter for a terminal typing tutor.
//!
//! The crate compiles a line-oriented lesson DSL into an addressable command
//! sequence (a [`script::Script`]) and drives a label-indexed execution cursor
//! through it.  Interactive collaborators (exercise runners, menus, prompts)
//! are kept outside this crate behind small data-only interfaces.

pub mod exercises;
pub mod menu;
pub mod performance;
pub mod script;
pub mod text;

pub use script::commands::{Command, Percent};
pub use script::executor::{CollaboratorReply, ExecutionResult, Executor, QueryAnswer};
pub use script::parser::parse_lines;
pub use script::{Script, ScriptError, ScriptResult};
pub use exercises::{DrillExercise, ExerciseOutcome, SpeedTestExercise, TutorialExercise};
pub use menu::{Menu, MenuItem};
pub use performance::{PerformanceGrade, PerformanceTracker};
