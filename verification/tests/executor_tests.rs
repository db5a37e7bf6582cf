//! Tests for the control-flow execution engine.

use gtypist_rs::{
    parse_lines, CollaboratorReply, Command, ExecutionResult, Executor, ExerciseOutcome, Percent,
    QueryAnswer, Script, ScriptError,
};

fn parse(content: &str) -> Script {
    let lines: Vec<String> = content.lines().map(|l| l.to_string()).collect();
    parse_lines(&lines, "test.typ").expect("script should parse")
}

#[test]
fn test_executor_creation() {
    let script_content = "\n*:START\nT:Test\nX:\n";

    let script = parse(script_content);
    let executor = Executor::new(script);

    assert_eq!(executor.error_percentage, Percent { hundredths: 0 });
    assert!(executor.failure_label.is_none());
}

#[test]
fn test_executor_basic_flow() {
    let script_content = "\n*:START\nI:Test instruction\nT:Test tutorial text\nG:END\n*:END\nX:\n";

    let script = parse(script_content);

    let executor = Executor::new(script);

    // Test that we can create and initialize the executor
    assert!(!executor.script.is_finished());
    assert_eq!(executor.error_percentage, Percent { hundredths: 0 });
    assert!(executor.failure_label.is_none());
}

#[test]
fn test_run_to_exit() {
    // Scenario: the cursor visits the label, the tutorial, the drill,
    // takes the jump (absorbing the Goto), then the end label and the
    // exit command.
    let mut executor = Executor::new(parse("*:START\nT:Hi\nD:go\nG:END\n*:END\nX:"));
    assert_eq!(executor.script.commands.len(), 6);
    assert_eq!(executor.script.labels.get("START"), Some(0));
    assert_eq!(executor.script.labels.get("END"), Some(4));

    let mut visited: Vec<usize> = Vec::new();
    let mut last = ExecutionResult::Continue;
    loop {
        let pos = executor.script.position;
        let reply = match executor.script.current_command() {
            Some(Command::Tutorial { .. }) | Some(Command::Drill { .. }) => {
                CollaboratorReply::Exercise(ExerciseOutcome::Completed)
            }
            _ => CollaboratorReply::NotNeeded,
        };
        match executor.execute_next(reply).unwrap() {
            ExecutionResult::Finished => break,
            ExecutionResult::Exit => {
                visited.push(pos);
                last = ExecutionResult::Exit;
                break;
            }
            r => {
                visited.push(pos);
                last = r;
            }
        }
    }
    assert_eq!(visited, vec![0, 1, 2, 3, 4, 5]);
    assert_eq!(last, ExecutionResult::Exit);
}

#[test]
fn test_menu_selection_jumps() {
    // Scenario: a menu with two items; selecting the second resolves to
    // its label's index.
    let content = "M: \"Pick\"\n :A \"desc A\"\n :B \"desc B\"\n*:A\nT:a\n*:B\nT:b";
    let mut executor = Executor::new(parse(content));
    match &executor.script.commands[0] {
        Command::Menu { items, .. } => {
            assert_eq!(items.len(), 2);
            assert_eq!(items[0].label, "A");
            assert_eq!(items[0].description, "desc A");
            assert_eq!(items[1].label, "B");
        }
        _ => panic!("Expected Menu command"),
    }

    let r = executor
        .execute_next(CollaboratorReply::Selection(Some("B".to_string())))
        .unwrap();
    assert_eq!(r, ExecutionResult::Continue);
    assert_eq!(executor.script.position, executor.script.labels.get("B").unwrap());
    match executor.script.current_command().unwrap() {
        Command::Label { name } => assert_eq!(name, "B"),
        _ => panic!("Expected to be at label B"),
    }
}

#[test]
fn test_menu_decline_exits() {
    let mut executor = Executor::new(parse("M: \"Pick\"\n :A \"desc A\"\n*:A\nT:a"));
    let r = executor.execute_next(CollaboratorReply::Selection(None)).unwrap();
    assert_eq!(r, ExecutionResult::Exit);
}

#[test]
fn test_drill_failure_redirects() {
    // Scenario: a failed drill jumps to the failure label when one was
    // set by F:.
    let content = "F:RETRY\nD:type me\nX:\n*:RETRY\nT:try again";
    let mut executor = Executor::new(parse(content));

    // F:RETRY sets the failure label.
    let r = executor.execute_next(CollaboratorReply::NotNeeded).unwrap();
    assert_eq!(r, ExecutionResult::Continue);
    assert_eq!(executor.failure_label.as_deref(), Some("RETRY"));

    // The drill fails: the next cycle lands on RETRY's index.
    let r = executor
        .execute_next(CollaboratorReply::Exercise(ExerciseOutcome::Failed))
        .unwrap();
    assert_eq!(r, ExecutionResult::Continue);
    assert_eq!(executor.script.position, executor.script.labels.get("RETRY").unwrap());
    match executor.script.current_command().unwrap() {
        Command::Label { name } => assert_eq!(name, "RETRY"),
        _ => panic!("Expected to be at RETRY"),
    }
}

#[test]
fn test_practice_drill_never_redirects() {
    // A practice-only drill never triggers failure redirection, even
    // with a failure label set and a failure reported.
    let content = "F:RETRY\nd:practice\nT:next\n*:RETRY\nT:again";
    let mut executor = Executor::new(parse(content));

    executor.execute_next(CollaboratorReply::NotNeeded).unwrap();
    assert_eq!(executor.failure_label.as_deref(), Some("RETRY"));

    let r = executor
        .execute_next(CollaboratorReply::Exercise(ExerciseOutcome::Failed))
        .unwrap();
    assert_eq!(r, ExecutionResult::Continue);
    assert_eq!(executor.script.position, 2);
}

#[test]
fn test_drill_failure_without_label_advances() {
    // With no failure label set, a failed drill simply advances.
    let mut executor = Executor::new(parse("D:type me\nT:next"));
    let r = executor
        .execute_next(CollaboratorReply::Exercise(ExerciseOutcome::Failed))
        .unwrap();
    assert_eq!(r, ExecutionResult::Continue);
    assert_eq!(executor.script.position, 1);
}

#[test]
fn test_goto_undefined_label_fails() {
    // A jump to an undefined label fails with LabelNotFound and never
    // panics or silently no-ops.
    let mut executor = Executor::new(parse("G:NOWHERE\nX:"));
    match executor.execute_next(CollaboratorReply::NotNeeded) {
        Err(ScriptError::LabelNotFound { label }) => assert_eq!(label, "NOWHERE"),
        other => panic!("expected LabelNotFound, got {:?}", other),
    }
    // The cursor did not move.
    assert_eq!(executor.script.position, 0);

    let mut script = parse("T:hello");
    match script.goto_label("MISSING") {
        Err(ScriptError::LabelNotFound { label }) => assert_eq!(label, "MISSING"),
        other => panic!("expected LabelNotFound, got {:?}", other),
    }
}

#[test]
fn test_finished_past_end() {
    // is_finished is true exactly at the length; next() past the end
    // keeps it true and current_command stays none.
    let mut script = parse("T:only");
    assert!(!script.is_finished());
    assert!(script.current_command().is_some());

    assert!(script.next().is_none());
    assert!(script.is_finished());
    assert_eq!(script.position, 1);

    for _ in 0..3 {
        assert!(script.next().is_none());
        assert!(script.is_finished());
        assert!(script.current_command().is_none());
        assert_eq!(script.position, 1);
    }

    let mut executor = Executor::new(script);
    let r = executor.execute_next(CollaboratorReply::NotNeeded).unwrap();
    assert_eq!(r, ExecutionResult::Finished);
}

#[test]
fn test_query_and_conditional_jumps() {
    // Y: jumps only after a yes answer; N: only after a no; the answer
    // persists until the next query overwrites it.
    let content = "Q:sure?\nY:YES_PATH\nN:NO_PATH\n*:YES_PATH\nT:yes\n*:NO_PATH\nT:no";
    let mut executor = Executor::new(parse(content));

    let r = executor
        .execute_next(CollaboratorReply::Answer(QueryAnswer::Yes))
        .unwrap();
    assert_eq!(r, ExecutionResult::Continue);
    assert_eq!(executor.last_query_response, Some(true));

    // Y:YES_PATH takes the jump.
    let r = executor.execute_next(CollaboratorReply::NotNeeded).unwrap();
    assert_eq!(r, ExecutionResult::Continue);
    assert_eq!(
        executor.script.position,
        executor.script.labels.get("YES_PATH").unwrap()
    );

    // A fresh run answering no: Y: falls through, N: jumps.
    let mut executor = Executor::new(parse(content));
    executor
        .execute_next(CollaboratorReply::Answer(QueryAnswer::No))
        .unwrap();
    assert_eq!(executor.last_query_response, Some(false));
    executor.execute_next(CollaboratorReply::NotNeeded).unwrap();
    assert_eq!(executor.script.position, 2);
    executor.execute_next(CollaboratorReply::NotNeeded).unwrap();
    assert_eq!(
        executor.script.position,
        executor.script.labels.get("NO_PATH").unwrap()
    );
}

#[test]
fn test_query_cancel_exits() {
    let mut executor = Executor::new(parse("Q:sure?\nX:"));
    let r = executor
        .execute_next(CollaboratorReply::Answer(QueryAnswer::Cancelled))
        .unwrap();
    assert_eq!(r, ExecutionResult::Exit);
    assert_eq!(executor.last_query_response, None);
}

#[test]
fn test_retry_re_presents_command() {
    // A retry request leaves the cursor on the same command.
    let mut executor = Executor::new(parse("D:again\nX:"));
    let r = executor
        .execute_next(CollaboratorReply::Exercise(ExerciseOutcome::Retry))
        .unwrap();
    assert_eq!(r, ExecutionResult::Continue);
    assert_eq!(executor.script.position, 0);
}

#[test]
fn test_error_max_set_updates_threshold() {
    let mut executor = Executor::new(parse("E:5%\nD:words\nX:"));
    executor.execute_next(CollaboratorReply::NotNeeded).unwrap();
    assert_eq!(executor.error_percentage, Percent { hundredths: 500 });
}

#[test]
fn test_instruction_waits_for_input() {
    let mut executor = Executor::new(parse("I:read this\nX:"));
    let r = executor.execute_next(CollaboratorReply::NotNeeded).unwrap();
    assert_eq!(r, ExecutionResult::WaitForInput);
    // The cursor has already advanced past the instruction.
    assert_eq!(executor.script.position, 1);
}

#[test]
fn test_collaborator_failure_is_swallowed() {
    // A collaborator's own failure maps to Continue (fail-soft).
    let mut executor = Executor::new(parse("T:hello\nX:"));
    let r = executor.execute_next(CollaboratorReply::Failed).unwrap();
    assert_eq!(r, ExecutionResult::Continue);
    assert_eq!(executor.script.position, 1);
}

#[test]
fn test_exercise_quit_exits() {
    let mut executor = Executor::new(parse("S:speed\nX:"));
    let r = executor
        .execute_next(CollaboratorReply::Exercise(ExerciseOutcome::Quit))
        .unwrap();
    assert_eq!(r, ExecutionResult::Exit);
    assert_eq!(executor.script.position, 0);
}
