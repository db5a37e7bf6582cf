//! Tests for single-line command parsing.

use gtypist_rs::{Command, Percent, ScriptError};

#[test]
fn parser_test_command_parsing() {
    assert!(matches!(
        Command::parse_line("T:Hello world", 1).unwrap(),
        Some(Command::Tutorial { text }) if text == "Hello world"
    ));

    assert!(matches!(
        Command::parse_line("D:Type this", 1).unwrap(),
        Some(Command::Drill { text, practice_only: false }) if text == "Type this"
    ));

    assert!(matches!(
        Command::parse_line("d:Practice only", 1).unwrap(),
        Some(Command::Drill { text, practice_only: true }) if text == "Practice only"
    ));

    assert!(matches!(
        Command::parse_line("*:LABEL_NAME", 1).unwrap(),
        Some(Command::Label { name }) if name == "LABEL_NAME"
    ));
}

#[test]
fn integration_tests_test_command_parsing() {
    // Test tutorial command
    let cmd = Command::parse_line("T:Hello world", 1).unwrap().unwrap();
    match cmd {
        Command::Tutorial { text } => assert_eq!(text, "Hello world"),
        _ => panic!("Expected Tutorial command"),
    }

    // Test drill command
    let cmd = Command::parse_line("D:Type this", 1).unwrap().unwrap();
    match cmd {
        Command::Drill { text, practice_only } => {
            assert_eq!(text, "Type this");
            assert!(!practice_only);
        }
        _ => panic!("Expected Drill command"),
    }

    // Test label command
    let cmd = Command::parse_line("*:MYLABEL", 1).unwrap().unwrap();
    match cmd {
        Command::Label { name } => assert_eq!(name, "MYLABEL"),
        _ => panic!("Expected Label command"),
    }
}

#[test]
fn test_error_percentage_parsing() {
    // Test percentage with % sign
    let cmd = Command::parse_line("E:5%", 1).unwrap().unwrap();
    match cmd {
        Command::ErrorMaxSet { percentage } => {
            assert_eq!(percentage, Percent { hundredths: 500 })
        }
        _ => panic!("Expected ErrorMaxSet command"),
    }

    // Test percentage with %* suffix
    let cmd = Command::parse_line("E:10%*", 1).unwrap().unwrap();
    match cmd {
        Command::ErrorMaxSet { percentage } => {
            assert_eq!(percentage, Percent { hundredths: 1000 })
        }
        _ => panic!("Expected ErrorMaxSet command"),
    }

    // Test default keyword
    let cmd = Command::parse_line("E:default", 1).unwrap().unwrap();
    match cmd {
        Command::ErrorMaxSet { percentage } => {
            assert_eq!(percentage, Percent { hundredths: 0 })
        }
        _ => panic!("Expected ErrorMaxSet command"),
    }
}

#[test]
fn test_fractional_percentage() {
    let cmd = Command::parse_line("E:2.5%", 1).unwrap().unwrap();
    match cmd {
        Command::ErrorMaxSet { percentage } => {
            assert_eq!(percentage, Percent { hundredths: 250 })
        }
        _ => panic!("Expected ErrorMaxSet command"),
    }

    let cmd = Command::parse_line("E:.5", 1).unwrap().unwrap();
    match cmd {
        Command::ErrorMaxSet { percentage } => {
            assert_eq!(percentage, Percent { hundredths: 50 })
        }
        _ => panic!("Expected ErrorMaxSet command"),
    }
}

#[test]
fn test_unparsable_percentage_is_invalid() {
    assert!(matches!(
        Command::parse_line("E:often", 7),
        Err(ScriptError::InvalidCommand { line: 7, content }) if content == "E:often"
    ));
    assert!(matches!(
        Command::parse_line("E:1.2.3", 1),
        Err(ScriptError::InvalidCommand { .. })
    ));
    assert!(matches!(
        Command::parse_line("E:", 1),
        Err(ScriptError::InvalidCommand { .. })
    ));
    // Too large to fit the fixed-point range.
    assert!(matches!(
        Command::parse_line("E:99999999999", 1),
        Err(ScriptError::InvalidCommand { .. })
    ));
}

#[test]
fn test_percentage_range_boundary() {
    // The largest value the fixed-point range holds, and one step past.
    let cmd = Command::parse_line("E:42949672.95", 1).unwrap().unwrap();
    match cmd {
        Command::ErrorMaxSet { percentage } => {
            assert_eq!(percentage, Percent { hundredths: u32::MAX })
        }
        _ => panic!("Expected ErrorMaxSet command"),
    }
    assert!(matches!(
        Command::parse_line("E:42949672.96", 1),
        Err(ScriptError::InvalidCommand { .. })
    ));

    // A trailing decimal point parses; a stray mark inside does not.
    let cmd = Command::parse_line("E:5.", 1).unwrap().unwrap();
    match cmd {
        Command::ErrorMaxSet { percentage } => {
            assert_eq!(percentage, Percent { hundredths: 500 })
        }
        _ => panic!("Expected ErrorMaxSet command"),
    }
    // Only trailing *s are stripped before the %, so this stays invalid.
    assert!(matches!(
        Command::parse_line("E:10*%", 1),
        Err(ScriptError::InvalidCommand { .. })
    ));
}

#[test]
fn test_payload_kept_verbatim() {
    // The payload is the verbatim remainder of the line: surrounding
    // white space is part of it.
    assert!(matches!(
        Command::parse_line("T:a ", 1).unwrap(),
        Some(Command::Tutorial { text }) if text == "a "
    ));
    assert!(matches!(
        Command::parse_line("T:  padded  ", 1).unwrap(),
        Some(Command::Tutorial { text }) if text == "  padded  "
    ));
    // A comment stores the raw line.
    assert!(matches!(
        Command::parse_line("#x ", 1).unwrap(),
        Some(Command::Comment { content }) if content == "#x "
    ));
    // A white-space-only banner payload is still a banner.
    assert!(matches!(
        Command::parse_line("B: ", 1).unwrap(),
        Some(Command::Clear { banner: Some(b) }) if b == " "
    ));
}

#[test]
fn test_leading_whitespace_is_invalid() {
    // The separator must be the line's second character, so a
    // whitespace-led command line is malformed, and the error carries
    // the exact text.
    assert!(matches!(
        Command::parse_line(" T:x", 4),
        Err(ScriptError::InvalidCommand { line: 4, content }) if content == " T:x"
    ));
    assert!(matches!(
        Command::parse_line("\tT:x", 9),
        Err(ScriptError::InvalidCommand { line: 9, content }) if content == "\tT:x"
    ));
}

#[test]
fn test_negative_percentage_means_default() {
    // A non-positive ceiling means "no explicit ceiling", like default.
    assert!(matches!(
        Command::parse_line("E:-5", 1).unwrap(),
        Some(Command::ErrorMaxSet { percentage }) if percentage == Percent { hundredths: 0 }
    ));
    assert!(matches!(
        Command::parse_line("E:-2.5%*", 1).unwrap(),
        Some(Command::ErrorMaxSet { percentage }) if percentage == Percent { hundredths: 0 }
    ));
    // A sign with no number behind it is still malformed.
    assert!(matches!(
        Command::parse_line("E:-", 1),
        Err(ScriptError::InvalidCommand { .. })
    ));
    assert!(matches!(
        Command::parse_line("E:-1.2.3", 1),
        Err(ScriptError::InvalidCommand { .. })
    ));
}

#[test]
fn test_blank_and_comment_lines() {
    assert!(Command::parse_line("", 1).unwrap().is_none());
    assert!(Command::parse_line("   ", 1).unwrap().is_none());
    assert!(matches!(
        Command::parse_line("# a note", 1).unwrap(),
        Some(Command::Comment { content }) if content == "# a note"
    ));
    assert!(matches!(
        Command::parse_line("!also a note", 1).unwrap(),
        Some(Command::Comment { content }) if content == "!also a note"
    ));
}

#[test]
fn test_invalid_command_lines() {
    // Too short, missing separator, unknown selector.
    assert!(matches!(
        Command::parse_line("T", 3),
        Err(ScriptError::InvalidCommand { line: 3, content }) if content == "T"
    ));
    assert!(matches!(
        Command::parse_line("T;text", 1),
        Err(ScriptError::InvalidCommand { .. })
    ));
    assert!(matches!(
        Command::parse_line("?:what", 1),
        Err(ScriptError::InvalidCommand { .. })
    ));
}

#[test]
fn test_every_verbatim_variant() {
    assert!(matches!(
        Command::parse_line("I:press a key", 1).unwrap(),
        Some(Command::Instruction { text }) if text == "press a key"
    ));
    assert!(matches!(
        Command::parse_line("B:Lesson 1", 1).unwrap(),
        Some(Command::Clear { banner: Some(b) }) if b == "Lesson 1"
    ));
    assert!(matches!(
        Command::parse_line("B:", 1).unwrap(),
        Some(Command::Clear { banner: None })
    ));
    assert!(matches!(
        Command::parse_line("G:TARGET", 1).unwrap(),
        Some(Command::Goto { label }) if label == "TARGET"
    ));
    assert!(matches!(Command::parse_line("X:", 1).unwrap(), Some(Command::Exit)));
    assert!(matches!(
        Command::parse_line("Q:ready?", 1).unwrap(),
        Some(Command::Query { text }) if text == "ready?"
    ));
    assert!(matches!(
        Command::parse_line("Y:YES_TARGET", 1).unwrap(),
        Some(Command::YesGoto { label }) if label == "YES_TARGET"
    ));
    assert!(matches!(
        Command::parse_line("N:NO_TARGET", 1).unwrap(),
        Some(Command::NoGoto { label }) if label == "NO_TARGET"
    ));
    assert!(matches!(
        Command::parse_line("S:speed text", 1).unwrap(),
        Some(Command::SpeedTest { text, practice_only: false }) if text == "speed text"
    ));
    assert!(matches!(
        Command::parse_line("s:speed text", 1).unwrap(),
        Some(Command::SpeedTest { text, practice_only: true }) if text == "speed text"
    ));
    assert!(matches!(
        Command::parse_line("t:intro.txt", 1).unwrap(),
        Some(Command::TutorialFile { path }) if path == "intro.txt"
    ));
    assert!(matches!(
        Command::parse_line("f:drill.txt", 1).unwrap(),
        Some(Command::DrillFile { path, practice_only: false }) if path == "drill.txt"
    ));
    assert!(matches!(
        Command::parse_line("p:drill.txt", 1).unwrap(),
        Some(Command::DrillFile { path, practice_only: true }) if path == "drill.txt"
    ));
    assert!(matches!(
        Command::parse_line("z:speed.txt", 1).unwrap(),
        Some(Command::SpeedTestFile { path, practice_only: false }) if path == "speed.txt"
    ));
    assert!(matches!(
        Command::parse_line("w:speed.txt", 1).unwrap(),
        Some(Command::SpeedTestFile { path, practice_only: true }) if path == "speed.txt"
    ));
    assert!(matches!(
        Command::parse_line("K:seq", 1).unwrap(),
        Some(Command::KeyBind { sequence }) if sequence == "seq"
    ));
    assert!(matches!(
        Command::parse_line("F:ON_FAIL", 1).unwrap(),
        Some(Command::OnFailureSet { label }) if label == "ON_FAIL"
    ));
}

#[test]
fn test_menu_title_quotes() {
    assert!(matches!(
        Command::parse_line("M: \"Main Menu\"", 1).unwrap(),
        Some(Command::Menu { title, items }) if title == "Main Menu" && items.is_empty()
    ));
    assert!(matches!(
        Command::parse_line("M:Plain Title", 1).unwrap(),
        Some(Command::Menu { title, .. }) if title == "Plain Title"
    ));
}
