use elm_pair::simulation::{create, lines, Error, Step};

#[test]
fn file_without_script_is_all_code() {
    let (code, steps) = create("/p/Main.elm", "module Main exposing (..)\n\nx = 1\n").unwrap();
    assert_eq!(code, "module Main exposing (..)\n\nx = 1");
    assert!(steps.is_none());
}

#[test]
fn script_steps_are_read() {
    let source = "module Main exposing (..)\nx = 1\n-- START SIMULATION\n-- MOVE CURSOR TO LINE 2 x\n-- DELETE x\n-- INSERT y z\n-- OPEN FILE Other.elm\n-- END SIMULATION\n";
    let (code, steps) = create("/p/Main.elm", source).unwrap();
    assert_eq!(code, "module Main exposing (..)\nx = 1");
    assert_eq!(
        steps.unwrap(),
        vec![
            Step::OpenFile("/p/Main.elm".to_string()),
            Step::MoveCursor { line: 2, word: "x".to_string() },
            Step::Delete("x".to_string()),
            Step::Insert("y z".to_string()),
            Step::OpenFile("Other.elm".to_string()),
        ]
    );
}

#[test]
fn script_errors() {
    assert_eq!(
        create("/p", "x\n-- START SIMULATION\n-- INSERT a\n").unwrap_err(),
        Error::FileEndCameBeforeSimulationEnd
    );
    assert_eq!(
        create("/p", "x\n-- START SIMULATION\n-\n").unwrap_err(),
        Error::SimulationInstructionsDontHaveConsistentPadding
    );
    assert_eq!(
        create("/p", "x\n-- START SIMULATION\n-- JUMP\n-- END SIMULATION").unwrap_err(),
        Error::CannotParseSimulationLine("JUMP".to_string())
    );
    assert_eq!(
        create("/p", "START SIMULATION\nMOVE CURSOR TO LINE x y\nEND SIMULATION").unwrap_err(),
        Error::CannotParseLineNumber("MOVE CURSOR TO LINE x y".to_string())
    );
}

#[test]
fn lines_match_str_lines() {
    for text in ["", "a", "a\n", "a\r\nb", "a\n\nb\n", "a\r", "\r\n", "x\ry\n"] {
        let expected: Vec<&str> = text.lines().collect();
        assert_eq!(lines(text), expected, "lines of {:?}", text);
    }
}
