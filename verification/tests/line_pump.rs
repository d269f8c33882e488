use apt_cli_wrappers::{
    non_blocking_line_reading, poll_child, CommandError, PollAction, PumpAction, ReadOutcome,
    Termination,
};

/// Feeds the attempts to the pump, as a reader would: each appends its text to
/// the buffer and then reports how it ended.
fn pump(attempts: &[(&str, ReadOutcome)]) -> (Vec<String>, String) {
    let mut buffer = String::new();
    let mut lines = Vec::new();
    for (appended, outcome) in attempts {
        buffer.push_str(appended);
        if let PumpAction::Deliver(line) = non_blocking_line_reading(&mut buffer, *outcome) {
            lines.push(line);
        }
    }
    (lines, buffer)
}

#[test]
fn whole_lines_are_delivered_one_for_one() {
    let (lines, left) = pump(&[
        ("first\n", ReadOutcome::Read),
        ("second line\n", ReadOutcome::Read),
        ("\n", ReadOutcome::Read),
        ("", ReadOutcome::Eof),
    ]);
    assert_eq!(lines, vec!["first", "second line", ""]);
    assert_eq!(left, "");
}

#[test]
fn a_line_in_two_parts_is_delivered_once() {
    let (lines, left) = pump(&[
        ("Progress: [", ReadOutcome::WouldBlock),
        (" 25%]\n", ReadOutcome::Read),
        ("rest", ReadOutcome::WouldBlock),
    ]);
    assert_eq!(lines, vec!["Progress: [ 25%]"]);
    assert_eq!(left, "rest");
}

#[test]
fn each_outcome_decides_as_described() {
    let mut buffer = String::from("abc\n");
    assert_eq!(
        non_blocking_line_reading(&mut buffer, ReadOutcome::Read),
        PumpAction::Deliver("abc".to_string())
    );
    assert_eq!(buffer, "");

    let mut buffer = String::from("abc\r\n");
    assert_eq!(
        non_blocking_line_reading(&mut buffer, ReadOutcome::Read),
        PumpAction::Deliver("abc".to_string())
    );
    assert_eq!(buffer, "");

    let mut buffer = String::from("abc");
    assert_eq!(non_blocking_line_reading(&mut buffer, ReadOutcome::Read), PumpAction::Again);
    assert_eq!(buffer, "abc");

    let mut buffer = String::from("abc");
    assert_eq!(non_blocking_line_reading(&mut buffer, ReadOutcome::WouldBlock), PumpAction::Idle);
    assert_eq!(buffer, "abc");

    let mut buffer = String::from("abc");
    assert_eq!(non_blocking_line_reading(&mut buffer, ReadOutcome::Eof), PumpAction::Idle);
    assert_eq!(buffer, "abc");

    let mut buffer = String::from("abc");
    assert_eq!(non_blocking_line_reading(&mut buffer, ReadOutcome::Failed), PumpAction::Abort);
    assert_eq!(buffer, "");
}

#[test]
fn an_unfinished_last_line_is_not_delivered() {
    let (lines, left) = pump(&[
        ("done\n", ReadOutcome::Read),
        ("unfinished", ReadOutcome::Read),
        ("", ReadOutcome::Eof),
    ]);
    assert_eq!(lines, vec!["done"]);
    assert_eq!(left, "unfinished");
}

#[test]
fn a_failure_drops_what_was_buffered() {
    let (lines, left) = pump(&[
        ("par", ReadOutcome::WouldBlock),
        ("", ReadOutcome::Failed),
        ("tial\n", ReadOutcome::Read),
    ]);
    assert_eq!(lines, vec!["tial"]);
    assert_eq!(left, "");
}

#[test]
fn an_empty_buffer_holds_no_line() {
    let mut buffer = String::new();
    assert_eq!(non_blocking_line_reading(&mut buffer, ReadOutcome::Read), PumpAction::Again);
    assert_eq!(buffer, "");
}

/// Runs a pump over recorded polls, as a caller that follows the actions
/// would: at each poll it drains, and it returns at the first poll that finds
/// the child ended. Gives the lines delivered and the result returned.
fn run_pump(
    polls: &[(Option<Termination>, Vec<(&str, ReadOutcome)>)],
) -> (Vec<String>, Option<Result<(), CommandError>>) {
    let mut buffer = String::new();
    let mut lines = Vec::new();
    for (status, attempts) in polls {
        let action = poll_child("apt-get", *status);
        for (appended, outcome) in attempts {
            buffer.push_str(appended);
            if let PumpAction::Deliver(line) = non_blocking_line_reading(&mut buffer, *outcome) {
                lines.push(line);
            }
        }
        if let PollAction::Finish(result) = action {
            return (lines, Some(result));
        }
    }
    (lines, None)
}

#[test]
fn every_line_is_delivered_before_the_result() {
    let (lines, result) = run_pump(&[
        (None, vec![("", ReadOutcome::WouldBlock)]),
        (
            None,
            vec![
                ("one\n", ReadOutcome::Read),
                ("two\n", ReadOutcome::Read),
                ("", ReadOutcome::WouldBlock),
            ],
        ),
        (None, vec![("", ReadOutcome::WouldBlock)]),
        (
            Some(Termination::Exited(0)),
            vec![("three\n", ReadOutcome::Read), ("", ReadOutcome::Eof)],
        ),
        (Some(Termination::Exited(0)), vec![("never read\n", ReadOutcome::Read)]),
    ]);
    assert_eq!(lines, vec!["one", "two", "three"]);
    assert_eq!(result, Some(Ok(())));
}

#[test]
fn a_child_that_ends_before_the_first_drain_loses_no_line() {
    let (lines, result) = run_pump(&[(
        Some(Termination::Exited(100)),
        vec![
            ("one\n", ReadOutcome::Read),
            ("two\r\n", ReadOutcome::Read),
            ("", ReadOutcome::Eof),
        ],
    )]);
    assert_eq!(lines, vec!["one", "two"]);
    assert_eq!(
        result,
        Some(Err(CommandError::Status { command: "apt-get".to_string(), code: 100 }))
    );
}

#[test]
fn a_failing_last_drain_does_not_change_the_result() {
    let (lines, result) = run_pump(&[(
        Some(Termination::Signaled(9)),
        vec![("one\n", ReadOutcome::Read), ("tw", ReadOutcome::Failed)],
    )]);
    assert_eq!(lines, vec!["one"]);
    assert_eq!(
        result,
        Some(Err(CommandError::Signal { command: "apt-get".to_string(), signal: 9 }))
    );
}

#[test]
fn a_pump_whose_child_runs_returns_nothing_yet() {
    let (lines, result) = run_pump(&[(None, vec![("one\n", ReadOutcome::Read)])]);
    assert_eq!(lines, vec!["one"]);
    assert_eq!(result, None);
}
