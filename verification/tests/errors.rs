//! Error behavior: missing arguments, bad numbers, malformed lines.

use tasc::commands::{add, list, mark, purge, remove, unmark};
use tasc::error::CommandError;

fn store(lines: &[&str]) -> Vec<String> {
    lines.iter().map(|l| l.to_string()).collect()
}

fn args(parts: &[&str]) -> Vec<String> {
    parts.iter().map(|p| p.to_string()).collect()
}

#[test]
fn list_fails_on_non_numeric_depth() {
    let lines = store(&["o 1 fine", "o abc text"]);
    let got = list(&lines);
    assert!(matches!(got, Err(CommandError::MalformedLine(_))));
}

#[test]
fn list_fails_on_missing_depth_token() {
    let lines = store(&["justoneword"]);
    let got = list(&lines);
    assert!(matches!(got, Err(CommandError::MalformedLine(_))));
}

#[test]
fn mark_recursive_fails_on_malformed_line() {
    let lines = store(&["o 1 fine", "o abc text"]);
    let got = mark(&lines, &args(&["tasc", "mark", "-r", "1"]));
    assert!(matches!(got, Err(CommandError::MalformedLine(_))));
}

#[test]
fn mark_non_recursive_ignores_other_lines_depths() {
    // Without the recursive flag no depth is read, so a malformed
    // neighbour does not stop the command.
    let lines = store(&["o 1 fine", "o abc text"]);
    let got = mark(&lines, &args(&["tasc", "mark", "1"])).unwrap();
    assert_eq!(got, store(&["x 1 fine", "o abc text"]));
}

#[test]
fn remove_recursive_fails_on_malformed_line() {
    let lines = store(&["o abc text", "o 1 fine"]);
    let got = remove(&lines, &args(&["tasc", "remove", "-r", "2"]));
    assert!(matches!(got, Err(CommandError::MalformedLine(_))));
}

#[test]
fn remove_non_recursive_ignores_other_lines_depths() {
    let lines = store(&["o abc text", "o 1 fine"]);
    let got = remove(&lines, &args(&["tasc", "remove", "2"])).unwrap();
    assert_eq!(got, store(&["o abc text"]));
}

#[test]
fn unmark_recursive_fails_on_malformed_line() {
    let lines = store(&["x 1 fine", "x oops text"]);
    let got = unmark(&lines, &args(&["tasc", "unmark", "-r", "1"]));
    assert!(matches!(got, Err(CommandError::MalformedLine(_))));
}

#[test]
fn add_sub_task_fails_when_parent_depth_is_malformed() {
    let lines = store(&["o bad text"]);
    let got = add(&lines, &args(&["tasc", "add", "-s", "1", "child"]));
    assert!(matches!(got, Err(CommandError::MalformedLine(_))));
}

#[test]
fn commands_fail_without_their_argument() {
    let lines = store(&["o 1 A"]);
    assert!(matches!(
        add(&lines, &args(&["tasc", "add"])),
        Err(CommandError::MissingArgument(_))
    ));
    assert!(matches!(
        add(&lines, &args(&["tasc", "add", "-s"])),
        Err(CommandError::MissingArgument(_))
    ));
    assert!(matches!(
        mark(&lines, &args(&["tasc", "mark"])),
        Err(CommandError::MissingArgument(_))
    ));
    assert!(matches!(
        mark(&lines, &args(&["tasc", "mark", "-r"])),
        Err(CommandError::MissingArgument(_))
    ));
    assert!(matches!(
        unmark(&lines, &args(&["tasc", "unmark"])),
        Err(CommandError::MissingArgument(_))
    ));
    assert!(matches!(
        remove(&lines, &args(&["tasc", "remove"])),
        Err(CommandError::MissingArgument(_))
    ));
}

#[test]
fn commands_fail_on_non_numeric_targets() {
    let lines = store(&["o 1 A"]);
    assert!(matches!(
        mark(&lines, &args(&["tasc", "mark", "two"])),
        Err(CommandError::InvalidNumberFormat(_))
    ));
    assert!(matches!(
        remove(&lines, &args(&["tasc", "remove", "-r", "x"])),
        Err(CommandError::InvalidNumberFormat(_))
    ));
    assert!(matches!(
        add(&lines, &args(&["tasc", "add", "-s", "one", "text"])),
        Err(CommandError::InvalidNumberFormat(_))
    ));
}

#[test]
fn purge_fails_on_an_empty_line() {
    let lines = store(&["o 1 A", "", "o 1 B"]);
    let got = purge(&lines);
    assert!(matches!(got, Err(CommandError::MalformedLine(_))));
}

#[test]
fn error_messages_name_the_failure() {
    let missing = CommandError::MissingArgument("expected mark argument".to_string());
    assert_eq!(missing.message(), "Missing argument: expected mark argument");
    let number = CommandError::InvalidNumberFormat("expected add argument as number".to_string());
    assert_eq!(
        number.message(),
        "Invalid number format: expected add argument as number"
    );
    let malformed = CommandError::MalformedLine("unable to get line depth".to_string());
    assert_eq!(
        malformed.message(),
        "Malformed line: unable to get line depth"
    );
}
