//! The listing: counts, summary line, and the rendered entries.

use tasc::commands::{help, list, version};
use tasc::line::get_line_depth;
use tasc::num::parse_usize;
use tasc::render::format_line;

fn store(lines: &[&str]) -> Vec<String> {
    lines.iter().map(|l| l.to_string()).collect()
}

#[test]
fn list_renders_one_entry_per_line() {
    let lines = store(&["o 1 A", "o 2 B", "x 1 C"]);
    let out = list(&lines).unwrap();
    assert_eq!(out.total, 3);
    assert_eq!(out.completed, 1);
    assert_eq!(out.summary, "Completed tasks 1/3");
    assert_eq!(out.entries.len(), lines.len());
    assert_eq!(out.entries[0], "01 [ ] ├─ A");
    assert_eq!(out.entries[1], "02 [ ] │  └─ B");
    assert_eq!(out.entries[2], "03 [x] ├─ \u{1b}[9mC\u{1b}[0m");
}

#[test]
fn list_indentation_matches_stored_depth() {
    let lines = store(&["o 1 top", "o 2 mid", "o 3 deep"]);
    let out = list(&lines).unwrap();
    // depth 1 carries no indentation glyph, depth d carries d - 1 of them
    assert_eq!(out.entries[0].matches('│').count(), 0);
    assert_eq!(out.entries[1].matches('│').count(), 1);
    assert_eq!(out.entries[2].matches('│').count(), 2);
}

#[test]
fn list_uses_tee_when_next_line_is_at_same_depth() {
    let lines = store(&["o 1 A", "o 2 B", "o 2 C", "o 1 D"]);
    let out = list(&lines).unwrap();
    assert_eq!(out.entries[1], "02 [ ] │  ├─ B");
    assert_eq!(out.entries[2], "03 [ ] │  └─ C");
}

#[test]
fn list_empty_store() {
    let lines: Vec<String> = Vec::new();
    let out = list(&lines).unwrap();
    assert_eq!(out.total, 0);
    assert_eq!(out.completed, 0);
    assert_eq!(out.summary, "Completed tasks 0/0");
    assert!(out.entries.is_empty());
}

#[test]
fn list_pads_line_numbers_to_two_digits() {
    let mut raw: Vec<&str> = Vec::new();
    for _ in 0..12 {
        raw.push("o 1 t");
    }
    let lines = store(&raw);
    let out = list(&lines).unwrap();
    assert!(out.entries[0].starts_with("01 "));
    assert!(out.entries[9].starts_with("10 "));
    assert!(out.entries[11].starts_with("12 "));
    assert_eq!(out.summary, "Completed tasks 0/12");
}

#[test]
fn format_line_strikes_through_done_tasks() {
    let line = ("x 1 done thing".to_string(), 1usize);
    let got = format_line(&line, 0, 0).unwrap();
    assert_eq!(got, "[x] ├─ \u{1b}[9mdone thing\u{1b}[0m");
}

#[test]
fn format_line_open_task_plain_text() {
    let line = ("o 2 hello world".to_string(), 2usize);
    let got = format_line(&line, 1, 2).unwrap();
    assert_eq!(got, "[ ] │  ├─ hello world");
}

#[test]
fn format_line_corner_when_depth_differs_from_next() {
    let line = ("o 2 tail".to_string(), 2usize);
    let got = format_line(&line, 2, 1).unwrap();
    assert_eq!(got, "[ ] │  └─ tail");
}

#[test]
fn get_line_depth_reads_the_second_token() {
    assert_eq!(get_line_depth(&"o 1 text".to_string()), Some(1));
    assert_eq!(get_line_depth(&"x 12 a b c".to_string()), Some(12));
    assert_eq!(get_line_depth(&"o 3".to_string()), Some(3));
}

#[test]
fn get_line_depth_accepts_a_leading_plus_sign() {
    assert_eq!(get_line_depth(&"o +3 text".to_string()), Some(3));
    assert_eq!(get_line_depth(&"o + text".to_string()), None);
    assert_eq!(get_line_depth(&"o ++1 text".to_string()), None);
}

#[test]
fn get_line_depth_rejects_missing_or_bad_tokens() {
    assert_eq!(get_line_depth(&"".to_string()), None);
    assert_eq!(get_line_depth(&"o".to_string()), None);
    assert_eq!(get_line_depth(&"o ".to_string()), None);
    assert_eq!(get_line_depth(&"o abc text".to_string()), None);
    assert_eq!(get_line_depth(&"o 1x text".to_string()), None);
    // far beyond the machine's range
    assert_eq!(
        get_line_depth(&"o 99999999999999999999999999 text".to_string()),
        None
    );
}

#[test]
fn parse_usize_reads_base_ten() {
    assert_eq!(parse_usize("0"), Some(0));
    assert_eq!(parse_usize("42"), Some(42));
    assert_eq!(parse_usize("+7"), Some(7));
    assert_eq!(parse_usize(""), None);
    assert_eq!(parse_usize("+"), None);
    assert_eq!(parse_usize("4 2"), None);
    assert_eq!(parse_usize("-1"), None);
    let max = format!("{}", usize::MAX);
    assert_eq!(parse_usize(&max), Some(usize::MAX));
    let past_max = format!("{}", u128::from(u64::MAX) + 1);
    assert_eq!(parse_usize(&past_max), None);
}

#[test]
fn fmt_usize_writes_base_ten() {
    assert_eq!(tasc::num::fmt_usize(0), "0");
    assert_eq!(tasc::num::fmt_usize(907), "907");
    assert_eq!(tasc::num::fmt_padded2(3), "03");
    assert_eq!(tasc::num::fmt_padded2(12), "12");
    assert_eq!(tasc::num::fmt_padded2(100), "100");
}

#[test]
fn help_names_every_command() {
    let text = help();
    assert!(text.contains("task add <text>"));
    assert!(text.contains("task remove <number>"));
    assert!(text.contains("task mark <number>"));
    assert!(text.contains("task clear"));
    assert!(text.contains("task purge"));
    assert!(text.contains("--version"));
}

#[test]
fn version_names_the_program() {
    assert_eq!(version(), "tasc version 0.1.0");
}
