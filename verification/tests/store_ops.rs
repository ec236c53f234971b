//! The store-rewriting commands: add, mark, unmark, remove, purge, clear.

use tasc::commands::{add, clear, mark, purge, remove, unmark};

fn s(v: &str) -> String {
    v.to_string()
}

fn store(lines: &[&str]) -> Vec<String> {
    lines.iter().map(|l| l.to_string()).collect()
}

fn args(parts: &[&str]) -> Vec<String> {
    parts.iter().map(|p| p.to_string()).collect()
}

#[test]
fn add_appends_one_top_level_line() {
    let lines = store(&["o 1 first", "x 2 second"]);
    let out = add(&lines, &args(&["tasc", "add", "buy", "milk"])).unwrap();
    assert_eq!(
        out,
        store(&["o 1 first", "x 2 second", "o 1 buy milk"])
    );
}

#[test]
fn add_to_empty_store() {
    let lines: Vec<String> = Vec::new();
    let out = add(&lines, &args(&["tasc", "add", "solo"])).unwrap();
    assert_eq!(out, store(&["o 1 solo"]));
}

#[test]
fn add_sub_task_inserts_after_parent_one_deeper() {
    let lines = store(&["o 1 A", "o 1 B", "o 2 C"]);
    let out = add(&lines, &args(&["tasc", "add", "-s", "2", "new", "task"])).unwrap();
    assert_eq!(
        out,
        store(&["o 1 A", "o 1 B", "o 2 new task", "o 2 C"])
    );
}

#[test]
fn add_sub_task_out_of_range_changes_nothing() {
    let lines = store(&["o 1 A"]);
    let out = add(&lines, &args(&["tasc", "add", "-s", "5", "text"])).unwrap();
    assert_eq!(out, lines);
    let out0 = add(&lines, &args(&["tasc", "add", "-s", "0", "text"])).unwrap();
    assert_eq!(out0, lines);
}

#[test]
fn mark_rewrites_only_the_target_line() {
    let lines = store(&["o 1 A", "o 2 B", "o 1 C"]);
    let out = mark(&lines, &args(&["tasc", "mark", "2"])).unwrap();
    assert_eq!(out, store(&["o 1 A", "x 2 B", "o 1 C"]));
}

#[test]
fn mark_recursive_covers_the_sub_tree() {
    let lines = store(&["o 1 A", "o 2 B", "o 3 C", "o 1 D"]);
    let out = mark(&lines, &args(&["tasc", "mark", "-r", "1"])).unwrap();
    assert_eq!(out, store(&["x 1 A", "x 2 B", "x 3 C", "o 1 D"]));
}

#[test]
fn mark_then_unmark_restores_the_store() {
    let lines = store(&["o 1 A", "o 2 B", "o 1 C"]);
    let marked = mark(&lines, &args(&["tasc", "mark", "2"])).unwrap();
    let back = unmark(&marked, &args(&["tasc", "unmark", "2"])).unwrap();
    assert_eq!(back, lines);
}

#[test]
fn mark_target_out_of_range_changes_nothing() {
    let lines = store(&["o 1 A"]);
    let out = mark(&lines, &args(&["tasc", "mark", "7"])).unwrap();
    assert_eq!(out, lines);
}

#[test]
fn unmark_recursive_covers_the_sub_tree() {
    let lines = store(&["x 1 A", "x 2 B", "x 1 C"]);
    let out = unmark(&lines, &args(&["tasc", "unmark", "-r", "1"])).unwrap();
    assert_eq!(out, store(&["o 1 A", "o 2 B", "x 1 C"]));
}

#[test]
fn remove_drops_exactly_one_line_keeping_order() {
    let lines = store(&["o 1 A", "o 2 B", "o 1 C"]);
    let out = remove(&lines, &args(&["tasc", "remove", "2"])).unwrap();
    assert_eq!(out, store(&["o 1 A", "o 1 C"]));
    assert_eq!(out.len(), lines.len() - 1);
}

#[test]
fn remove_recursive_drops_the_contiguous_sub_tree() {
    let lines = store(&["o 1 A", "o 2 B", "o 2 C", "o 1 D"]);
    let out = remove(&lines, &args(&["tasc", "remove", "-r", "1"])).unwrap();
    assert_eq!(out, store(&["o 1 D"]));
}

#[test]
fn remove_recursive_stops_at_equal_depth() {
    let lines = store(&["o 1 A", "o 2 B", "o 3 C", "o 2 D", "o 1 E"]);
    let out = remove(&lines, &args(&["tasc", "remove", "-r", "2"])).unwrap();
    assert_eq!(out, store(&["o 1 A", "o 2 D", "o 1 E"]));
}

#[test]
fn purge_keeps_only_unfinished_lines() {
    let lines = store(&["x 1 A", "o 1 B", "x 1 C"]);
    let out = purge(&lines).unwrap();
    assert_eq!(out, store(&["o 1 B"]));
}

#[test]
fn purge_drops_completed_sub_tasks_whatever_the_parent() {
    let lines = store(&["o 1 A", "x 2 B", "o 2 C"]);
    let out = purge(&lines).unwrap();
    assert_eq!(out, store(&["o 1 A", "o 2 C"]));
}

#[test]
fn clear_always_yields_an_empty_store() {
    let out = clear();
    assert_eq!(out.len(), 0);
    assert_eq!(out, Vec::<String>::new());
}

#[test]
fn add_sub_task_renders_multi_digit_depths() {
    let lines = store(&["o 9 deep"]);
    let out = add(&lines, &args(&["tasc", "add", "-s", "1", "deeper"])).unwrap();
    assert_eq!(out, store(&["o 9 deep", "o 10 deeper"]));
}

#[test]
fn mark_accepts_a_plus_signed_target() {
    let lines = store(&["o 1 A", "o 1 B"]);
    let out = mark(&lines, &args(&["tasc", "mark", "+2"])).unwrap();
    assert_eq!(out, store(&["o 1 A", "x 1 B"]));
}

#[test]
fn mark_without_space_in_line_gets_mark_and_space() {
    // A line with no space has its whole content taken as the mark field.
    let lines = vec![s("solo")];
    let out = mark(&lines, &args(&["tasc", "mark", "1"])).unwrap();
    assert_eq!(out, vec![s("x ")]);
}
