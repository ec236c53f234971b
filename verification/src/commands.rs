//! The commands, as transforms over the store's lines.
//!
//! Every command takes the store's current lines (and, where it needs
//! them, the raw command-line arguments) and computes the replacement
//! lines, or the listing to print.  Reading the store file, writing the
//! replacement to a temporary file and renaming it over the original is
//! the caller's business: a command that returns an error has computed no
//! replacement, so the store stays untouched.

use vstd::prelude::*;
use crate::error::CommandError;
use crate::line::{find_space, get_line_depth, is_done, is_done_line, line_depth};
use crate::num::{dec_rep, fmt_padded2, fmt_usize, padded2, parse_usize, token_value};
use crate::render::{format_line, rendered};
use crate::tree::{all_depths_ok, apply_recursive, depth_of, transformed, Op};

verus! {

/// What `list` computes: the completion counts, the summary line, and one
/// rendered entry per store line.
pub struct Listing {
    /// How many lines carry the done mark.
    pub completed: usize,
    /// How many lines the store holds.
    pub total: usize,
    /// The summary line.
    pub summary: String,
    /// One numbered, tree-styled entry per store line.
    pub entries: Vec<String>,
}

/// The arguments from `start` on, joined with single spaces, up to the
/// `n`-th argument.
pub open spec fn joined_prefix(parts: Seq<Seq<char>>, start: int, n: int) -> Seq<char>
    decreases n - start,
{
    if n <= start {
        Seq::empty()
    } else if n == start + 1 {
        parts[start]
    } else {
        joined_prefix(parts, start, n - 1) + " "@ + parts[n - 1]
    }
}

/// The arguments from `start` on, joined with single spaces.
pub open spec fn joined(parts: Seq<Seq<char>>, start: int) -> Seq<char> {
    joined_prefix(parts, start, parts.len() as int)
}

/// The command was given the recursive flag as its first operand.
pub open spec fn wants_recursive(a: Seq<Seq<char>>) -> bool {
    a.len() > 2 && a[2] == "-r"@
}

/// The command was given a target operand (after the recursive flag, when
/// that is present).
pub open spec fn has_target(a: Seq<Seq<char>>) -> bool {
    a.len() > 2 && (wants_recursive(a) ==> a.len() > 3)
}

/// The operand naming the target line.
pub open spec fn target_token(a: Seq<Seq<char>>) -> Seq<char> {
    if wants_recursive(a) {
        a[3]
    } else {
        a[2]
    }
}

/// How many of the first `n` lines carry the done mark.
pub open spec fn done_count(lines: Seq<Seq<char>>, n: int) -> int
    decreases n,
{
    if n <= 0 {
        0
    } else {
        done_count(lines, n - 1) + if is_done(lines[n - 1]) {
            1int
        } else {
            0int
        }
    }
}

/// The depth of the line after `i`, or 0 at the end of the store.
pub open spec fn next_depth_at(lines: Seq<Seq<char>>, i: int) -> int {
    if i + 1 < lines.len() {
        depth_of(lines[i + 1])
    } else {
        0
    }
}

/// The listing entry for line `i`: its 1-based number, zero-padded to two
/// digits, then its rendered form.
pub open spec fn entry_at(lines: Seq<Seq<char>>, i: int) -> Seq<char> {
    padded2(i + 1) + " "@ + rendered(lines[i], depth_of(lines[i]), next_depth_at(lines, i))
}

/// All listing entries, in store order.
pub open spec fn listing_entries(lines: Seq<Seq<char>>) -> Seq<Seq<char>> {
    Seq::new(lines.len(), |i: int| entry_at(lines, i))
}

/// The listing's summary line.
pub open spec fn summary_of(lines: Seq<Seq<char>>) -> Seq<char> {
    "Completed tasks "@ + dec_rep(done_count(lines, lines.len() as int)) + "/"@ + dec_rep(
        lines.len() as int,
    )
}

/// No line's recorded depth sits at the very top of the machine's range,
/// so a sub-task can always go one level deeper.
pub open spec fn depths_below_max(lines: Seq<Seq<char>>) -> bool {
    forall|i: int| 0 <= i < lines.len() ==> depth_of(#[trigger] lines[i]) < usize::MAX
}

/// Every line is non-empty.
pub open spec fn all_nonempty(lines: Seq<Seq<char>>) -> bool {
    forall|i: int| 0 <= i < lines.len() ==> (#[trigger] lines[i]).len() > 0
}

/// The first `n` lines with every line whose first character is `x`
/// dropped.
pub open spec fn purged_prefix(lines: Seq<Seq<char>>, n: int) -> Seq<Seq<char>>
    decreases n,
{
    if n <= 0 {
        Seq::empty()
    } else {
        let rest = purged_prefix(lines, n - 1);
        if lines[n - 1].len() > 0 && lines[n - 1][0] != 'x' {
            rest.push(lines[n - 1])
        } else {
            rest
        }
    }
}

/// The store with every completed line dropped.
pub open spec fn purged(lines: Seq<Seq<char>>) -> Seq<Seq<char>> {
    purged_prefix(lines, lines.len() as int)
}

/// The line a top-level `add` appends: not done, depth 1, then the text.
pub open spec fn top_task_line(a: Seq<Seq<char>>) -> Seq<char> {
    "o 1 "@ + joined(a, 2)
}

/// The line a sub-task `add` inserts after its parent, line `p` (1-based):
/// not done, one deeper than the parent, then the text.
pub open spec fn sub_task_line(lines: Seq<Seq<char>>, a: Seq<Seq<char>>, p: int) -> Seq<char> {
    "o "@ + dec_rep(depth_of(lines[p - 1]) + 1) + " "@ + joined(a, 4)
}

/// Joins the arguments from `start` on with single spaces.
fn join_args(args: &Vec<String>, start: usize) -> (r: String)
    ensures
        r@ == joined(args.deep_view(), start as int),
{
    let ghost a = args.deep_view();
    if start >= args.len() {
        return String::new();
    }
    let mut out = String::new();
    let mut i: usize = start;
    while i < args.len()
        invariant
            start <= i <= args.len(),
            a == args.deep_view(),
            a.len() == args@.len(),
            out@ == joined_prefix(a, start as int, i as int),
        decreases args.len() - i,
    {
        if i > start {
            out.append(" ");
        }
        out.append(args[i].as_str());
        proof {
            assert(a[i as int] == args@[i as int]@);
            assert(out@ =~= joined_prefix(a, start as int, i as int + 1));
        }
        i = i + 1;
    }
    out
}

/// Copies the store's lines unchanged.
fn clone_lines(lines: &Vec<String>) -> (r: Vec<String>)
    ensures
        r.deep_view() == lines.deep_view(),
        r@.len() == lines@.len(),
{
    let mut out: Vec<String> = Vec::new();
    let mut i: usize = 0;
    while i < lines.len()
        invariant
            0 <= i <= lines.len(),
            out.deep_view() == lines.deep_view().subrange(0, i as int),
            out@.len() == i,
        decreases lines.len() - i,
    {
        out.push(lines[i].clone());
        proof {
            assert(out.deep_view() =~= lines.deep_view().subrange(0, i as int + 1));
        }
        i = i + 1;
    }
    proof {
        assert(lines.deep_view().subrange(0, lines@.len() as int) =~= lines.deep_view());
    }
    out
}

/// Computes the listing: the completion summary and one numbered,
/// tree-styled entry per line.  Fails on the first line whose depth field
/// does not parse.
pub fn list(lines: &Vec<String>) -> (r: Result<Listing, CommandError>)
    ensures
        match r {
            Ok(out) => all_depths_ok(lines.deep_view()) && out.completed == done_count(
                lines.deep_view(),
                lines.deep_view().len() as int,
            ) && out.total == lines.deep_view().len() && out.summary@ == summary_of(
                lines.deep_view(),
            ) && out.entries.deep_view() == listing_entries(lines.deep_view()),
            Err(e) => !all_depths_ok(lines.deep_view()) && e is MalformedLine,
        },
{
    let ghost l = lines.deep_view();
    let mut depths: Vec<usize> = Vec::new();
    let mut completed: usize = 0;
    let mut i: usize = 0;
    while i < lines.len()
        invariant
            0 <= i <= lines.len(),
            l == lines.deep_view(),
            l.len() == lines@.len(),
            depths@.len() == i,
            forall|j: int| 0 <= j < i ==> (#[trigger] line_depth(l[j])) == Some(depths@[j]),
            completed == done_count(l, i as int),
            completed <= i,
        decreases lines.len() - i,
    {
        proof {
            assert(l[i as int] == lines@[i as int]@);
        }
        let line = &lines[i];
        if is_done_line(line.as_str()) {
            completed = completed + 1;
        }
        match get_line_depth(line) {
            None => {
                assert(!all_depths_ok(l));
                return Err(
                    CommandError::MalformedLine(String::from_str("unable to get line depth")),
                );
            },
            Some(d) => {
                depths.push(d);
            },
        }
        i = i + 1;
    }
    let total = lines.len();
    let mut summary = String::from_str("Completed tasks ");
    let cs = fmt_usize(completed);
    summary.append(cs.as_str());
    summary.append("/");
    let ts = fmt_usize(total);
    summary.append(ts.as_str());
    proof {
        assert(summary@ =~= summary_of(l));
    }
    let mut entries: Vec<String> = Vec::new();
    let mut i: usize = 0;
    while i < lines.len()
        invariant
            0 <= i <= lines.len(),
            l == lines.deep_view(),
            l.len() == lines@.len(),
            depths@.len() == lines@.len(),
            forall|j: int| 0 <= j < l.len() ==> (#[trigger] line_depth(l[j])) == Some(depths@[j]),
            entries@.len() == i,
            forall|j: int| 0 <= j < i ==> (#[trigger] entries.deep_view()[j]) == entry_at(l, j),
        decreases lines.len() - i,
    {
        proof {
            assert(l[i as int] == lines@[i as int]@);
            assert(line_depth(l[i as int]) is Some);
            assert(find_space(l[i as int], 0) < l[i as int].len());
        }
        let prev_depth = if i > 0 {
            depths[i - 1]
        } else {
            0
        };
        let next_depth = if i + 1 < lines.len() {
            depths[i + 1]
        } else {
            0
        };
        let tup = (lines[i].clone(), depths[i]);
        let formatted = format_line(&tup, prev_depth, next_depth).unwrap();
        let mut entry = fmt_padded2(i + 1);
        entry.append(" ");
        entry.append(formatted.as_str());
        proof {
            assert(entry@ =~= entry_at(l, i as int));
        }
        let ghost edv = entries.deep_view();
        entries.push(entry);
        proof {
            assert(entries.deep_view() =~= edv.push(entry@));
        }
        i = i + 1;
    }
    proof {
        assert(entries.deep_view() =~= listing_entries(l));
    }
    Ok(Listing { completed, total, summary, entries })
}

/// Adds a task.  Without the sub-task flag, appends a new top-level task
/// whose text joins all remaining arguments.  With `-s <parent>`, copies
/// every line and inserts the new task right after its parent, one level
/// deeper; a parent number naming no line inserts nothing.  The parent's
/// depth field must parse.
pub fn add(lines: &Vec<String>, args: &Vec<String>) -> (r: Result<Vec<String>, CommandError>)
    requires
        depths_below_max(lines.deep_view()),
    ensures
        args.deep_view().len() <= 2 ==> (r matches Err(e) && e is MissingArgument),
        args.deep_view().len() > 2 && args.deep_view()[2] != "-s"@ ==> (r matches Ok(out)
            && out.deep_view() == lines.deep_view().push(top_task_line(args.deep_view()))),
        args.deep_view().len() == 3 && args.deep_view()[2] == "-s"@ ==> (r matches Err(e)
            && e is MissingArgument),
        args.deep_view().len() > 3 && args.deep_view()[2] == "-s"@ && token_value(
            args.deep_view()[3],
        ) is None ==> (r matches Err(e) && e is InvalidNumberFormat),
        args.deep_view().len() > 3 && args.deep_view()[2] == "-s"@ && token_value(
            args.deep_view()[3],
        ) is Some ==> {
            let l = lines.deep_view();
            let p = token_value(args.deep_view()[3])->0 as int;
            if 1 <= p <= l.len() {
                if line_depth(l[p - 1]) is Some {
                    r matches Ok(out) && out.deep_view() == l.subrange(0, p) + seq![
                        sub_task_line(l, args.deep_view(), p),
                    ] + l.subrange(p, l.len() as int)
                } else {
                    r matches Err(e) && e is MalformedLine
                }
            } else {
                r matches Ok(out) && out.deep_view() == l
            }
        },
{
    let ghost l = lines.deep_view();
    let ghost a = args.deep_view();
    if args.len() <= 2 {
        return Err(CommandError::MissingArgument(String::from_str("expected add argument")));
    }
    let flag = String::from_str("-s");
    let sub_task = args[2] == flag;
    if !sub_task {
        let mut out = clone_lines(lines);
        let mut task = String::from_str("o 1 ");
        let text = join_args(args, 2);
        task.append(text.as_str());
        proof {
            assert(task@ =~= top_task_line(a));
        }
        out.push(task);
        proof {
            assert(out.deep_view() =~= l.push(top_task_line(a)));
        }
        return Ok(out);
    }
    if args.len() <= 3 {
        return Err(CommandError::MissingArgument(String::from_str("expected add argument")));
    }
    let parent = match parse_usize(args[3].as_str()) {
        None => {
            proof {
                assert(a[3] == args@[3]@);
            }
            return Err(
                CommandError::InvalidNumberFormat(
                    String::from_str("expected add argument as number"),
                ),
            );
        },
        Some(p) => p,
    };
    proof {
        assert(a[2] == args@[2]@);
        assert(a[3] == args@[3]@);
    }
    let mut out: Vec<String> = Vec::new();
    let mut i: usize = 0;
    while i < lines.len()
        invariant
            0 <= i <= lines.len(),
            l == lines.deep_view(),
            a == args.deep_view(),
            l.len() == lines@.len(),
            a.len() == args@.len(),
            a.len() > 3,
            a[2] == "-s"@,
            token_value(a[3]) == Some(parent),
            depths_below_max(l),
            1 <= parent as int <= i as int ==> line_depth(l[parent as int - 1]) is Some
                && out.deep_view() == l.subrange(0, parent as int) + seq![
                sub_task_line(l, a, parent as int),
            ] + l.subrange(parent as int, i as int),
            !(1 <= parent as int <= i as int) ==> out.deep_view() == l.subrange(0, i as int),
        decreases lines.len() - i,
    {
        proof {
            assert(l[i as int] == lines@[i as int]@);
        }
        let ghost odv = out.deep_view();
        out.push(lines[i].clone());
        proof {
            assert(out.deep_view() =~= odv.push(l[i as int]));
        }
        if i + 1 == parent {
            match get_line_depth(&lines[i]) {
                None => {
                    return Err(
                        CommandError::MalformedLine(
                            String::from_str("unable to get line depth"),
                        ),
                    );
                },
                Some(d) => {
                    assert(depth_of(l[i as int]) == d as int);
                    let mut task = String::from_str("o ");
                    let ds = fmt_usize(d + 1);
                    task.append(ds.as_str());
                    task.append(" ");
                    let text = join_args(args, 4);
                    task.append(text.as_str());
                    proof {
                        assert(task@ =~= sub_task_line(l, a, parent as int));
                    }
                    let ghost odv2 = out.deep_view();
                    out.push(task);
                    proof {
                        assert(out.deep_view() =~= odv2.push(sub_task_line(l, a, parent as int)));
                        assert(odv2 =~= l.subrange(0, parent as int));
                        assert(out.deep_view() =~= l.subrange(0, parent as int) + seq![
                            sub_task_line(l, a, parent as int),
                        ] + l.subrange(parent as int, i as int + 1));
                    }
                },
            }
        } else {
            proof {
                if 1 <= parent as int <= i as int {
                    assert(out.deep_view() =~= l.subrange(0, parent as int) + seq![
                        sub_task_line(l, a, parent as int),
                    ] + l.subrange(parent as int, i as int + 1));
                } else {
                    assert(out.deep_view() =~= l.subrange(0, i as int + 1));
                }
            }
        }
        i = i + 1;
    }
    proof {
        if 1 <= parent as int <= l.len() {
            assert(l.subrange(0, l.len() as int) =~= l);
        } else {
            assert(l.subrange(0, l.len() as int) =~= l);
        }
    }
    Ok(out)
}

/// Marks the target task done, and its whole sub-tree with the recursive
/// flag.
pub fn mark(lines: &Vec<String>, args: &Vec<String>) -> (r: Result<Vec<String>, CommandError>)
    ensures
        !has_target(args.deep_view()) ==> (r matches Err(e) && e is MissingArgument),
        has_target(args.deep_view()) && token_value(target_token(args.deep_view())) is None ==> (
        r matches Err(e) && e is InvalidNumberFormat),
        has_target(args.deep_view()) && token_value(target_token(args.deep_view())) is Some
            && wants_recursive(args.deep_view()) && !all_depths_ok(lines.deep_view()) ==> (
        r matches Err(e) && e is MalformedLine),
        has_target(args.deep_view()) && token_value(target_token(args.deep_view())) is Some && (
        wants_recursive(args.deep_view()) ==> all_depths_ok(lines.deep_view())) ==> (r matches Ok(
            out,
        ) && out.deep_view() == transformed(
            lines.deep_view(),
            token_value(target_token(args.deep_view()))->0 as int,
            wants_recursive(args.deep_view()),
            Op::Mark,
        )),
{
    run_edit(lines, args, Op::Mark, "expected mark argument", "expected mark argument as number")
}

/// Reverts the target task to not done, and its whole sub-tree with the
/// recursive flag.
pub fn unmark(lines: &Vec<String>, args: &Vec<String>) -> (r: Result<Vec<String>, CommandError>)
    ensures
        !has_target(args.deep_view()) ==> (r matches Err(e) && e is MissingArgument),
        has_target(args.deep_view()) && token_value(target_token(args.deep_view())) is None ==> (
        r matches Err(e) && e is InvalidNumberFormat),
        has_target(args.deep_view()) && token_value(target_token(args.deep_view())) is Some
            && wants_recursive(args.deep_view()) && !all_depths_ok(lines.deep_view()) ==> (
        r matches Err(e) && e is MalformedLine),
        has_target(args.deep_view()) && token_value(target_token(args.deep_view())) is Some && (
        wants_recursive(args.deep_view()) ==> all_depths_ok(lines.deep_view())) ==> (r matches Ok(
            out,
        ) && out.deep_view() == transformed(
            lines.deep_view(),
            token_value(target_token(args.deep_view()))->0 as int,
            wants_recursive(args.deep_view()),
            Op::Unmark,
        )),
{
    run_edit(
        lines,
        args,
        Op::Unmark,
        "expected unmark argument",
        "expected unmark argument as number",
    )
}

/// Removes the target task, and its whole sub-tree with the recursive
/// flag.  Without the flag, the children of a removed task stay, keeping
/// their old depths.
pub fn remove(lines: &Vec<String>, args: &Vec<String>) -> (r: Result<Vec<String>, CommandError>)
    ensures
        !has_target(args.deep_view()) ==> (r matches Err(e) && e is MissingArgument),
        has_target(args.deep_view()) && token_value(target_token(args.deep_view())) is None ==> (
        r matches Err(e) && e is InvalidNumberFormat),
        has_target(args.deep_view()) && token_value(target_token(args.deep_view())) is Some
            && wants_recursive(args.deep_view()) && !all_depths_ok(lines.deep_view()) ==> (
        r matches Err(e) && e is MalformedLine),
        has_target(args.deep_view()) && token_value(target_token(args.deep_view())) is Some && (
        wants_recursive(args.deep_view()) ==> all_depths_ok(lines.deep_view())) ==> (r matches Ok(
            out,
        ) && out.deep_view() == transformed(
            lines.deep_view(),
            token_value(target_token(args.deep_view()))->0 as int,
            wants_recursive(args.deep_view()),
            Op::Remove,
        )),
{
    run_edit(
        lines,
        args,
        Op::Remove,
        "expected remove argument",
        "expected remove argument as number",
    )
}

/// The shared argument handling of `mark`, `unmark` and `remove`: an
/// optional recursive flag, then the target line number, then one
/// traversal of the lines.
fn run_edit(
    lines: &Vec<String>,
    args: &Vec<String>,
    op: Op,
    missing_msg: &str,
    number_msg: &str,
) -> (r: Result<Vec<String>, CommandError>)
    ensures
        !has_target(args.deep_view()) ==> (r matches Err(e) && e is MissingArgument),
        has_target(args.deep_view()) && token_value(target_token(args.deep_view())) is None ==> (
        r matches Err(e) && e is InvalidNumberFormat),
        has_target(args.deep_view()) && token_value(target_token(args.deep_view())) is Some
            && wants_recursive(args.deep_view()) && !all_depths_ok(lines.deep_view()) ==> (
        r matches Err(e) && e is MalformedLine),
        has_target(args.deep_view()) && token_value(target_token(args.deep_view())) is Some && (
        wants_recursive(args.deep_view()) ==> all_depths_ok(lines.deep_view())) ==> (r matches Ok(
            out,
        ) && out.deep_view() == transformed(
            lines.deep_view(),
            token_value(target_token(args.deep_view()))->0 as int,
            wants_recursive(args.deep_view()),
            op,
        )),
{
    let ghost a = args.deep_view();
    if args.len() <= 2 {
        return Err(CommandError::MissingArgument(String::from_str(missing_msg)));
    }
    let flag = String::from_str("-r");
    let recursive = args[2] == flag;
    proof {
        assert(a[2] == args@[2]@);
        assert(recursive == wants_recursive(a));
    }
    let target_arg = if recursive {
        if args.len() <= 3 {
            return Err(CommandError::MissingArgument(String::from_str(missing_msg)));
        }
        proof {
            assert(a[3] == args@[3]@);
        }
        &args[3]
    } else {
        &args[2]
    };
    match parse_usize(target_arg.as_str()) {
        None => Err(CommandError::InvalidNumberFormat(String::from_str(number_msg))),
        Some(n) => apply_recursive(lines, n, recursive, op),
    }
}

/// Drops every completed task: a line whose first character is `x` is
/// omitted, whatever its depth or its parent's state.  Fails on an empty
/// line, which has no mark to read.
pub fn purge(lines: &Vec<String>) -> (r: Result<Vec<String>, CommandError>)
    ensures
        match r {
            Ok(out) => all_nonempty(lines.deep_view()) && out.deep_view() == purged(
                lines.deep_view(),
            ),
            Err(e) => !all_nonempty(lines.deep_view()) && e is MalformedLine,
        },
{
    let ghost l = lines.deep_view();
    let mut out: Vec<String> = Vec::new();
    let mut i: usize = 0;
    while i < lines.len()
        invariant
            0 <= i <= lines.len(),
            l == lines.deep_view(),
            l.len() == lines@.len(),
            forall|j: int| 0 <= j < i ==> (#[trigger] l[j]).len() > 0,
            out.deep_view() == purged_prefix(l, i as int),
        decreases lines.len() - i,
    {
        proof {
            assert(l[i as int] == lines@[i as int]@);
        }
        let line = &lines[i];
        let s = line.as_str();
        let n = s.unicode_len();
        if n == 0 {
            assert(!all_nonempty(l));
            return Err(CommandError::MalformedLine(String::new()));
        }
        if s.get_char(0) != 'x' {
            out.push(line.clone());
            proof {
                assert(out.deep_view() =~= purged_prefix(l, i as int + 1));
            }
        }
        i = i + 1;
    }
    Ok(out)
}

/// Empties the store.
pub fn clear() -> (r: Vec<String>)
    ensures
        r@.len() == 0,
{
    Vec::new()
}

/// The usage text.
pub fn help() -> (r: String)
    ensures
        r@ == help_text(),
{
    String::from_str(
        "TASC - Task Administration and Scheduling CLI\n\nUsage:\n    task <command> [options]\n\nCommands:\n    task add <text>                       Add a new task with the provided text.\n    task add -s <number> <text>           Add a new sub-task under the task specified by <number>.\n    task remove <number>                  Remove the task specified by <number>.\n    task remove -r <number>               Recursively remove the task specified by <number> and all its sub-tasks.\n    task mark <number>                    Mark the task specified by <number> as completed.\n    task clear                            Remove all tasks.\n    task purge                            Remove all completed tasks from the list.\n\nOptions:\n    -h, --help                            Show this help message and exit.\n    -v, --version                         Show the current version of TASC.\n\nExamples:\n    task add \"Buy groceries\"              Adds a new task with the text \"Buy groceries\".\n    task add -s 1 \"Buy vegetables\"        Adds a sub-task under task 1 with the text \"Buy vegetables\".\n    task remove 3                         Removes the task with ID 3.\n    task remove -r 3                      Recursively removes the task with ID 3 and all related sub-tasks.\n    task mark 2                           Marks the task with ID 2 as completed.\n    task clear                            Permanently remove all tasks.\n    task purge                            Permanently removes all completed tasks from the list.",
    )
}

/// What `help` prints.
pub open spec fn help_text() -> Seq<char> {
    "TASC - Task Administration and Scheduling CLI\n\nUsage:\n    task <command> [options]\n\nCommands:\n    task add <text>                       Add a new task with the provided text.\n    task add -s <number> <text>           Add a new sub-task under the task specified by <number>.\n    task remove <number>                  Remove the task specified by <number>.\n    task remove -r <number>               Recursively remove the task specified by <number> and all its sub-tasks.\n    task mark <number>                    Mark the task specified by <number> as completed.\n    task clear                            Remove all tasks.\n    task purge                            Remove all completed tasks from the list.\n\nOptions:\n    -h, --help                            Show this help message and exit.\n    -v, --version                         Show the current version of TASC.\n\nExamples:\n    task add \"Buy groceries\"              Adds a new task with the text \"Buy groceries\".\n    task add -s 1 \"Buy vegetables\"        Adds a sub-task under task 1 with the text \"Buy vegetables\".\n    task remove 3                         Removes the task with ID 3.\n    task remove -r 3                      Recursively removes the task with ID 3 and all related sub-tasks.\n    task mark 2                           Marks the task with ID 2 as completed.\n    task clear                            Permanently remove all tasks.\n    task purge                            Permanently removes all completed tasks from the list."@
}

/// The program's name and version.
pub fn version() -> (r: String)
    ensures
        r@ == "tasc version 0.1.0"@,
{
    String::from_str("tasc version 0.1.0")
}

} // verus!
