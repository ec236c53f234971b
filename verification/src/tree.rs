//! The shared traversal behind `mark`, `unmark` and `remove`.
//!
//! A command addresses a task by its 1-based line number.  Run without the
//! recursive flag, the traversal touches that line alone; run with it, the
//! traversal also touches the line's sub-tree: every immediately following
//! line whose depth is strictly greater, up to the first line at the same
//! or a lesser depth.

use vstd::prelude::*;
use crate::error::CommandError;
use crate::line::{get_line_depth, line_depth, remark, remark_line};

verus! {

/// The transform a traversal applies to the lines in its scope.
#[derive(Clone, Copy, Debug)]
pub enum Op {
    /// Rewrite the mark field to `x`.
    Mark,
    /// Rewrite the mark field to `o`.
    Unmark,
    /// Drop the line.
    Remove,
}

/// The depth of a line, with `-1` standing in where the depth field does
/// not parse.  Traversals that compare depths first check every line with
/// `all_depths_ok`, so the stand-in is never compared.
pub open spec fn depth_of(l: Seq<char>) -> int {
    match line_depth(l) {
        Some(d) => d as int,
        None => -1,
    }
}

/// Every line's depth field parses.
pub open spec fn all_depths_ok(lines: Seq<Seq<char>>) -> bool {
    forall|i: int| 0 <= i < lines.len() ==> (#[trigger] line_depth(lines[i])) is Some
}

/// First index at or after `j` whose depth is at most `d`, or the number
/// of lines when every following line is deeper.
pub open spec fn scan_end(lines: Seq<Seq<char>>, d: int, j: int) -> int
    decreases lines.len() - j,
{
    if j < 0 || j >= lines.len() {
        lines.len() as int
    } else if depth_of(lines[j]) <= d {
        j
    } else {
        scan_end(lines, d, j + 1)
    }
}

/// Bounds and meaning of `scan_end`: the lines it skips are strictly
/// deeper than `d`, and the line it lands on (if any) is not.
pub proof fn lemma_scan_end(lines: Seq<Seq<char>>, d: int, j: int)
    requires
        0 <= j <= lines.len(),
    ensures
        j <= scan_end(lines, d, j) <= lines.len(),
        forall|k: int| j <= k < scan_end(lines, d, j) ==> depth_of(#[trigger] lines[k]) > d,
        scan_end(lines, d, j) < lines.len() ==> depth_of(lines[scan_end(lines, d, j)]) <= d,
    decreases lines.len() - j,
{
    if j < lines.len() && depth_of(lines[j]) > d {
        lemma_scan_end(lines, d, j + 1);
    }
}

/// One past the last line of the sub-tree rooted at line `t` (0-based):
/// the first following index at depth less than or equal to `t`'s, or the
/// number of lines.
pub open spec fn subtree_end(lines: Seq<Seq<char>>, t: int) -> int {
    scan_end(lines, depth_of(lines[t]), t + 1)
}

/// Whether the traversal's transform falls on line `i` (0-based): it is
/// the target line itself, or, recursively, a line of the target's
/// sub-tree.
pub open spec fn active_at(lines: Seq<Seq<char>>, target: int, recursive: bool, i: int) -> bool {
    i + 1 == target || (recursive && 1 <= target <= i && i < subtree_end(lines, target - 1))
}

/// The traversal's output restricted to the first `n` input lines:
/// passive lines pass through unchanged, active lines are re-marked or
/// dropped as `op` says.
pub open spec fn transformed_prefix(
    lines: Seq<Seq<char>>,
    target: int,
    recursive: bool,
    op: Op,
    n: int,
) -> Seq<Seq<char>>
    decreases n,
{
    if n <= 0 {
        Seq::empty()
    } else {
        let rest = transformed_prefix(lines, target, recursive, op, n - 1);
        if active_at(lines, target, recursive, n - 1) {
            match op {
                Op::Mark => rest.push(remark(lines[n - 1], 'x')),
                Op::Unmark => rest.push(remark(lines[n - 1], 'o')),
                Op::Remove => rest,
            }
        } else {
            rest.push(lines[n - 1])
        }
    }
}

/// The traversal's whole output.
pub open spec fn transformed(
    lines: Seq<Seq<char>>,
    target: int,
    recursive: bool,
    op: Op,
) -> Seq<Seq<char>> {
    transformed_prefix(lines, target, recursive, op, lines.len() as int)
}

/// Walks the lines once and applies `op` to the target line — and, when
/// `recursive`, to its sub-tree — passing every other line through
/// unchanged.  A target of 0 or one past the last line touches nothing.
/// The recursive walk reads every line's depth and fails on the first line
/// whose depth field does not parse.
pub fn apply_recursive(
    lines: &Vec<String>,
    start_line: usize,
    recursive: bool,
    op: Op,
) -> (r: Result<Vec<String>, CommandError>)
    ensures
        match r {
            Ok(out) => (recursive ==> all_depths_ok(lines.deep_view())) && out.deep_view()
                == transformed(lines.deep_view(), start_line as int, recursive, op),
            Err(e) => recursive && !all_depths_ok(lines.deep_view()) && e is MalformedLine,
        },
{
    let ghost dv = lines.deep_view();
    let mut out: Vec<String> = Vec::new();
    let mut is_sub: bool = false;
    let mut parent_depth: usize = 0;
    let mut i: usize = 0;
    while i < lines.len()
        invariant
            0 <= i <= lines.len(),
            dv == lines.deep_view(),
            dv.len() == lines.len(),
            recursive ==> forall|j: int| 0 <= j < i ==> (#[trigger] line_depth(dv[j])) is Some,
            is_sub <==> (recursive && 1 <= start_line && start_line <= i && i as int
                <= subtree_end(dv, start_line as int - 1)),
            is_sub ==> line_depth(dv[start_line as int - 1]) == Some(parent_depth),
            out.deep_view() == transformed_prefix(dv, start_line as int, recursive, op, i as int),
        decreases lines.len() - i,
    {
        proof {
            assert(dv[i as int] == lines@[i as int]@);
        }
        let line = &lines[i];
        if recursive {
            match get_line_depth(line) {
                None => {
                    assert(!all_depths_ok(dv));
                    return Err(
                        CommandError::MalformedLine(
                            String::from_str("unable to get line depth"),
                        ),
                    );
                },
                Some(cur_depth) => {
                    proof {
                        if 1 <= start_line && start_line as int <= dv.len() {
                            lemma_scan_end(
                                dv,
                                depth_of(dv[start_line as int - 1]),
                                start_line as int,
                            );
                        }
                    }
                    if is_sub {
                        if cur_depth <= parent_depth {
                            is_sub = false;
                        }
                    } else if i + 1 == start_line {
                        is_sub = true;
                        parent_depth = cur_depth;
                    }
                },
            }
        }
        proof {
            assert(is_sub <==> (recursive && 1 <= start_line && start_line as int <= i + 1
                && i as int + 1 <= subtree_end(dv, start_line as int - 1)));
        }
        let act = i + 1 == start_line || is_sub;
        assert(act == active_at(dv, start_line as int, recursive, i as int));
        if act {
            match op {
                Op::Mark => {
                    let nl = remark_line(line, true);
                    out.push(nl);
                },
                Op::Unmark => {
                    let nl = remark_line(line, false);
                    out.push(nl);
                },
                Op::Remove => {},
            }
        } else {
            out.push(line.clone());
        }
        proof {
            assert(out.deep_view() =~= transformed_prefix(
                dv,
                start_line as int,
                recursive,
                op,
                i as int + 1,
            ));
        }
        i = i + 1;
    }
    Ok(out)
}

} // verus!
