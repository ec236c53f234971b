//! Laws the commands obey, stated over the same spec functions the
//! commands' contracts use.

use vstd::prelude::*;
use crate::commands::{entry_at, next_depth_at, sub_task_line, top_task_line, joined};
use crate::line::{
    find_space, is_done, lemma_find_space, lemma_find_space_run, line_depth, line_text, remark,
    token0,
};
use crate::num::{
    dec_rep, digits_part, is_digit, lemma_dec_rep_digits, lemma_dec_rep_value, padded2,
    token_value,
};
use crate::render::{branch_glyph, checkbox, glyphs, styled_text};
use crate::tree::{
    depth_of, lemma_scan_end, subtree_end, transformed, transformed_prefix, Op,
};

verus! {

/// A line of the form `o <digits> <text>` parses back as stored: not
/// done, with the depth the digits name, and with exactly that text.
pub proof fn lemma_task_line_fields(d: int, text: Seq<char>)
    requires
        0 <= d <= usize::MAX,
    ensures
        line_depth("o "@ + dec_rep(d) + " "@ + text) == Some(d as usize),
        !is_done("o "@ + dec_rep(d) + " "@ + text),
        line_text("o "@ + dec_rep(d) + " "@ + text) == text,
{
    reveal_strlit("o ");
    reveal_strlit(" ");
    reveal_strlit("x");
    lemma_dec_rep_digits(d);
    lemma_dec_rep_value(d);
    let line = "o "@ + dec_rep(d) + " "@ + text;
    let dlen = dec_rep(d).len() as int;
    assert(line.len() == 3 + dlen + text.len());
    assert(line[0] == 'o');
    assert(line[1] == ' ');
    assert(find_space(line, 1) == 1);
    assert(find_space(line, 0) == 1);
    assert(forall|k: int| 2 <= k < 2 + dlen ==> line[k] == dec_rep(d)[k - 2]);
    assert(forall|k: int| 2 <= k < 2 + dlen ==> is_digit(#[trigger] line[k]));
    assert(forall|k: int| 2 <= k < 2 + dlen ==> (#[trigger] line[k]) != ' ');
    assert(line[2 + dlen] == ' ');
    lemma_find_space_run(line, 2, 2 + dlen);
    let tok = line.subrange(2, 2 + dlen);
    assert(tok =~= dec_rep(d));
    assert(tok[0] != '+');
    assert(digits_part(tok) == tok);
    assert(token_value(tok) == Some(d as usize));
    assert(line_depth(line) == Some(d as usize));
    assert(token0(line) =~= seq!['o']);
    assert(token0(line) != "x"@) by {
        if token0(line) == "x"@ {
            assert(token0(line)[0] == 'x');
        }
    }
    assert(line_text(line) =~= text);
}

/// The line a top-level `add` appends is an open task at depth 1 whose
/// text joins the given arguments.
pub proof fn lemma_top_task_line_fields(a: Seq<Seq<char>>)
    ensures
        line_depth(top_task_line(a)) == Some(1usize),
        !is_done(top_task_line(a)),
        line_text(top_task_line(a)) == joined(a, 2),
{
    reveal_strlit("o 1 ");
    reveal_strlit("o ");
    reveal_strlit(" ");
    lemma_task_line_fields(1, joined(a, 2));
    assert(dec_rep(1) =~= seq!['1']);
    assert(top_task_line(a) =~= "o "@ + dec_rep(1) + " "@ + joined(a, 2));
}

/// The line a sub-task `add` inserts is an open task one level deeper
/// than its parent, whose text joins the given arguments.
pub proof fn lemma_sub_task_line_fields(lines: Seq<Seq<char>>, a: Seq<Seq<char>>, p: int)
    requires
        1 <= p <= lines.len(),
        line_depth(lines[p - 1]) is Some,
        depth_of(lines[p - 1]) < usize::MAX,
    ensures
        line_depth(sub_task_line(lines, a, p)) == Some((depth_of(lines[p - 1]) + 1) as usize),
        !is_done(sub_task_line(lines, a, p)),
        line_text(sub_task_line(lines, a, p)) == joined(a, 4),
{
    lemma_task_line_fields(depth_of(lines[p - 1]) + 1, joined(a, 4));
}

/// Rewriting a line's mark field to a non-space mark leaves its depth and
/// its text exactly as they were, for a line that has a mark field to
/// rewrite.
pub proof fn lemma_remark_preserves_fields(l: Seq<char>, m: char)
    requires
        find_space(l, 0) < l.len(),
        m != ' ',
    ensures
        line_depth(remark(l, m)) == line_depth(l),
        line_text(remark(l, m)) == line_text(l),
        token0(remark(l, m)) == seq![m],
{
    let fs = find_space(l, 0);
    lemma_find_space(l, 0);
    let rl = remark(l, m);
    assert(rl == seq![m] + l.subrange(fs, l.len() as int));
    assert(rl.len() == l.len() - fs + 1);
    assert(rl[0] == m);
    assert(rl[1] == l[fs]);
    assert(find_space(rl, 1) == 1);
    assert(find_space(rl, 0) == 1);
    assert(token0(rl) =~= seq![m]);
    let fs1 = find_space(l, fs + 1);
    lemma_find_space(l, fs + 1);
    assert(forall|k: int| 1 <= k < rl.len() ==> rl[k] == l[fs + k - 1]);
    assert(forall|k: int| 2 <= k < fs1 - fs + 1 ==> (#[trigger] rl[k]) != ' ');
    if fs1 < l.len() {
        assert(rl[fs1 - fs + 1] == ' ');
    }
    lemma_find_space_run(rl, 2, fs1 - fs + 1);
    assert(rl.subrange(2, fs1 - fs + 1) =~= l.subrange(fs + 1, fs1));
    assert(line_depth(rl) == line_depth(l));
    if fs1 < l.len() {
        assert(rl.subrange(fs1 - fs + 2, rl.len() as int) =~= l.subrange(fs1 + 1, l.len() as int));
        assert(line_text(rl) == line_text(l));
    } else {
        assert(find_space(rl, 2) == rl.len());
        assert(line_text(rl) == line_text(l));
    }
}

/// A rendered line's indentation counts its stored depth: before the
/// branch glyph stand exactly `d - 1` copies of the vertical-bar glyph
/// for a line at depth `d`.
pub proof fn lemma_indentation_counts_depth(d: int, nd: int)
    requires
        d >= 1,
    ensures
        branch_glyph(d, nd) == glyphs(d - 1) + (if d > 1 && d != nd {
            "\u{2514}\u{2500}"@
        } else {
            "\u{251c}\u{2500}"@
        }),
{
    if d == 1 {
        assert(branch_glyph(d, nd) =~= glyphs(0) + "\u{251c}\u{2500}"@);
    }
}

/// Each listing entry shows its line's stored state in full: the 1-based
/// line number, the checkbox, one indentation glyph per nesting level
/// below the top, the branch glyph, and the task text.
pub proof fn lemma_listing_entry_shape(lines: Seq<Seq<char>>, i: int)
    requires
        0 <= i < lines.len(),
        depth_of(lines[i]) >= 1,
    ensures
        entry_at(lines, i) == padded2(i + 1) + " "@ + checkbox(is_done(lines[i])) + " "@ + glyphs(
            depth_of(lines[i]) - 1,
        ) + (if depth_of(lines[i]) > 1 && depth_of(lines[i]) != next_depth_at(lines, i) {
            "\u{2514}\u{2500}"@
        } else {
            "\u{251c}\u{2500}"@
        }) + " "@ + styled_text(is_done(lines[i]), line_text(lines[i])),
{
    let d = depth_of(lines[i]);
    let nd = next_depth_at(lines, i);
    lemma_indentation_counts_depth(d, nd);
    assert(entry_at(lines, i) =~= padded2(i + 1) + " "@ + checkbox(is_done(lines[i])) + " "@
        + glyphs(d - 1) + (if d > 1 && d != nd {
        "\u{2514}\u{2500}"@
    } else {
        "\u{251c}\u{2500}"@
    }) + " "@ + styled_text(is_done(lines[i]), line_text(lines[i])));
}

/// The traversal's output up to `k` lines, for a single-line mark or
/// unmark, agrees with updating the target line in place.
proof fn lemma_edit_prefix_update(lines: Seq<Seq<char>>, n: int, op: Op, k: int)
    requires
        1 <= n <= lines.len(),
        op is Mark || op is Unmark,
        0 <= k <= lines.len(),
    ensures
        transformed_prefix(lines, n, false, op, k) =~= lines.update(
            n - 1,
            remark(lines[n - 1], if op is Mark { 'x' } else { 'o' }),
        ).subrange(0, k),
    decreases k,
{
    if k > 0 {
        lemma_edit_prefix_update(lines, n, op, k - 1);
    }
}

/// Marking or unmarking one task without the recursive flag rewrites the
/// mark field of exactly the target line; every other line passes through
/// unchanged.
pub proof fn lemma_edit_single_line(lines: Seq<Seq<char>>, n: int, op: Op)
    requires
        1 <= n <= lines.len(),
        op is Mark || op is Unmark,
    ensures
        transformed(lines, n, false, op) == lines.update(
            n - 1,
            remark(lines[n - 1], if op is Mark { 'x' } else { 'o' }),
        ),
{
    lemma_edit_prefix_update(lines, n, op, lines.len() as int);
    assert(lines.update(
        n - 1,
        remark(lines[n - 1], if op is Mark { 'x' } else { 'o' }),
    ).subrange(0, lines.len() as int) =~= lines.update(
        n - 1,
        remark(lines[n - 1], if op is Mark { 'x' } else { 'o' }),
    ));
}

/// Marking a task done and then reverting it restores the store exactly,
/// for a target line that was not done to begin with.
pub proof fn lemma_mark_unmark_roundtrip(lines: Seq<Seq<char>>, n: int)
    requires
        1 <= n <= lines.len(),
        lines[n - 1].len() >= 2,
        lines[n - 1][0] == 'o',
        lines[n - 1][1] == ' ',
    ensures
        transformed(transformed(lines, n, false, Op::Mark), n, false, Op::Unmark) == lines,
{
    let l0 = lines[n - 1];
    lemma_edit_single_line(lines, n, Op::Mark);
    assert(find_space(l0, 1) == 1);
    assert(find_space(l0, 0) == 1);
    let marked = remark(l0, 'x');
    assert(marked == seq!['x'] + l0.subrange(1, l0.len() as int));
    assert(marked.len() == l0.len());
    let l1 = lines.update(n - 1, marked);
    lemma_edit_single_line(l1, n, Op::Unmark);
    assert(marked[0] == 'x');
    assert(marked[1] == l0[1]);
    assert(find_space(marked, 1) == 1);
    assert(find_space(marked, 0) == 1);
    assert(remark(marked, 'o') =~= l0);
    assert(l1.update(n - 1, remark(marked, 'o')) =~= lines);
}

/// The traversal's output up to `k` lines, for a single-line removal,
/// agrees with splicing the target line out.
proof fn lemma_remove_prefix(lines: Seq<Seq<char>>, n: int, k: int)
    requires
        1 <= n <= lines.len(),
        0 <= k <= lines.len(),
    ensures
        transformed_prefix(lines, n, false, Op::Remove, k) =~= (if k <= n - 1 {
            lines.subrange(0, k)
        } else {
            lines.subrange(0, n - 1) + lines.subrange(n, k)
        }),
    decreases k,
{
    if k > 0 {
        lemma_remove_prefix(lines, n, k - 1);
    }
}

/// Removing one task without the recursive flag drops exactly the target
/// line, keeping every other line in order.
pub proof fn lemma_remove_single_line(lines: Seq<Seq<char>>, n: int)
    requires
        1 <= n <= lines.len(),
    ensures
        transformed(lines, n, false, Op::Remove) == lines.subrange(0, n - 1) + lines.subrange(
            n,
            lines.len() as int,
        ),
{
    lemma_remove_prefix(lines, n, lines.len() as int);
}

/// The traversal's output up to `k` lines, for a recursive removal,
/// agrees with splicing out the whole stretch from the target line to the
/// end of its sub-tree.
proof fn lemma_remove_subtree_prefix(lines: Seq<Seq<char>>, n: int, k: int)
    requires
        1 <= n <= lines.len(),
        0 <= k <= lines.len(),
    ensures
        ({
            let se = subtree_end(lines, n - 1);
            transformed_prefix(lines, n, true, Op::Remove, k) =~= (if k <= n - 1 {
                lines.subrange(0, k)
            } else if k <= se {
                lines.subrange(0, n - 1)
            } else {
                lines.subrange(0, n - 1) + lines.subrange(se, k)
            })
        }),
    decreases k,
{
    lemma_scan_end(lines, depth_of(lines[n - 1]), n);
    if k > 0 {
        lemma_remove_subtree_prefix(lines, n, k - 1);
    }
}

/// Removing a task with the recursive flag drops exactly the target line
/// and its contiguous sub-tree — every following line strictly deeper than
/// the target, up to the first at its depth or above — and nothing else.
pub proof fn lemma_remove_subtree(lines: Seq<Seq<char>>, n: int)
    requires
        1 <= n <= lines.len(),
    ensures
        transformed(lines, n, true, Op::Remove) == lines.subrange(0, n - 1) + lines.subrange(
            subtree_end(lines, n - 1),
            lines.len() as int,
        ),
{
    lemma_remove_subtree_prefix(lines, n, lines.len() as int);
    lemma_scan_end(lines, depth_of(lines[n - 1]), n);
    assert(transformed(lines, n, true, Op::Remove) =~= lines.subrange(0, n - 1) + lines.subrange(
        subtree_end(lines, n - 1),
        lines.len() as int,
    ));
}

} // verus!
