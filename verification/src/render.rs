//! Tree-styled display of one store line.
//!
//! A rendered line is a checkbox (`[x]` or `[ ]`), an indentation of one
//! vertical-bar glyph per nesting level, a branch glyph (a tee when the
//! next line sits at the same depth, a corner otherwise), and the task
//! text, struck through with terminal styling when the task is done.

use vstd::prelude::*;
use crate::line::{find_space, find_space_at, is_done, is_done_line, lemma_find_space, line_text};

verus! {

/// `n` copies of the vertical-bar indentation glyph.
pub open spec fn glyphs(n: int) -> Seq<char>
    decreases n,
{
    if n <= 0 {
        Seq::empty()
    } else {
        glyphs(n - 1) + "\u{2502}  "@
    }
}

/// The checkbox marker for a line's done state.
pub open spec fn checkbox(done: bool) -> Seq<char> {
    if done {
        "[x]"@
    } else {
        "[ ]"@
    }
}

/// Indentation and branch glyph for a line at `depth` whose follower sits
/// at `next_depth`.  Top-level lines always get the tee.
pub open spec fn branch_glyph(depth: int, next_depth: int) -> Seq<char> {
    if depth > 1 {
        glyphs(depth - 1) + (if depth == next_depth {
            "\u{251c}\u{2500}"@
        } else {
            "\u{2514}\u{2500}"@
        })
    } else {
        "\u{251c}\u{2500}"@
    }
}

/// The task text, wrapped in the terminal's strike-through styling when
/// the task is done.
pub open spec fn styled_text(done: bool, text: Seq<char>) -> Seq<char> {
    if done {
        "\u{1b}[9m"@ + text + "\u{1b}[0m"@
    } else {
        text
    }
}

/// The whole display form of one line.
pub open spec fn rendered(l: Seq<char>, depth: int, next_depth: int) -> Seq<char> {
    checkbox(is_done(l)) + " "@ + branch_glyph(depth, next_depth) + " "@ + styled_text(
        is_done(l),
        line_text(l),
    )
}

/// Renders one line for display.  `line` pairs the raw store line with its
/// parsed depth; `next_depth` is the depth of the following line (0 at the
/// end of the store), which picks the branch glyph.  The line must have a
/// mark token, that is, at least one space.
pub fn format_line(line: &(String, usize), _prev_depth: usize, next_depth: usize) -> (r: Option<
    String,
>)
    requires
        find_space(line.0@, 0) < line.0@.len(),
    ensures
        r matches Some(s) && s@ == rendered(line.0@, line.1 as int, next_depth as int),
{
    let s = line.0.as_str();
    let n = s.unicode_len();
    let depth = line.1;
    let done = is_done_line(s);
    proof {
        lemma_find_space(line.0@, 0);
    }
    let mut out = if done {
        String::from_str("[x]")
    } else {
        String::from_str("[ ]")
    };
    out.append(" ");
    if depth > 1 {
        let mut k: usize = 0;
        while k < depth - 1
            invariant
                0 <= k <= depth - 1,
                depth == line.1,
                done == is_done(line.0@),
                out@ == checkbox(done) + " "@ + glyphs(k as int),
            decreases depth - 1 - k,
        {
            out.append("\u{2502}  ");
            k = k + 1;
        }
        if depth == next_depth {
            out.append("\u{251c}\u{2500}");
        } else {
            out.append("\u{2514}\u{2500}");
        }
    } else {
        out.append("\u{251c}\u{2500}");
    }
    out.append(" ");
    proof {
        assert(out@ =~= checkbox(done) + " "@ + branch_glyph(depth as int, next_depth as int)
            + " "@);
    }
    let fs0 = find_space_at(s, 0);
    let fs1 = find_space_at(s, fs0 + 1);
    if done {
        out.append("\u{1b}[9m");
        if fs1 < n {
            out.append(s.substring_char(fs1 + 1, n));
        }
        out.append("\u{1b}[0m");
    } else {
        if fs1 < n {
            out.append(s.substring_char(fs1 + 1, n));
        }
    }
    proof {
        assert(out@ =~= rendered(line.0@, line.1 as int, next_depth as int));
    }
    Some(out)
}

} // verus!
