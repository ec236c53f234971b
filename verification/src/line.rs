//! One line of the store: `<mark> <depth> <text>`.
//!
//! Fields are separated by single spaces; the text is everything after the
//! second space and may itself contain spaces.  Commands address the fields
//! by the first and second space of the line, so those two positions are
//! the whole of the line grammar.

use vstd::prelude::*;
use crate::num::token_value;

verus! {

/// Index of the first space at or after position `i`, or the line's length
/// when no space follows.
pub open spec fn find_space(l: Seq<char>, i: int) -> int
    decreases l.len() - i,
{
    if i < 0 || i >= l.len() {
        l.len() as int
    } else if l[i] == ' ' {
        i
    } else {
        find_space(l, i + 1)
    }
}

/// Bounds and meaning of `find_space`: it lands on the first space at or
/// after `i`, or on the end of the line.
pub proof fn lemma_find_space(l: Seq<char>, i: int)
    requires
        0 <= i <= l.len(),
    ensures
        i <= find_space(l, i) <= l.len(),
        forall|j: int| i <= j < find_space(l, i) ==> l[j] != ' ',
        find_space(l, i) < l.len() ==> l[find_space(l, i)] == ' ',
    decreases l.len() - i,
{
    if i < l.len() && l[i] != ' ' {
        lemma_find_space(l, i + 1);
    }
}

/// `find_space` lands exactly on `j` when no space stands in `[i, j)` and
/// `j` holds a space or ends the line.
pub proof fn lemma_find_space_run(l: Seq<char>, i: int, j: int)
    requires
        0 <= i <= j <= l.len(),
        forall|k: int| i <= k < j ==> l[k] != ' ',
        j < l.len() ==> l[j] == ' ',
    ensures
        find_space(l, i) == j,
    decreases j - i,
{
    if i < j {
        lemma_find_space_run(l, i + 1, j);
    }
}

/// The line's first space-delimited token: its mark field.
pub open spec fn token0(l: Seq<char>) -> Seq<char> {
    l.subrange(0, find_space(l, 0))
}

/// The line carries the done mark: its first token is exactly `x`.
pub open spec fn is_done(l: Seq<char>) -> bool {
    token0(l) == "x"@
}

/// The depth recorded on the line: the second space-delimited token read
/// as a number.  `None` when the line has no second token or the token is
/// not a number in range.
pub open spec fn line_depth(l: Seq<char>) -> Option<usize> {
    let fs0 = find_space(l, 0);
    if fs0 >= l.len() {
        None
    } else {
        token_value(l.subrange(fs0 + 1, find_space(l, fs0 + 1)))
    }
}

/// The line's text: everything after the second space, or empty when the
/// line has no second space.
pub open spec fn line_text(l: Seq<char>) -> Seq<char> {
    let fs0 = find_space(l, 0);
    let fs1 = find_space(l, fs0 + 1);
    if fs1 < l.len() {
        l.subrange(fs1 + 1, l.len() as int)
    } else {
        Seq::empty()
    }
}

/// The line with its mark field replaced by `m`: the new mark followed by
/// everything from the first space on.  A line without a space has its
/// whole content treated as the mark field, leaving only the new mark and
/// a trailing space.
pub open spec fn remark(l: Seq<char>, m: char) -> Seq<char> {
    let fs = find_space(l, 0);
    if fs < l.len() {
        seq![m] + l.subrange(fs, l.len() as int)
    } else {
        seq![m, ' ']
    }
}

/// Index of the first space of `s` at or after `from`, or the length of
/// `s` when no space follows.
pub fn find_space_at(s: &str, from: usize) -> (r: usize)
    requires
        from <= s@.len(),
    ensures
        r == find_space(s@, from as int),
        from <= r <= s@.len(),
{
    let n = s.unicode_len();
    let mut i = from;
    while i < n
        invariant
            from <= i <= n,
            n == s@.len(),
            find_space(s@, from as int) == find_space(s@, i as int),
        decreases n - i,
    {
        if s.get_char(i) == ' ' {
            return i;
        }
        i = i + 1;
    }
    n
}

/// Reads the depth field of a line, as `line_depth` describes.
pub fn get_line_depth(line: &String) -> (r: Option<usize>)
    ensures
        r == line_depth(line@),
{
    let s = line.as_str();
    let n = s.unicode_len();
    let fs0 = find_space_at(s, 0);
    if fs0 >= n {
        return None;
    }
    let fs1 = find_space_at(s, fs0 + 1);
    let tok = s.substring_char(fs0 + 1, fs1);
    crate::num::parse_usize(tok)
}

/// Whether the line's mark field is exactly `x`.
pub fn is_done_line(s: &str) -> (r: bool)
    ensures
        r == is_done(s@),
{
    proof {
        reveal_strlit("x");
        lemma_find_space(s@, 0);
    }
    let n = s.unicode_len();
    let fs0 = find_space_at(s, 0);
    let r = fs0 == 1 && s.get_char(0) == 'x';
    proof {
        if r {
            assert(token0(s@) =~= "x"@);
        } else {
            if token0(s@) == "x"@ {
                assert(token0(s@).len() == 1);
                assert(s@[0] == token0(s@)[0]);
            }
        }
    }
    r
}

/// Rewrites the line's mark field to `x` (`done`) or `o` (not done),
/// leaving the rest of the line untouched.
pub fn remark_line(line: &String, done: bool) -> (r: String)
    ensures
        r@ == remark(line@, if done { 'x' } else { 'o' }),
{
    proof {
        reveal_strlit("x");
        reveal_strlit("o");
        reveal_strlit(" ");
    }
    let s = line.as_str();
    let n = s.unicode_len();
    let fs = find_space_at(s, 0);
    let mut out = if done {
        String::from_str("x")
    } else {
        String::from_str("o")
    };
    if fs < n {
        out.append(s.substring_char(fs, n));
    } else {
        out.append(" ");
    }
    proof {
        assert(out@ =~= remark(line@, if done { 'x' } else { 'o' }));
    }
    out
}

} // verus!
