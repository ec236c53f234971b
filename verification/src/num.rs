//! Base-ten numbers as they appear in the store and in rendered output:
//! reading a line number or a depth from a token, and writing a depth or
//! an index back out as digits.

use vstd::prelude::*;

verus! {

/// The ten ASCII digit characters.
pub open spec fn is_digit(c: char) -> bool {
    48 <= c as u32 <= 57
}

/// Numeric value of one digit character.
pub open spec fn digit_val(c: char) -> int {
    c as u32 - 48
}

/// Numeric value of a digit string, read in base ten.
pub open spec fn digits_val(s: Seq<char>) -> int
    decreases s.len(),
{
    if s.len() == 0 {
        0
    } else {
        digits_val(s.drop_last()) * 10 + digit_val(s.last())
    }
}

/// Every character of `s` is a digit.
pub open spec fn all_digits(s: Seq<char>) -> bool {
    forall|i: int| 0 <= i < s.len() ==> is_digit(#[trigger] s[i])
}

/// The token without its sign: a single leading `+` is accepted and
/// ignored, as the standard integer parsing accepts it.
pub open spec fn digits_part(s: Seq<char>) -> Seq<char> {
    if s.len() > 0 && s[0] == '+' {
        s.subrange(1, s.len() as int)
    } else {
        s
    }
}

/// What reading a token as a `usize` yields: after an optional leading
/// `+`, the token must be one or more digits and its value must fit.
pub open spec fn token_value(s: Seq<char>) -> Option<usize> {
    let d = digits_part(s);
    if d.len() > 0 && all_digits(d) && digits_val(d) <= usize::MAX {
        Some(digits_val(d) as usize)
    } else {
        None
    }
}

/// The digit character for one value below ten.
pub open spec fn digit_char(d: int) -> char {
    if d == 0 { '0' }
    else if d == 1 { '1' }
    else if d == 2 { '2' }
    else if d == 3 { '3' }
    else if d == 4 { '4' }
    else if d == 5 { '5' }
    else if d == 6 { '6' }
    else if d == 7 { '7' }
    else if d == 8 { '8' }
    else { '9' }
}

/// The base-ten rendering of a non-negative number, most significant
/// digit first, with no leading zeros (a lone zero for 0).
pub open spec fn dec_rep(n: int) -> Seq<char>
    decreases n,
{
    if n < 10 {
        seq![digit_char(n)]
    } else {
        dec_rep(n / 10).push(digit_char(n % 10))
    }
}

/// `dec_rep`, left-padded with a zero to at least two digits.
pub open spec fn padded2(n: int) -> Seq<char> {
    if 0 <= n < 10 {
        seq!['0'].push(digit_char(n))
    } else {
        dec_rep(n)
    }
}

/// A digit string's value is never negative.
pub proof fn lemma_digits_val_nonneg(s: Seq<char>)
    requires
        all_digits(s),
    ensures
        digits_val(s) >= 0,
    decreases s.len(),
{
    if s.len() > 0 {
        assert(all_digits(s.drop_last())) by {
            assert(forall|i: int| 0 <= i < s.len() - 1 ==> s.drop_last()[i] == s[i]);
        }
        lemma_digits_val_nonneg(s.drop_last());
    }
}

/// Extending a digit string on the right never lowers its value.
pub proof fn lemma_digits_val_prefix(s: Seq<char>, k: int)
    requires
        all_digits(s),
        0 <= k <= s.len(),
    ensures
        digits_val(s.subrange(0, k)) <= digits_val(s),
    decreases s.len() - k,
{
    if k < s.len() {
        let p = s.subrange(0, k + 1);
        assert(p.drop_last() =~= s.subrange(0, k));
        assert(all_digits(p.drop_last()));
        lemma_digits_val_nonneg(p.drop_last());
        assert(digits_val(p) == digits_val(s.subrange(0, k)) * 10 + digit_val(p.last()));
        assert(digits_val(s.subrange(0, k)) * 10 >= digits_val(s.subrange(0, k)));
        assert(digit_val(p.last()) >= 0);
        lemma_digits_val_prefix(s, k + 1);
    } else {
        assert(s.subrange(0, k) =~= s);
    }
}

/// Every character `dec_rep` writes is a digit, and at least one is
/// written.
pub proof fn lemma_dec_rep_digits(n: int)
    requires
        n >= 0,
    ensures
        all_digits(dec_rep(n)),
        dec_rep(n).len() >= 1,
    decreases n,
{
    if n >= 10 {
        lemma_dec_rep_digits(n / 10);
        assert(forall|i: int|
            0 <= i < dec_rep(n).len() ==> is_digit(#[trigger] dec_rep(n)[i]));
    }
}

/// Reading the digits `dec_rep` writes yields the number back.
pub proof fn lemma_dec_rep_value(n: int)
    requires
        n >= 0,
    ensures
        digits_val(dec_rep(n)) == n,
    decreases n,
{
    if n < 10 {
        assert(digit_val(digit_char(n)) == n);
        assert(dec_rep(n) == seq![digit_char(n)]);
        assert(dec_rep(n).last() == digit_char(n));
        assert(dec_rep(n).drop_last() =~= Seq::<char>::empty());
        assert(digits_val(dec_rep(n).drop_last()) == 0);
        assert(digits_val(dec_rep(n)) == 0 * 10 + digit_val(digit_char(n)));
    } else {
        lemma_dec_rep_value(n / 10);
        assert(digit_val(digit_char(n % 10)) == n % 10);
        assert(dec_rep(n).drop_last() =~= dec_rep(n / 10));
        assert(digits_val(dec_rep(n)) == (n / 10) * 10 + (n % 10));
        vstd::arithmetic::div_mod::lemma_fundamental_div_mod(n, 10);
    }
}

/// Reads a whole token as a `usize`.  Succeeds exactly when the token is
/// a non-empty run of digits, after an optional leading `+`, whose value
/// fits.
pub fn parse_usize(s: &str) -> (r: Option<usize>)
    ensures
        r == token_value(s@),
{
    let n = s.unicode_len();
    let start: usize = if n > 0 && s.get_char(0) == '+' {
        1
    } else {
        0
    };
    proof {
        assert(digits_part(s@) =~= s@.subrange(start as int, n as int));
    }
    let ghost dpart = digits_part(s@);
    if n == start {
        return None;
    }
    let mut acc: usize = 0;
    let mut i: usize = start;
    while i < n
        invariant
            start <= i <= n,
            n == s@.len(),
            dpart == digits_part(s@),
            dpart =~= s@.subrange(start as int, n as int),
            all_digits(s@.subrange(start as int, i as int)),
            acc == digits_val(s@.subrange(start as int, i as int)),
        decreases n - i,
    {
        let c = s.get_char(i);
        let u = c as u32;
        if u < 48 || u > 57 {
            assert(dpart[i as int - start] == s@[i as int]);
            assert(!is_digit(dpart[i as int - start]));
            return None;
        }
        let d = (u - 48) as usize;
        let ghost pre = s@.subrange(start as int, i as int);
        let ghost ext = s@.subrange(start as int, i as int + 1);
        assert(ext.drop_last() =~= pre);
        assert(ext.last() == s@[i as int]);
        if acc > usize::MAX / 10 || (acc == usize::MAX / 10 && d > usize::MAX % 10) {
            // The digits read so far already exceed what fits, so the whole
            // token cannot parse.
            assert(digits_val(ext) > usize::MAX) by {
                vstd::arithmetic::div_mod::lemma_fundamental_div_mod(usize::MAX as int, 10);
            }
            proof {
                if all_digits(dpart) {
                    assert(ext =~= dpart.subrange(0, i as int + 1 - start));
                    lemma_digits_val_prefix(dpart, i as int + 1 - start);
                }
            }
            return None;
        }
        assert(acc * 10 + d <= usize::MAX) by {
            vstd::arithmetic::div_mod::lemma_fundamental_div_mod(usize::MAX as int, 10);
        }
        acc = acc * 10 + d;
        i = i + 1;
        assert(acc == digits_val(s@.subrange(start as int, i as int)));
    }
    assert(s@.subrange(start as int, n as int) =~= dpart);
    Some(acc)
}

/// One digit as a borrowed one-character string.
fn digit_str(d: usize) -> (r: &'static str)
    requires
        d < 10,
    ensures
        r@ =~= seq![digit_char(d as int)],
{
    proof {
        reveal_strlit("0");
        reveal_strlit("1");
        reveal_strlit("2");
        reveal_strlit("3");
        reveal_strlit("4");
        reveal_strlit("5");
        reveal_strlit("6");
        reveal_strlit("7");
        reveal_strlit("8");
        reveal_strlit("9");
    }
    match d {
        0 => "0",
        1 => "1",
        2 => "2",
        3 => "3",
        4 => "4",
        5 => "5",
        6 => "6",
        7 => "7",
        8 => "8",
        _ => "9",
    }
}

/// Renders a number in base ten.
pub fn fmt_usize(n: usize) -> (r: String)
    ensures
        r@ == dec_rep(n as int),
    decreases n,
{
    if n < 10 {
        String::from_str(digit_str(n))
    } else {
        let mut s = fmt_usize(n / 10);
        s.append(digit_str(n % 10));
        proof {
            assert(s@ =~= dec_rep(n as int));
        }
        s
    }
}

/// Renders a number in base ten, zero-padded to at least two digits.
pub fn fmt_padded2(n: usize) -> (r: String)
    ensures
        r@ == padded2(n as int),
{
    if n < 10 {
        proof {
            reveal_strlit("0");
        }
        let mut s = String::from_str("0");
        s.append(digit_str(n));
        proof {
            assert(s@ =~= padded2(n as int));
        }
        s
    } else {
        fmt_usize(n)
    }
}

} // verus!
