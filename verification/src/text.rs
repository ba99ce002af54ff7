//! Text building blocks: decimal rendering of counters, the numbered names
//! (`base_1`, `base_2`, ...) that are handed out when a name is taken, and
//! the comparing, trimming and cutting of texts that reading a parameter
//! needs.

use vstd::prelude::*;
use vstd::string::*;

verus! {

/// The character that stands for the digit `d`.
pub open spec fn digit_char(d: nat) -> char {
    if d == 0 {
        '0'
    } else if d == 1 {
        '1'
    } else if d == 2 {
        '2'
    } else if d == 3 {
        '3'
    } else if d == 4 {
        '4'
    } else if d == 5 {
        '5'
    } else if d == 6 {
        '6'
    } else if d == 7 {
        '7'
    } else if d == 8 {
        '8'
    } else {
        '9'
    }
}

/// The digit that a character stands for (0 for anything that is no digit).
pub open spec fn digit_value(c: char) -> nat {
    if c == '1' {
        1
    } else if c == '2' {
        2
    } else if c == '3' {
        3
    } else if c == '4' {
        4
    } else if c == '5' {
        5
    } else if c == '6' {
        6
    } else if c == '7' {
        7
    } else if c == '8' {
        8
    } else if c == '9' {
        9
    } else {
        0
    }
}

/// The decimal notation of `n`, without sign or leading zeros.
pub open spec fn decimal(n: nat) -> Seq<char>
    decreases n,
{
    if n < 10 {
        seq![digit_char(n)]
    } else {
        decimal(n / 10).push(digit_char(n % 10))
    }
}

/// The number that a sequence of digits denotes.
pub open spec fn decimal_value(s: Seq<char>) -> nat
    decreases s.len(),
{
    if s.len() == 0 {
        0
    } else {
        decimal_value(s.drop_last()) * 10 + digit_value(s.last())
    }
}

/// Reading the decimal notation of a number gives the number back.
pub proof fn lemma_decimal_value(n: nat)
    ensures
        decimal_value(decimal(n)) == n,
    decreases n,
{
    if n < 10 {
        let s = decimal(n);
        assert(s.len() == 1);
        assert(s.drop_last().len() == 0);
        assert(s.last() == digit_char(n));
        assert(decimal_value(s.drop_last()) == 0);
    } else {
        lemma_decimal_value(n / 10);
        let s = decimal(n);
        assert(s.drop_last() =~= decimal(n / 10));
        assert(s.last() == digit_char(n % 10));
    }
}

/// Different numbers have different decimal notations.
pub proof fn lemma_decimal_injective(a: nat, b: nat)
    requires
        decimal(a) == decimal(b),
    ensures
        a == b,
{
    lemma_decimal_value(a);
    lemma_decimal_value(b);
}

/// `base` followed by an underscore and the decimal notation of `k`.
pub open spec fn suffixed(base: Seq<char>, k: nat) -> Seq<char> {
    base + seq!['_'] + decimal(k)
}

/// The `k`-th name that is tried for `base`: `base` itself first, then
/// `base_1`, `base_2`, and so on.
pub open spec fn candidate(base: Seq<char>, k: nat) -> Seq<char> {
    if k == 0 {
        base
    } else {
        suffixed(base, k)
    }
}

/// Two numbered names over one base agree only where their numbers do.
pub proof fn lemma_suffixed_injective(base: Seq<char>, a: nat, b: nat)
    requires
        suffixed(base, a) == suffixed(base, b),
    ensures
        a == b,
{
    let start = base.len() + 1;
    let sa = suffixed(base, a);
    let sb = suffixed(base, b);
    assert(sa.subrange(start as int, sa.len() as int) =~= decimal(a));
    assert(sb.subrange(start as int, sb.len() as int) =~= decimal(b));
    lemma_decimal_injective(a, b);
}

/// The digit `d` as a text of one character.
fn digit_text(d: usize) -> (r: &'static str)
    requires
        d < 10,
    ensures
        r@ == seq![digit_char(d as nat)],
{
    proof {
        reveal_strlit("0");
        reveal_strlit("1");
        reveal_strlit("2");
        reveal_strlit("3");
        reveal_strlit("4");
        reveal_strlit("5");
        reveal_strlit("6");
        reveal_strlit("7");
        reveal_strlit("8");
        reveal_strlit("9");
    }
    let r = if d == 0 {
        "0"
    } else if d == 1 {
        "1"
    } else if d == 2 {
        "2"
    } else if d == 3 {
        "3"
    } else if d == 4 {
        "4"
    } else if d == 5 {
        "5"
    } else if d == 6 {
        "6"
    } else if d == 7 {
        "7"
    } else if d == 8 {
        "8"
    } else {
        "9"
    };
    assert(r@ =~= seq![digit_char(d as nat)]);
    r
}

/// Appends the decimal notation of `n` to `text`.
pub fn append_decimal(text: &mut String, n: usize)
    ensures
        final(text)@ == old(text)@ + decimal(n as nat),
    decreases n,
{
    if n >= 10 {
        append_decimal(text, n / 10);
    }
    text.append(digit_text(n % 10));
    assert(final(text)@ =~= old(text)@ + decimal(n as nat));
}

/// Builds `base`, an underscore and the decimal notation of `k`.
pub fn numbered_name(base: &str, k: usize) -> (r: String)
    ensures
        r@ == suffixed(base@, k as nat),
{
    proof {
        reveal_strlit("_");
    }
    let mut r = base.to_owned();
    r.append("_");
    append_decimal(&mut r, k);
    assert(r@ =~= suffixed(base@, k as nat));
    r
}

/// The characters of each text of a list.
pub open spec fn texts(items: Seq<String>) -> Seq<Seq<char>> {
    Seq::new(items.len(), |i: int| items[i]@)
}

/// Whether two texts hold the same characters.
pub fn same_text(a: &str, b: &str) -> (r: bool)
    ensures
        r == (a@ == b@),
{
    let left = a.to_owned();
    let right = b.to_owned();
    left == right
}

/// Whether `text` begins with `prefix`.
pub fn starts_with(text: &str, prefix: &str) -> (r: bool)
    ensures
        r == prefix@.is_prefix_of(text@),
{
    let n = prefix.unicode_len();
    if text.unicode_len() < n {
        false
    } else {
        let head = text.substring_char(0, n);
        same_text(head, prefix)
    }
}

/// Whether a character is white space, as Unicode defines it.
pub uninterp spec fn is_white_space(c: char) -> bool;

/// `char::is_whitespace`: whether the character has the Unicode property
/// `White_Space`, a function of the character alone.
#[verifier::external_body]
pub(crate) fn char_is_whitespace(c: char) -> (r: bool)
    ensures
        r == is_white_space(c),
{
    c.is_whitespace()
}

/// `text` without the white space at its beginning.
pub open spec fn without_leading_space(text: Seq<char>) -> Seq<char>
    decreases text.len(),
{
    if text.len() > 0 && is_white_space(text[0]) {
        without_leading_space(text.skip(1))
    } else {
        text
    }
}

/// `text` without the white space at its end.
pub open spec fn without_trailing_space(text: Seq<char>) -> Seq<char>
    decreases text.len(),
{
    if text.len() > 0 && is_white_space(text.last()) {
        without_trailing_space(text.drop_last())
    } else {
        text
    }
}

/// `text` without the white space at its two ends.
pub open spec fn trimmed(text: Seq<char>) -> Seq<char> {
    without_trailing_space(without_leading_space(text))
}

/// `text` without the occurrences of `pattern`, which are found from left to
/// right and do not overlap. An empty pattern takes nothing out.
pub open spec fn text_without(text: Seq<char>, pattern: Seq<char>) -> Seq<char>
    decreases text.len(),
{
    if pattern.len() == 0 || text.len() < pattern.len() {
        text
    } else if pattern.is_prefix_of(text) {
        text_without(text.skip(pattern.len() as int), pattern)
    } else {
        seq![text[0]] + text_without(text.skip(1), pattern)
    }
}

/// How often the character `c` occurs in `text`.
pub open spec fn count_of(text: Seq<char>, c: char) -> nat
    decreases text.len(),
{
    if text.len() == 0 {
        0
    } else {
        count_of(text.drop_last(), c) + if text.last() == c {
            1nat
        } else {
            0nat
        }
    }
}

/// The part of `text` between the white space at its two ends.
pub fn trim<'a>(text: &'a str) -> (r: &'a str)
    ensures
        r@ == trimmed(text@),
{
    let n = text.unicode_len();
    let mut a: usize = 0;
    assert(text@.subrange(0, n as int) =~= text@);
    while a < n && char_is_whitespace(text.get_char(a))
        invariant
            a <= n,
            n == text@.len(),
            without_leading_space(text@) == without_leading_space(text@.subrange(a as int, n as int)),
        decreases n - a,
    {
        proof {
            assert(text@.subrange(a as int, n as int).skip(1) =~= text@.subrange(a + 1, n as int));
        }
        a += 1;
    }
    let ghost rest = text@.subrange(a as int, n as int);
    assert(without_leading_space(text@) == rest);
    let mut b: usize = n;
    while b > a && char_is_whitespace(text.get_char(b - 1))
        invariant
            a <= b <= n,
            n == text@.len(),
            rest == text@.subrange(a as int, n as int),
            without_trailing_space(rest) == without_trailing_space(
                text@.subrange(a as int, b as int),
            ),
        decreases b - a,
    {
        proof {
            assert(text@.subrange(a as int, b as int).drop_last() =~= text@.subrange(
                a as int,
                b - 1,
            ));
        }
        b -= 1;
    }
    assert(without_trailing_space(rest) == text@.subrange(a as int, b as int));
    text.substring_char(a, b)
}

/// Takes every occurrence of `pattern` out of `text`. The time this takes
/// grows with the square of the length of `text`.
pub fn remove_all(text: &str, pattern: &str) -> (r: String)
    ensures
        r@ == text_without(text@, pattern@),
{
    let n = text.unicode_len();
    let m = pattern.unicode_len();
    if m == 0 {
        return text.to_owned();
    }
    let mut out = String::new();
    let mut i: usize = 0;
    assert(text@.skip(0) =~= text@);
    assert(out@ + text_without(text@.skip(0), pattern@) =~= text_without(text@, pattern@));
    while i < n
        invariant
            i <= n,
            m > 0,
            n == text@.len(),
            m == pattern@.len(),
            out@ + text_without(text@.skip(i as int), pattern@) == text_without(text@, pattern@),
        decreases n - i,
    {
        let ghost rest = text@.skip(i as int);
        let ghost done = out@;
        let here = n - i >= m && same_text(text.substring_char(i, i + m), pattern);
        if here {
            proof {
                assert(rest.subrange(0, m as int) =~= text@.subrange(i as int, i + m));
                assert(pattern@.is_prefix_of(rest));
                assert(rest.skip(m as int) =~= text@.skip(i + m));
            }
            i += m;
        } else {
            out.append(text.substring_char(i, i + 1));
            proof {
                assert(text@.subrange(i as int, i + 1) =~= seq![rest[0]]);
                assert(rest.skip(1) =~= text@.skip(i + 1));
                if n - i >= m {
                    assert(rest.subrange(0, m as int) =~= text@.subrange(i as int, i + m));
                    assert(!pattern@.is_prefix_of(rest));
                } else {
                    assert(text_without(rest, pattern@) == rest);
                    assert(text_without(rest.skip(1), pattern@) == rest.skip(1));
                    assert(rest =~= seq![rest[0]] + rest.skip(1));
                }
                assert(out@ + text_without(rest.skip(1), pattern@) =~= done + text_without(
                    rest,
                    pattern@,
                ));
            }
            i += 1;
        }
    }
    assert(text@.skip(n as int) =~= Seq::<char>::empty());
    assert(out@ + Seq::<char>::empty() =~= out@);
    out
}

} // verus!
