//! Character classes of the log-line grammar and helpers for scanning a line.

use vstd::prelude::*;

verus! {

/// The characters the grammar treats as whitespace: the ASCII whitespace
/// characters, used both for trimming a line and as field separators.
pub open spec fn is_ws(c: char) -> bool {
    c == ' ' || c == '\t' || c == '\n' || c == '\r' || c == '\u{b}' || c == '\u{c}'
}

/// Decimal digits.
pub open spec fn is_digit(c: char) -> bool {
    ('0' as u32) <= (c as u32) && (c as u32) <= ('9' as u32)
}

/// The numeric value of a decimal digit character.
pub open spec fn digit_val(c: char) -> nat
    recommends
        is_digit(c),
{
    ((c as u32) - ('0' as u32)) as nat
}

/// Characters allowed in a signal name.
pub open spec fn is_name_char(c: char) -> bool {
    (('a' as u32) <= (c as u32) && (c as u32) <= ('z' as u32)) || (('A' as u32) <= (c as u32)
        && (c as u32) <= ('Z' as u32)) || is_digit(c) || c == '.'
}

/// Characters allowed in a scalar or binary-vector value token.
pub open spec fn is_scalar_char(c: char) -> bool {
    c == '0' || c == '1' || c == 'x' || c == 'X' || c == 'z' || c == 'Z'
}

/// The index of the first whitespace character of `s` at or after `i`,
/// or the length of `s` if there is none.
pub open spec fn next_ws(s: Seq<char>, i: int) -> int
    decreases s.len() - i,
    when 0 <= i <= s.len()
{
    if i >= s.len() {
        s.len() as int
    } else if is_ws(s[i]) {
        i
    } else {
        next_ws(s, i + 1)
    }
}

pub proof fn lemma_next_ws_is(s: Seq<char>, i: int, j: int)
    requires
        0 <= i <= j <= s.len(),
        forall|k: int| i <= k < j ==> !is_ws(s[k]),
        j == s.len() || is_ws(s[j]),
    ensures
        next_ws(s, i) == j,
    decreases j - i,
{
    if i < j {
        lemma_next_ws_is(s, i + 1, j);
    }
}

/// The numeric value of a string of decimal digit characters.
pub open spec fn digits_val(s: Seq<char>) -> nat
    decreases s.len(),
{
    if s.len() == 0 {
        0
    } else {
        digits_val(s.drop_last()) * 10 + digit_val(s.last())
    }
}

/// A longer digit string never has a smaller value than its prefixes.
pub proof fn lemma_digits_val_prefix(s: Seq<char>, i: int)
    requires
        0 <= i <= s.len(),
    ensures
        digits_val(s.take(i)) <= digits_val(s),
    decreases s.len() - i,
{
    if i < s.len() {
        assert(s.take(i + 1).drop_last() =~= s.take(i));
        assert(digits_val(s.take(i + 1)) == digits_val(s.take(i)) * 10 + digit_val(s[i]));
        lemma_digits_val_prefix(s, i + 1);
    } else {
        assert(s.take(i) =~= s);
    }
}

/// Every character of `s` is a decimal digit.
pub open spec fn all_digits(s: Seq<char>) -> bool {
    forall|k: int| 0 <= k < s.len() ==> is_digit(s[k])
}

/// Every character of `s` may appear in a signal name.
pub open spec fn all_name_chars(s: Seq<char>) -> bool {
    forall|k: int| 0 <= k < s.len() ==> is_name_char(s[k])
}

/// Every character of `s` is a four-valued logic digit.
pub open spec fn all_scalar_chars(s: Seq<char>) -> bool {
    forall|k: int| 0 <= k < s.len() ==> is_scalar_char(s[k])
}

/// `s` without its leading whitespace.
pub open spec fn trim_start_spec(s: Seq<char>) -> Seq<char>
    decreases s.len(),
{
    if s.len() > 0 && is_ws(s[0]) {
        trim_start_spec(s.drop_first())
    } else {
        s
    }
}

/// `s` without its trailing whitespace.
pub open spec fn trim_end_spec(s: Seq<char>) -> Seq<char>
    decreases s.len(),
{
    if s.len() > 0 && is_ws(s.last()) {
        trim_end_spec(s.drop_last())
    } else {
        s
    }
}

/// `s` without its leading and trailing whitespace.
pub open spec fn trim_spec(s: Seq<char>) -> Seq<char> {
    trim_start_spec(trim_end_spec(s))
}

proof fn lemma_trim_end_is(s: Seq<char>, hi: int)
    requires
        0 <= hi <= s.len(),
        forall|k: int| hi <= k < s.len() ==> is_ws(s[k]),
        hi > 0 ==> !is_ws(s[hi - 1]),
    ensures
        trim_end_spec(s) == s.take(hi),
    decreases s.len(),
{
    if s.len() > 0 && is_ws(s.last()) {
        assert(hi < s.len());
        lemma_trim_end_is(s.drop_last(), hi);
        assert(s.drop_last().take(hi) =~= s.take(hi));
    } else {
        assert(hi == s.len());
        assert(s.take(hi) =~= s);
    }
}

proof fn lemma_trim_start_is(s: Seq<char>, lo: int)
    requires
        0 <= lo <= s.len(),
        forall|k: int| 0 <= k < lo ==> is_ws(s[k]),
        lo < s.len() ==> !is_ws(s[lo]),
    ensures
        trim_start_spec(s) == s.skip(lo),
    decreases s.len(),
{
    if s.len() > 0 && is_ws(s[0]) {
        assert(lo > 0);
        lemma_trim_start_is(s.drop_first(), lo - 1);
        assert(s.drop_first().skip(lo - 1) =~= s.skip(lo));
    } else {
        assert(lo == 0);
        assert(s.skip(0) =~= s);
    }
}

/// Characterizes the trimmed line as a subrange of the untrimmed one.
pub proof fn lemma_trim_is(s: Seq<char>, lo: int, hi: int)
    requires
        0 <= lo <= hi <= s.len(),
        forall|k: int| 0 <= k < lo ==> is_ws(s[k]),
        forall|k: int| hi <= k < s.len() ==> is_ws(s[k]),
        lo < hi ==> !is_ws(s[lo]) && !is_ws(s[hi - 1]),
        lo == hi ==> lo == 0 && hi == 0,
    ensures
        trim_spec(s) == s.subrange(lo, hi),
{
    if lo == hi {
        lemma_trim_end_is(s, 0);
        lemma_trim_start_is(s.take(0), 0);
        assert(s.take(0).skip(0) =~= s.subrange(lo, hi));
    } else {
        lemma_trim_end_is(s, hi);
        lemma_trim_start_is(s.take(hi), lo);
        assert(s.take(hi).skip(lo) =~= s.subrange(lo, hi));
    }
}

/// A base-10 floating-point literal: one or more digits, optionally
/// followed by a dot and one or more digits.
pub open spec fn is_real_token(s: Seq<char>) -> bool {
    ||| (s.len() > 0 && (forall|k: int| 0 <= k < s.len() ==> is_digit(s[k])))
    ||| (exists|d: int|
        {
            &&& 0 < d < s.len() - 1
            &&& s[d] == '.'
            &&& forall|k: int| 0 <= k < d ==> is_digit(s[k])
            &&& forall|k: int| d < k < s.len() ==> is_digit(s[k])
        })
}

/// Scans for the first whitespace character at or after `from`.
pub fn find_ws(s: &str, from: usize) -> (r: usize)
    requires
        from <= s@.len(),
    ensures
        r == next_ws(s@, from as int),
        from <= r <= s@.len(),
{
    let n = s.unicode_len();
    let mut i = from;
    while i < n
        invariant
            from <= i <= n,
            n == s@.len(),
            forall|k: int| from <= k < i ==> !is_ws(s@[k]),
        decreases n - i,
    {
        if char_is_ws(s.get_char(i)) {
            proof {
                lemma_next_ws_is(s@, from as int, i as int);
            }
            return i;
        }
        i += 1;
    }
    proof {
        lemma_next_ws_is(s@, from as int, n as int);
    }
    i
}

/// Whether `c` counts as whitespace for the grammar.
pub fn char_is_ws(c: char) -> (b: bool)
    ensures
        b == is_ws(c),
{
    c == ' ' || c == '\t' || c == '\n' || c == '\r' || c == '\u{b}' || c == '\u{c}'
}

/// Whether `c` is a decimal digit.
pub fn char_is_digit(c: char) -> (b: bool)
    ensures
        b == is_digit(c),
{
    let u = c as u32;
    48 <= u && u <= 57
}

/// Whether `c` may appear in a signal name.
pub fn char_is_name(c: char) -> (b: bool)
    ensures
        b == is_name_char(c),
{
    let u = c as u32;
    (97 <= u && u <= 122) || (65 <= u && u <= 90) || (48 <= u && u <= 57) || c == '.'
}

/// Whether `c` is a four-valued logic digit.
pub fn char_is_scalar(c: char) -> (b: bool)
    ensures
        b == is_scalar_char(c),
{
    c == '0' || c == '1' || c == 'x' || c == 'X' || c == 'z' || c == 'Z'
}

} // verus!
