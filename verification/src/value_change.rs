//! Typed value-change events and the log-line grammar parser.
//!
//! Log syntax, after trimming surrounding whitespace:
//!
//! ```text
//! #<timestamp> <signal_name> <value-token> <size-token>
//! ```
//!
//! `timestamp` is a decimal integer in `[0, 2^64)`; `signal_name` is one or
//! more characters from `[a-zA-Z0-9.]`; the `size-token` is either the
//! literal `f`, marking the value token as a base-10 floating-point literal,
//! or a decimal bit width: width 1 demands a single four-valued logic digit,
//! any other width a string of at most that many logic digits.

use vstd::prelude::*;

use crate::scan::{
    all_digits, all_name_chars, all_scalar_chars, char_is_digit, char_is_name, char_is_scalar,
    char_is_ws, digit_val, digits_val, find_ws, is_digit, is_name_char, is_real_token,
    is_scalar_char, is_ws, lemma_digits_val_prefix, lemma_trim_is, next_ws,
    trim_spec,
};

verus! {

/// A four-valued logic digit: driven 0, driven 1, unknown, high impedance.
#[derive(Clone, Copy, Debug, PartialEq, Eq, Structural)]
pub enum ScalarValue {
    V0,
    V1,
    X,
    Z,
}

/// The payload of a value change: a single logic digit, a vector of logic
/// digits with a declared bit width, or a real number carried as the text
/// of its base-10 literal.
///
/// For `BinaryVector`, `value.len() <= width` always holds: fewer digits
/// than the width is legal, excess digits are rejected at parse time.
#[derive(Clone, Debug, PartialEq)]
pub enum Value {
    Scalar(ScalarValue),
    BinaryVector { width: usize, value: Vec<ScalarValue> },
    Real(String),
}

/// One parsed log line: a signal changed to `value` at `timestamp`.
#[derive(Clone, Debug, PartialEq)]
pub struct ValueChange {
    pub timestamp: u64,
    pub signal_name: String,
    pub value: Value,
}

/// Why a log line was rejected.
#[derive(Clone, Copy, Debug, PartialEq, Eq, Structural)]
pub enum ParseValueChangeError {
    InvalidFormat,
    ParseTimestampErr,
    InvalidValueType,
    InvalidValue,
    ValueTooLargeForVecWidth,
}

/// Mathematical model of a `Value`.
#[verifier::ext_equal]
pub enum ValueModel {
    Scalar(ScalarValue),
    Vector { width: usize, bits: Seq<ScalarValue> },
    Real(Seq<char>),
}

/// Mathematical model of a `ValueChange`.
#[verifier::ext_equal]
pub struct VcModel {
    pub timestamp: u64,
    pub name: Seq<char>,
    pub value: ValueModel,
}

impl View for Value {
    type V = ValueModel;

    open spec fn view(&self) -> ValueModel {
        match self {
            Value::Scalar(v) => ValueModel::Scalar(*v),
            Value::BinaryVector { width, value } => ValueModel::Vector {
                width: *width,
                bits: value@,
            },
            Value::Real(t) => ValueModel::Real(t@),
        }
    }
}

impl View for ValueChange {
    type V = VcModel;

    open spec fn view(&self) -> VcModel {
        VcModel { timestamp: self.timestamp, name: self.signal_name@, value: self.value@ }
    }
}

/// The logic digit denoted by a value-token character.
pub open spec fn scalar_of(c: char) -> ScalarValue
    recommends
        is_scalar_char(c),
{
    if c == '0' {
        ScalarValue::V0
    } else if c == '1' {
        ScalarValue::V1
    } else if c == 'x' || c == 'X' {
        ScalarValue::X
    } else {
        ScalarValue::Z
    }
}

/// Interprets the value token `val_f` under the size token `size_f`,
/// after the line's overall shape and timestamp have been accepted.
pub open spec fn parse_value_spec(ts: u64, name: Seq<char>, val_f: Seq<char>, size_f: Seq<char>) -> Result<
    VcModel,
    ParseValueChangeError,
> {
    if size_f.len() == 1 && size_f[0] == 'f' {
        if is_real_token(val_f) {
            Ok(VcModel { timestamp: ts, name, value: ValueModel::Real(val_f) })
        } else {
            Err(ParseValueChangeError::InvalidValue)
        }
    } else if !all_digits(size_f) || digits_val(size_f) > (usize::MAX as nat) {
        Err(ParseValueChangeError::InvalidValueType)
    } else if digits_val(size_f) == 1 {
        if val_f.len() == 1 && is_scalar_char(val_f[0]) {
            Ok(VcModel { timestamp: ts, name, value: ValueModel::Scalar(scalar_of(val_f[0])) })
        } else {
            Err(ParseValueChangeError::InvalidValue)
        }
    } else if !all_scalar_chars(val_f) {
        Err(ParseValueChangeError::InvalidValue)
    } else if val_f.len() > digits_val(size_f) {
        Err(ParseValueChangeError::ValueTooLargeForVecWidth)
    } else {
        Ok(
            VcModel {
                timestamp: ts,
                name,
                value: ValueModel::Vector {
                    width: digits_val(size_f) as usize,
                    bits: val_f.map(|i: int, c: char| scalar_of(c)),
                },
            },
        )
    }
}

/// Parses an already-trimmed line: `#` then four whitespace-separated
/// fields make the shape; the timestamp must be digits that fit in 64
/// bits; the value token is interpreted under the size token.
pub open spec fn parse_fields_spec(t: Seq<char>) -> Result<VcModel, ParseValueChangeError> {
    if t.len() == 0 || t[0] != '#' {
        Err(ParseValueChangeError::InvalidFormat)
    } else {
        let a1 = next_ws(t, 1);
        if a1 == 1 || a1 == t.len() {
            Err(ParseValueChangeError::InvalidFormat)
        } else {
            let a2 = next_ws(t, a1 + 1);
            if a2 == a1 + 1 || a2 == t.len() {
                Err(ParseValueChangeError::InvalidFormat)
            } else {
                let a3 = next_ws(t, a2 + 1);
                if a3 == a2 + 1 || a3 == t.len() {
                    Err(ParseValueChangeError::InvalidFormat)
                } else {
                    let a4 = next_ws(t, a3 + 1);
                    if a4 == a3 + 1 || a4 != t.len() {
                        Err(ParseValueChangeError::InvalidFormat)
                    } else {
                        let ts_f = t.subrange(1, a1);
                        let name_f = t.subrange(a1 + 1, a2);
                        let val_f = t.subrange(a2 + 1, a3);
                        let size_f = t.subrange(a3 + 1, a4);
                        if !all_digits(ts_f) || !all_name_chars(name_f) {
                            Err(ParseValueChangeError::InvalidFormat)
                        } else if digits_val(ts_f) > (u64::MAX as nat) {
                            Err(ParseValueChangeError::ParseTimestampErr)
                        } else {
                            parse_value_spec(digits_val(ts_f) as u64, name_f, val_f, size_f)
                        }
                    }
                }
            }
        }
    }
}

/// What parsing a raw log line yields: the line is trimmed, then read
/// against the grammar.
pub open spec fn parse_spec(s: Seq<char>) -> Result<VcModel, ParseValueChangeError> {
    parse_fields_spec(trim_spec(s))
}

/// The logic digit denoted by `c`.
fn scalar_value_of(c: char) -> (v: ScalarValue)
    requires
        is_scalar_char(c),
    ensures
        v == scalar_of(c),
{
    if c == '0' {
        ScalarValue::V0
    } else if c == '1' {
        ScalarValue::V1
    } else if c == 'x' || c == 'X' {
        ScalarValue::X
    } else {
        ScalarValue::Z
    }
}

/// Whether the characters of `t` in `[lo, hi)` are all decimal digits.
fn check_digits(t: &str, lo: usize, hi: usize) -> (b: bool)
    requires
        lo <= hi <= t@.len(),
    ensures
        b == all_digits(t@.subrange(lo as int, hi as int)),
{
    let ghost f = t@.subrange(lo as int, hi as int);
    let mut i = lo;
    while i < hi
        invariant
            lo <= i <= hi <= t@.len(),
            f == t@.subrange(lo as int, hi as int),
            forall|k: int| lo <= k < i ==> is_digit(t@[k]),
        decreases hi - i,
    {
        if !char_is_digit(t.get_char(i)) {
            assert(f[i - lo] == t@[i as int]);
            return false;
        }
        i += 1;
    }
    assert(forall|m: int| 0 <= m < f.len() ==> f[m] == t@[lo + m]);
    true
}

/// Whether the characters of `t` in `[lo, hi)` may all appear in a name.
fn check_names(t: &str, lo: usize, hi: usize) -> (b: bool)
    requires
        lo <= hi <= t@.len(),
    ensures
        b == all_name_chars(t@.subrange(lo as int, hi as int)),
{
    let ghost f = t@.subrange(lo as int, hi as int);
    let mut i = lo;
    while i < hi
        invariant
            lo <= i <= hi <= t@.len(),
            f == t@.subrange(lo as int, hi as int),
            forall|k: int| lo <= k < i ==> is_name_char(t@[k]),
        decreases hi - i,
    {
        if !char_is_name(t.get_char(i)) {
            assert(f[i - lo] == t@[i as int]);
            return false;
        }
        i += 1;
    }
    assert(forall|m: int| 0 <= m < f.len() ==> f[m] == t@[lo + m]);
    true
}

/// Reads the digits of `t` in `[lo, hi)` as a 64-bit integer; `None` means
/// the value does not fit.
fn parse_u64_digits(t: &str, lo: usize, hi: usize) -> (r: Option<u64>)
    requires
        lo <= hi <= t@.len(),
        all_digits(t@.subrange(lo as int, hi as int)),
    ensures
        ({
            let f = t@.subrange(lo as int, hi as int);
            match r {
                Some(v) => digits_val(f) <= u64::MAX as nat && v == digits_val(f),
                None => digits_val(f) > u64::MAX as nat,
            }
        }),
{
    let ghost f = t@.subrange(lo as int, hi as int);
    let mut acc: u64 = 0;
    let mut i = lo;
    while i < hi
        invariant
            lo <= i <= hi <= t@.len(),
            f == t@.subrange(lo as int, hi as int),
            all_digits(f),
            acc == digits_val(f.take(i - lo)),
        decreases hi - i,
    {
        let c = t.get_char(i);
        assert(f[i - lo] == t@[i as int]);
        let d: u64 = (c as u32 - 48) as u64;
        assert(d == digit_val(f[i - lo]));
        proof {
            assert(f.take(i - lo + 1).drop_last() =~= f.take(i - lo));
            assert(f.take(i - lo + 1).last() == f[i - lo]);
        }
        let m = match acc.checked_mul(10) {
            Some(m) => m,
            None => {
                proof {
                    lemma_digits_val_prefix(f, i - lo + 1);
                }
                return None;
            },
        };
        let s = match m.checked_add(d) {
            Some(s) => s,
            None => {
                proof {
                    lemma_digits_val_prefix(f, i - lo + 1);
                }
                return None;
            },
        };
        acc = s;
        i += 1;
    }
    proof {
        assert(f.take(hi - lo) =~= f);
    }
    Some(acc)
}

/// Reads the digits of `t` in `[lo, hi)` as a `usize`; `None` means the
/// value does not fit.
fn parse_usize_digits(t: &str, lo: usize, hi: usize) -> (r: Option<usize>)
    requires
        lo <= hi <= t@.len(),
        all_digits(t@.subrange(lo as int, hi as int)),
    ensures
        ({
            let f = t@.subrange(lo as int, hi as int);
            match r {
                Some(v) => digits_val(f) <= usize::MAX as nat && v == digits_val(f),
                None => digits_val(f) > usize::MAX as nat,
            }
        }),
{
    let ghost f = t@.subrange(lo as int, hi as int);
    let mut acc: usize = 0;
    let mut i = lo;
    while i < hi
        invariant
            lo <= i <= hi <= t@.len(),
            f == t@.subrange(lo as int, hi as int),
            all_digits(f),
            acc == digits_val(f.take(i - lo)),
        decreases hi - i,
    {
        let c = t.get_char(i);
        assert(f[i - lo] == t@[i as int]);
        let d: usize = (c as u32 - 48) as usize;
        assert(d == digit_val(f[i - lo]));
        proof {
            assert(f.take(i - lo + 1).drop_last() =~= f.take(i - lo));
            assert(f.take(i - lo + 1).last() == f[i - lo]);
        }
        let m = match acc.checked_mul(10) {
            Some(m) => m,
            None => {
                proof {
                    lemma_digits_val_prefix(f, i - lo + 1);
                }
                return None;
            },
        };
        let s = match m.checked_add(d) {
            Some(s) => s,
            None => {
                proof {
                    lemma_digits_val_prefix(f, i - lo + 1);
                }
                return None;
            },
        };
        acc = s;
        i += 1;
    }
    proof {
        assert(f.take(hi - lo) =~= f);
    }
    Some(acc)
}

/// Reads the characters of `t` in `[lo, hi)` as logic digits; `None` means
/// one of them is no logic digit.
fn parse_bits(t: &str, lo: usize, hi: usize) -> (r: Option<Vec<ScalarValue>>)
    requires
        lo <= hi <= t@.len(),
    ensures
        ({
            let f = t@.subrange(lo as int, hi as int);
            match r {
                Some(v) => all_scalar_chars(f) && v@ == f.map(|i: int, c: char| scalar_of(c)),
                None => !all_scalar_chars(f),
            }
        }),
{
    let ghost f = t@.subrange(lo as int, hi as int);
    let mut v: Vec<ScalarValue> = Vec::new();
    let mut i = lo;
    while i < hi
        invariant
            lo <= i <= hi <= t@.len(),
            f == t@.subrange(lo as int, hi as int),
            forall|k: int| lo <= k < i ==> is_scalar_char(t@[k]),
            v@ == f.take(i - lo).map(|j: int, c: char| scalar_of(c)),
        decreases hi - i,
    {
        let c = t.get_char(i);
        assert(f[i - lo] == t@[i as int]);
        if !char_is_scalar(c) {
            return None;
        }
        v.push(scalar_value_of(c));
        proof {
            assert(f.take(i - lo + 1).map(|j: int, c: char| scalar_of(c)) =~= f.take(
                i - lo,
            ).map(|j: int, c: char| scalar_of(c)).push(scalar_of(f[i - lo])));
        }
        i += 1;
    }
    proof {
        assert(forall|m: int| 0 <= m < f.len() ==> f[m] == t@[lo + m]);
        assert(f.take(hi - lo) =~= f);
    }
    Some(v)
}

/// Whether the characters of `t` in `[lo, hi)` form a base-10
/// floating-point literal.
fn check_real(t: &str, lo: usize, hi: usize) -> (b: bool)
    requires
        lo <= hi <= t@.len(),
    ensures
        b == is_real_token(t@.subrange(lo as int, hi as int)),
{
    let ghost f = t@.subrange(lo as int, hi as int);
    proof {
        assert(forall|m: int| 0 <= m < f.len() ==> f[m] == t@[lo + m]);
    }
    if lo == hi {
        return false;
    }
    let mut i = lo;
    while i < hi && char_is_digit(t.get_char(i))
        invariant
            lo <= i <= hi <= t@.len(),
            forall|k: int| lo <= k < i ==> is_digit(t@[k]),
        decreases hi - i,
    {
        i += 1;
    }
    if i == lo {
        // the token starts with something that is no digit
        assert(!is_digit(f[0]));
        return false;
    }
    assert(forall|m: int| 0 <= m < i - lo ==> is_digit(f[m]));
    if i == hi {
        // all digits
        assert(forall|m: int| 0 <= m < f.len() ==> is_digit(f[m]));
        return true;
    }
    assert(f[i - lo] == t@[i as int]);
    if t.get_char(i) != '.' {
        assert(!is_digit(f[i - lo]));
        assert(f[i - lo] != '.');
        return false;
    }
    assert(f[i - lo] == '.');
    assert(!is_digit(f[i - lo]));
    if i + 1 == hi {
        // a dot with nothing after it
        return false;
    }
    let mut j = i + 1;
    while j < hi && char_is_digit(t.get_char(j))
        invariant
            i + 1 <= j <= hi <= t@.len(),
            forall|k: int| i + 1 <= k < j ==> is_digit(t@[k]),
        decreases hi - j,
    {
        j += 1;
    }
    if j == hi {
        proof {
            let d = i - lo;
            assert(0 < d < f.len() - 1);
            assert(f[d] == '.');
            assert(forall|k: int| 0 <= k < d ==> is_digit(f[k]));
            assert(forall|k: int| d < k < f.len() ==> is_digit(f[k]));
        }
        return true;
    }
    assert(forall|m: int| 0 <= m < j - lo && m != i - lo ==> is_digit(f[m]));
    assert(f[j - lo] == t@[j as int]);
    assert(!is_digit(f[j - lo]));
    false
}

impl ScalarValue {
    /// Parses a one-character scalar token: `0`, `1`, `x`, `X`, `z` or `Z`.
    pub fn from_str(s: &str) -> (r: Result<ScalarValue, ()>)
        ensures
            ({
                if s@.len() == 1 && is_scalar_char(s@[0]) {
                    r == Ok::<ScalarValue, ()>(scalar_of(s@[0]))
                } else {
                    r == Err::<ScalarValue, ()>(())
                }
            }),
    {
        let n = s.unicode_len();
        if n != 1 {
            return Err(());
        }
        let c = s.get_char(0);
        if char_is_scalar(c) {
            Ok(scalar_value_of(c))
        } else {
            Err(())
        }
    }
}

/// Parses an already-trimmed line against the grammar.
fn parse_fields_exec(t: &str) -> (r: Result<ValueChange, ParseValueChangeError>)
    ensures
        ({
            let sr = parse_fields_spec(t@);
            match r {
                Ok(vc) => sr matches Ok(m) && vc@ == m,
                Err(e) => sr matches Err(e2) && e == e2,
            }
        }),
{
    let n = t.unicode_len();
    if n == 0 {
        return Err(ParseValueChangeError::InvalidFormat);
    }
    if t.get_char(0) != '#' {
        return Err(ParseValueChangeError::InvalidFormat);
    }
    let a1 = find_ws(t, 1);
    if a1 == 1 || a1 == n {
        return Err(ParseValueChangeError::InvalidFormat);
    }
    let a2 = find_ws(t, a1 + 1);
    if a2 == a1 + 1 || a2 == n {
        return Err(ParseValueChangeError::InvalidFormat);
    }
    let a3 = find_ws(t, a2 + 1);
    if a3 == a2 + 1 || a3 == n {
        return Err(ParseValueChangeError::InvalidFormat);
    }
    let a4 = find_ws(t, a3 + 1);
    if a4 == a3 + 1 || a4 != n {
        return Err(ParseValueChangeError::InvalidFormat);
    }
    let ghost ts_f = t@.subrange(1, a1 as int);
    let ghost name_f = t@.subrange(a1 + 1, a2 as int);
    let ghost val_f = t@.subrange(a2 + 1, a3 as int);
    let ghost size_f = t@.subrange(a3 + 1, a4 as int);
    if !check_digits(t, 1, a1) {
        return Err(ParseValueChangeError::InvalidFormat);
    }
    if !check_names(t, a1 + 1, a2) {
        return Err(ParseValueChangeError::InvalidFormat);
    }
    let ts = match parse_u64_digits(t, 1, a1) {
        Some(v) => v,
        None => {
            return Err(ParseValueChangeError::ParseTimestampErr);
        },
    };
    let name = t.substring_char(a1 + 1, a2).to_owned();
    if a4 - a3 == 2 && t.get_char(a3 + 1) == 'f' {
        assert(size_f.len() == 1 && size_f[0] == 'f');
        if check_real(t, a2 + 1, a3) {
            let tok = t.substring_char(a2 + 1, a3).to_owned();
            let vc = ValueChange { timestamp: ts, signal_name: name, value: Value::Real(tok) };
            assert(vc@ =~~= parse_fields_spec(t@)->Ok_0);
            return Ok(vc);
        } else {
            return Err(ParseValueChangeError::InvalidValue);
        }
    }
    assert(!(size_f.len() == 1 && size_f[0] == 'f'));
    if !check_digits(t, a3 + 1, a4) {
        return Err(ParseValueChangeError::InvalidValueType);
    }
    let width = match parse_usize_digits(t, a3 + 1, a4) {
        Some(v) => v,
        None => {
            return Err(ParseValueChangeError::InvalidValueType);
        },
    };
    if width == 1 {
        if a3 - a2 == 2 {
            let c = t.get_char(a2 + 1);
            assert(val_f.len() == 1 && val_f[0] == c);
            if char_is_scalar(c) {
                let vc = ValueChange {
                    timestamp: ts,
                    signal_name: name,
                    value: Value::Scalar(scalar_value_of(c)),
                };
                assert(vc@ =~~= parse_fields_spec(t@)->Ok_0);
                return Ok(vc);
            }
        }
        return Err(ParseValueChangeError::InvalidValue);
    }
    match parse_bits(t, a2 + 1, a3) {
        None => Err(ParseValueChangeError::InvalidValue),
        Some(bits) => {
            if bits.len() > width {
                Err(ParseValueChangeError::ValueTooLargeForVecWidth)
            } else {
                let vc = ValueChange {
                    timestamp: ts,
                    signal_name: name,
                    value: Value::BinaryVector { width, value: bits },
                };
                assert(vc@ =~~= parse_fields_spec(t@)->Ok_0);
                Ok(vc)
            }
        },
    }
}

impl ValueChange {
    /// Parses one log line into a value change, or reports why the line
    /// is rejected.
    pub fn from_str(s: &str) -> (r: Result<ValueChange, ParseValueChangeError>)
        ensures
            ({
                let sr = parse_spec(s@);
                match r {
                    Ok(vc) => sr matches Ok(m) && vc@ == m,
                    Err(e) => sr matches Err(e2) && e == e2,
                }
            }),
    {
        let n = s.unicode_len();
        let mut lo: usize = 0;
        while lo < n && char_is_ws(s.get_char(lo))
            invariant
                0 <= lo <= n,
                n == s@.len(),
                forall|k: int| 0 <= k < lo ==> is_ws(s@[k]),
            decreases n - lo,
        {
            lo += 1;
        }
        if lo == n {
            proof {
                lemma_trim_is(s@, 0, 0);
            }
            return Err(ParseValueChangeError::InvalidFormat);
        }
        let mut hi: usize = n;
        while hi > lo && char_is_ws(s.get_char(hi - 1))
            invariant
                lo <= hi <= n,
                n == s@.len(),
                !is_ws(s@[lo as int]),
                forall|k: int| hi <= k < n ==> is_ws(s@[k]),
            decreases hi,
        {
            hi -= 1;
        }
        assert(hi > lo);
        proof {
            lemma_trim_is(s@, lo as int, hi as int);
        }
        let t = s.substring_char(lo, hi);
        parse_fields_exec(t)
    }
}

} // verus!
