//! Decoding of emitted change records, and the round-trip law: the
//! record written for a value reads back as that value.

use vstd::prelude::*;

use crate::scan::{is_digit, is_real_token, is_scalar_char, is_ws, lemma_next_ws_is, next_ws};
use crate::value_change::{scalar_of, ScalarValue, ValueModel};
use crate::vcd_text::{record_chars, scalar_char};

verus! {

/// Whether `c` can be a single-character wire identifier code.
pub open spec fn is_id_char(c: char) -> bool {
    33 <= (c as u32) && (c as u32) <= 126
}

/// The identifier a code character denotes.
pub open spec fn id_of_char(c: char) -> nat {
    ((c as u32) - 33) as nat
}

/// What decoding one emitted change-record line yields: the value the
/// record carries and the identifier it names. A scalar record is a
/// logic digit and the code; a vector record shows its digits between
/// `b` and a space; a real record shows its literal between `r` and a
/// space. A vector record yields the digits it shows, with their count
/// as the width.
pub open spec fn decode_record_spec(s: Seq<char>) -> Option<(ValueModel, nat)> {
    if s.len() == 3 && is_scalar_char(s[0]) && is_id_char(s[1]) && s[2] == '\n' {
        Some((ValueModel::Scalar(scalar_of(s[0])), id_of_char(s[1])))
    } else if s.len() > 0 && s[0] == 'b' {
        let k = next_ws(s, 1);
        if 1 < k && k + 3 == s.len() && s[k] == ' ' && is_id_char(s[k + 1]) && s[k + 2] == '\n'
            && (forall|m: int| 1 <= m < k ==> is_scalar_char(s[m])) {
            Some(
                (
                    ValueModel::Vector {
                        width: (k - 1) as usize,
                        bits: s.subrange(1, k).map(|i: int, c: char| scalar_of(c)),
                    },
                    id_of_char(s[k + 1]),
                ),
            )
        } else {
            None
        }
    } else if s.len() > 0 && s[0] == 'r' {
        let k = next_ws(s, 1);
        if 1 < k && k + 3 == s.len() && s[k] == ' ' && is_id_char(s[k + 1]) && s[k + 2] == '\n'
            && is_real_token(s.subrange(1, k)) {
            Some((ValueModel::Real(s.subrange(1, k)), id_of_char(s[k + 1])))
        } else {
            None
        }
    } else {
        None
    }
}

/// What of a value its record preserves: scalars and reals exactly; a
/// vector keeps its digits, their count standing as the width, since a
/// short vector's record does not carry the declared width.
pub open spec fn shown_model(v: ValueModel) -> ValueModel {
    match v {
        ValueModel::Scalar(sv) => ValueModel::Scalar(sv),
        ValueModel::Vector { bits, .. } => ValueModel::Vector {
            width: bits.len() as usize,
            bits,
        },
        ValueModel::Real(tok) => ValueModel::Real(tok),
    }
}

/// No character of a floating-point literal is whitespace.
proof fn lemma_real_token_no_ws(tok: Seq<char>)
    requires
        is_real_token(tok),
    ensures
        forall|m: int| 0 <= m < tok.len() ==> !is_ws(tok[m]),
{
    assert forall|m: int| 0 <= m < tok.len() implies !is_ws(tok[m]) by {
        if forall|k: int| 0 <= k < tok.len() ==> is_digit(tok[k]) {
            assert(is_digit(tok[m]));
        } else {
            let d = choose|d: int|
                {
                    &&& 0 < d < tok.len() - 1
                    &&& tok[d] == '.'
                    &&& forall|k: int| 0 <= k < d ==> is_digit(tok[k])
                    &&& forall|k: int| d < k < tok.len() ==> is_digit(tok[k])
                };
            assert(m == d || is_digit(tok[m]));
        }
    }
}

/// Decoding the record emitted for a value yields the value back: a
/// scalar and a real exactly, a vector as the digits it shows.
pub proof fn lemma_record_round_trip(v: ValueModel, id: nat)
    requires
        id < 94,
        v matches ValueModel::Vector { width, bits } ==> 0 < bits.len() <= usize::MAX,
        v matches ValueModel::Real(tok) ==> is_real_token(tok),
    ensures
        decode_record_spec(record_chars(v, id)) == Some((shown_model(v), id)),
{
    reveal_strlit("b");
    reveal_strlit("r");
    reveal_strlit(" ");
    reveal_strlit("\n");
    let idc = (((33 + id) as u8) as char);
    assert(idc as u32 == 33 + id);
    assert(is_id_char(idc) && id_of_char(idc) == id);
    let s = record_chars(v, id);
    match v {
        ValueModel::Scalar(sv) => {
            assert(s =~= seq![scalar_char(sv), idc, '\n']);
            assert(is_scalar_char(s[0]) && scalar_of(s[0]) == sv);
        },
        ValueModel::Vector { width, bits } => {
            let shown = bits.map(|i: int, b: ScalarValue| scalar_char(b));
            let k = 1 + bits.len() as int;
            assert(s.len() == k + 3);
            assert(s[0] == 'b');
            assert(!is_scalar_char('b') || s.len() != 3);
            assert(forall|m: int| 1 <= m < k ==> s[m] == shown[m - 1]);
            assert forall|m: int| 1 <= m < k implies !is_ws(s[m]) && is_scalar_char(s[m]) by {
                assert(s[m] == scalar_char(bits[m - 1]));
            }
            assert(s[k] == ' ' && is_ws(' '));
            lemma_next_ws_is(s, 1, k);
            assert(s[k + 1] == idc && s[k + 2] == '\n');
            let back = s.subrange(1, k).map(|i: int, c: char| scalar_of(c));
            assert forall|m: int| 0 <= m < bits.len() implies back[m] == bits[m] by {
                assert(s.subrange(1, k)[m] == scalar_char(bits[m]));
            }
            assert(back =~= bits);
            assert((k - 1) as usize == bits.len());
        },
        ValueModel::Real(tok) => {
            let k = 1 + tok.len() as int;
            assert(s.len() == k + 3);
            assert(s[0] == 'r');
            assert(tok.len() > 0);
            assert(forall|m: int| 1 <= m < k ==> s[m] == tok[m - 1]);
            lemma_real_token_no_ws(tok);
            assert forall|m: int| 1 <= m < k implies !is_ws(s[m]) by {
                assert(s[m] == tok[m - 1]);
            }
            assert(s[k] == ' ' && is_ws(' '));
            lemma_next_ws_is(s, 1, k);
            assert(s[k + 1] == idc && s[k + 2] == '\n');
            assert(s.subrange(1, k) =~= tok);
            assert(!is_scalar_char('r'));
            assert('r' != 'b');
        },
    }
}

} // verus!
