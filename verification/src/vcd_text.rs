//! The text of the emitted VCD stream, as specification-level character
//! sequences: one function per line or record kind, and the header and
//! body assembled from them.

use vstd::prelude::*;

use crate::registry::{index_of_name, RegistryEntry};
use crate::value_change::{ScalarValue, ValueModel, VcModel};

verus! {

/// A unit for the `$timescale` declaration.
#[derive(Clone, Copy, Debug, PartialEq, Eq, Structural)]
pub enum TimescaleUnit {
    S,
    MS,
    US,
    NS,
    PS,
    FS,
}

/// The decimal digit character for `d`.
pub open spec fn dec_digit_char(d: nat) -> char {
    if d == 0 {
        '0'
    } else if d == 1 {
        '1'
    } else if d == 2 {
        '2'
    } else if d == 3 {
        '3'
    } else if d == 4 {
        '4'
    } else if d == 5 {
        '5'
    } else if d == 6 {
        '6'
    } else if d == 7 {
        '7'
    } else if d == 8 {
        '8'
    } else {
        '9'
    }
}

/// The decimal text of `n`, without leading zeros.
pub open spec fn dec_chars(n: nat) -> Seq<char>
    decreases n,
{
    if n < 10 {
        seq![dec_digit_char(n)]
    } else {
        dec_chars(n / 10) + seq![dec_digit_char(n % 10)]
    }
}

/// The single-character wire identifier code for `id`: the printable
/// characters counted up from `!`.
pub open spec fn id_chars(id: nat) -> Seq<char>
    recommends
        id < 94,
{
    seq![(((33 + id) as u8) as char)]
}

/// The text of a timescale unit.
pub open spec fn unit_chars(u: TimescaleUnit) -> Seq<char> {
    match u {
        TimescaleUnit::S => "s"@,
        TimescaleUnit::MS => "ms"@,
        TimescaleUnit::US => "us"@,
        TimescaleUnit::NS => "ns"@,
        TimescaleUnit::PS => "ps"@,
        TimescaleUnit::FS => "fs"@,
    }
}

/// The character a logic digit is written as: `x` and `z` lowercased.
pub open spec fn scalar_char(v: ScalarValue) -> char {
    match v {
        ScalarValue::V0 => '0',
        ScalarValue::V1 => '1',
        ScalarValue::X => 'x',
        ScalarValue::Z => 'z',
    }
}

/// The text of a wire type.
pub open spec fn kind_chars(k: crate::registry::VarKind) -> Seq<char> {
    match k {
        crate::registry::VarKind::Wire => "wire"@,
        crate::registry::VarKind::Integer => "integer"@,
        crate::registry::VarKind::Real => "real"@,
    }
}

/// The `$timescale` line.
pub open spec fn timescale_line(step: nat, u: TimescaleUnit) -> Seq<char> {
    "$timescale "@ + dec_chars(step) + " "@ + unit_chars(u) + " $end\n"@
}

/// The `$scope` line opening a module scope.
pub open spec fn scope_line(name: Seq<char>) -> Seq<char> {
    "$scope module "@ + name + " $end\n"@
}

/// One `$var` declaration line.
pub open spec fn var_line(k: crate::registry::VarKind, width: nat, id: nat, name: Seq<char>) -> Seq<
    char,
> {
    "$var "@ + kind_chars(k) + " "@ + dec_chars(width) + " "@ + id_chars(id) + " "@ + name
        + " $end\n"@
}

/// A `#<timestamp>` marker line.
pub open spec fn ts_line(t: nat) -> Seq<char> {
    "#"@ + dec_chars(t) + "\n"@
}

/// A single-bit change record: the digit, then the identifier.
pub open spec fn scalar_record(v: ScalarValue, id: nat) -> Seq<char> {
    seq![scalar_char(v)] + id_chars(id) + "\n"@
}

/// A vector change record: `b`, the digits actually parsed, a space and
/// the identifier. A short vector is left to the reader's left-padding.
pub open spec fn vector_record(bits: Seq<ScalarValue>, id: nat) -> Seq<char> {
    "b"@ + bits.map(|i: int, b: ScalarValue| scalar_char(b)) + " "@ + id_chars(id) + "\n"@
}

/// A real change record: `r`, the literal as parsed, a space and the
/// identifier.
pub open spec fn real_record(tok: Seq<char>, id: nat) -> Seq<char> {
    "r"@ + tok + " "@ + id_chars(id) + "\n"@
}

/// The change record for one event value.
pub open spec fn record_chars(v: ValueModel, id: nat) -> Seq<char> {
    match v {
        ValueModel::Scalar(sv) => scalar_record(sv, id),
        ValueModel::Vector { bits, .. } => vector_record(bits, id),
        ValueModel::Real(tok) => real_record(tok, id),
    }
}

/// The variable declarations, one per registry entry in registry order;
/// a width beyond 32 bits of range is truncated as the declaration's
/// 32-bit field demands.
pub open spec fn vars_chars(reg: Seq<(Seq<char>, RegistryEntry)>) -> Seq<char>
    decreases reg.len(),
{
    if reg.len() == 0 {
        Seq::<char>::empty()
    } else {
        vars_chars(reg.drop_last()) + var_line(
            reg.last().1.kind,
            (reg.last().1.width as u32) as nat,
            reg.last().1.id as nat,
            reg.last().0,
        )
    }
}

/// The whole header: the timescale, one flat `outputs` scope holding
/// every declaration, the definitions terminator, and the initial `#0`
/// marker with no initial value records.
pub open spec fn header_chars(step: nat, u: TimescaleUnit, reg: Seq<(Seq<char>, RegistryEntry)>) -> Seq<
    char,
> {
    timescale_line(step, u) + scope_line("outputs"@) + vars_chars(reg) + "$upscope $end\n"@
        + "$enddefinitions $end\n"@ + ts_line(0)
}

/// The body for the events in sequence order: a marker whenever an
/// event's timestamp differs from the previously emitted one (`last`),
/// then the event's change record under its registered identifier.
pub open spec fn body_chars(
    s: Seq<VcModel>,
    reg: Seq<(Seq<char>, RegistryEntry)>,
    last: u64,
) -> Seq<char>
    decreases s.len(),
{
    if s.len() == 0 {
        Seq::<char>::empty()
    } else {
        (if s[0].timestamp != last {
            ts_line(s[0].timestamp as nat)
        } else {
            Seq::<char>::empty()
        }) + record_chars(s[0].value, reg[index_of_name(reg, s[0].name)].1.id as nat)
            + body_chars(s.drop_first(), reg, s[0].timestamp)
    }
}

/// Splitting the event sequence splits its body text, the second part
/// starting from the first part's final timestamp.
pub proof fn lemma_body_chars_concat(
    a: Seq<VcModel>,
    b: Seq<VcModel>,
    reg: Seq<(Seq<char>, RegistryEntry)>,
    last: u64,
)
    ensures
        body_chars(a + b, reg, last) == body_chars(a, reg, last) + body_chars(
            b,
            reg,
            if a.len() == 0 {
                last
            } else {
                a.last().timestamp
            },
        ),
    decreases a.len(),
{
    if a.len() == 0 {
        assert(a + b =~= b);
        assert(body_chars(a, reg, last) + body_chars(b, reg, last) =~= body_chars(b, reg, last));
    } else {
        assert((a + b).drop_first() =~= a.drop_first() + b);
        assert((a + b)[0] == a[0]);
        assert((a + b).len() > 0);
        lemma_body_chars_concat(a.drop_first(), b, reg, a[0].timestamp);
        if a.len() == 1 {
            assert(a.drop_first().len() == 0);
            assert(a.last() == a[0]);
        } else {
            assert(a.drop_first().last() == a.last());
        }
        let m = (if a[0].timestamp != last {
            ts_line(a[0].timestamp as nat)
        } else {
            Seq::<char>::empty()
        }) + record_chars(a[0].value, reg[index_of_name(reg, a[0].name)].1.id as nat);
        assert(body_chars(a + b, reg, last) == m + (body_chars(a.drop_first(), reg, a[0].timestamp)
            + body_chars(
            b,
            reg,
            if a.drop_first().len() == 0 {
                a[0].timestamp
            } else {
                a.drop_first().last().timestamp
            },
        )));
        assert(m + (body_chars(a.drop_first(), reg, a[0].timestamp) + body_chars(
            b,
            reg,
            a.last().timestamp,
        )) =~= (m + body_chars(a.drop_first(), reg, a[0].timestamp)) + body_chars(
            b,
            reg,
            a.last().timestamp,
        ));
    }
}

/// Everything one run emits: the header, then the body started from the
/// initial `#0` marker's timestamp.
pub open spec fn output_chars(
    step: nat,
    u: TimescaleUnit,
    reg: Seq<(Seq<char>, RegistryEntry)>,
    s: Seq<VcModel>,
) -> Seq<char> {
    header_chars(step, u, reg) + body_chars(s, reg, 0)
}

} // verus!
