//! Trusted wrappers around the `vcd` crate's `Writer`, which does the
//! byte-level formatting of the output stream. Every wrapper writes into
//! an in-memory `Vec<u8>` sink, and writing into a `Vec<u8>` cannot fail,
//! so the wrapped calls never return an error.

use std::io::Write;
use vstd::prelude::*;

use crate::registry::VarKind;
use crate::value_change::ScalarValue;
use crate::vcd_text::{
    real_record, scalar_record, scope_line, timescale_line, ts_line, var_line, vector_record,
    TimescaleUnit,
};

verus! {

/// The output sink: a `vcd::Writer` over an in-memory byte buffer. The
/// writer type itself is hidden from verification; the two functions
/// below name what the contracts need of it.
#[verifier::external_body]
pub struct VcdSink {
    w: vcd::Writer<Vec<u8>>,
}

/// The text so far written into the sink's buffer.
pub uninterp spec fn emitted(w: VcdSink) -> Seq<char>;

/// How many `$scope` blocks stand open: `vcd::Writer` debug-asserts the
/// balance of `$scope`, `$var`, `$upscope` and `$enddefinitions`.
pub uninterp spec fn open_scopes(w: VcdSink) -> nat;

/// Relies on vcd::Writer::new: wraps the empty sink; nothing is written
/// and no scope stands open.
#[verifier::external_body]
pub(crate) fn new_writer() -> (w: VcdSink)
    ensures
        emitted(w) == Seq::<char>::empty(),
        open_scopes(w) == 0,
{
    VcdSink { w: vcd::Writer::new(Vec::new()) }
}

/// Relies on vcd::Writer::timescale: writes `$timescale <step> <unit> $end`
/// with the step in decimal and the unit's lowercase name.
#[verifier::external_body]
pub(crate) fn write_timescale(w: &mut VcdSink, step: u32, unit: TimescaleUnit)
    ensures
        emitted(*final(w)) == emitted(*old(w)) + timescale_line(step as nat, unit),
        open_scopes(*final(w)) == open_scopes(*old(w)),
{
    let u = match unit {
        TimescaleUnit::S => vcd::TimescaleUnit::S,
        TimescaleUnit::MS => vcd::TimescaleUnit::MS,
        TimescaleUnit::US => vcd::TimescaleUnit::US,
        TimescaleUnit::NS => vcd::TimescaleUnit::NS,
        TimescaleUnit::PS => vcd::TimescaleUnit::PS,
        TimescaleUnit::FS => vcd::TimescaleUnit::FS,
    };
    w.w.timescale(step, u).unwrap();
}

/// Relies on vcd::Writer::add_module: writes `$scope module <name> $end`
/// and opens a scope.
#[verifier::external_body]
pub(crate) fn write_scope_module(w: &mut VcdSink, name: &str)
    ensures
        emitted(*final(w)) == emitted(*old(w)) + scope_line(name@),
        open_scopes(*final(w)) == open_scopes(*old(w)) + 1,
{
    w.w.add_module(name).unwrap();
}

/// Relies on vcd::Writer::var_def: writes `$var <type> <width> <id> <name>
/// $end`; an identifier below 94 prints as its single code character. The
/// writer debug-asserts that a scope stands open.
#[verifier::external_body]
pub(crate) fn write_var(
    w: &mut VcdSink,
    kind: VarKind,
    width: u32,
    id: u32,
    name: &str,
)
    requires
        open_scopes(*old(w)) > 0,
        id < 94,
    ensures
        emitted(*final(w)) == emitted(*old(w)) + var_line(kind, width as nat, id as nat, name@),
        open_scopes(*final(w)) == open_scopes(*old(w)),
{
    let t = match kind {
        VarKind::Wire => vcd::VarType::Wire,
        VarKind::Integer => vcd::VarType::Integer,
        VarKind::Real => vcd::VarType::Real,
    };
    w.w.var_def(t, width, vcd::IdCode::from(id), name, None).unwrap();
}

/// Relies on vcd::Writer::upscope: writes `$upscope $end` and closes the
/// open scope the writer debug-asserts.
#[verifier::external_body]
pub(crate) fn write_upscope(w: &mut VcdSink)
    requires
        open_scopes(*old(w)) > 0,
    ensures
        emitted(*final(w)) == emitted(*old(w)) + "$upscope $end\n"@,
        open_scopes(*final(w)) == (open_scopes(*old(w)) - 1) as nat,
{
    w.w.upscope().unwrap();
}

/// Relies on vcd::Writer::enddefinitions: writes `$enddefinitions $end`;
/// the writer debug-asserts that every scope is closed.
#[verifier::external_body]
pub(crate) fn write_enddefinitions(w: &mut VcdSink)
    requires
        open_scopes(*old(w)) == 0,
    ensures
        emitted(*final(w)) == emitted(*old(w)) + "$enddefinitions $end\n"@,
        open_scopes(*final(w)) == open_scopes(*old(w)),
{
    w.w.enddefinitions().unwrap();
}

/// Relies on vcd::Writer::timestamp: writes `#<timestamp>` in decimal.
#[verifier::external_body]
pub(crate) fn write_timestamp(w: &mut VcdSink, ts: u64)
    ensures
        emitted(*final(w)) == emitted(*old(w)) + ts_line(ts as nat),
        open_scopes(*final(w)) == open_scopes(*old(w)),
{
    w.w.timestamp(ts).unwrap();
}

/// Relies on vcd::Writer::change_scalar: writes the digit (`x`, `z`
/// lowercased) followed by the identifier code.
#[verifier::external_body]
pub(crate) fn write_change_scalar(w: &mut VcdSink, id: u32, v: ScalarValue)
    requires
        id < 94,
    ensures
        emitted(*final(w)) == emitted(*old(w)) + scalar_record(v, id as nat),
        open_scopes(*final(w)) == open_scopes(*old(w)),
{
    let val = match v {
        ScalarValue::V0 => vcd::Value::V0,
        ScalarValue::V1 => vcd::Value::V1,
        ScalarValue::X => vcd::Value::X,
        ScalarValue::Z => vcd::Value::Z,
    };
    w.w.change_scalar(vcd::IdCode::from(id), val).unwrap();
}

/// Relies on vcd::Writer::change_vector: writes `b`, one digit per
/// element in order, a space and the identifier code.
#[verifier::external_body]
pub(crate) fn write_change_vector(w: &mut VcdSink, id: u32, bits: &Vec<ScalarValue>)
    requires
        id < 94,
    ensures
        emitted(*final(w)) == emitted(*old(w)) + vector_record(bits@, id as nat),
        open_scopes(*final(w)) == open_scopes(*old(w)),
{
    let vals = bits.iter().map(|b| match b {
        ScalarValue::V0 => vcd::Value::V0,
        ScalarValue::V1 => vcd::Value::V1,
        ScalarValue::X => vcd::Value::X,
        ScalarValue::Z => vcd::Value::Z,
    });
    w.w.change_vector(vcd::IdCode::from(id), vals).unwrap();
}

/// Writes the real change record `r<token> <id>`, the token being the
/// literal as parsed; relies on vcd::Writer::writer for the sink and on
/// vcd::IdCode's display for the identifier code.
#[verifier::external_body]
pub(crate) fn write_real_record(w: &mut VcdSink, token: &str, id: u32)
    requires
        id < 94,
    ensures
        emitted(*final(w)) == emitted(*old(w)) + real_record(token@, id as nat),
        open_scopes(*final(w)) == open_scopes(*old(w)),
{
    writeln!(w.w.writer(), "r{} {}", token, vcd::IdCode::from(id)).unwrap();
}

/// Relies on vcd::Writer::writer to reach the buffer; the buffer holds
/// the UTF-8 text the writer's formatting wrote, read back losslessly.
#[verifier::external_body]
pub(crate) fn output_string(w: &mut VcdSink) -> (r: String)
    ensures
        r@ == emitted(*old(w)),
        emitted(*final(w)) == emitted(*old(w)),
        open_scopes(*final(w)) == open_scopes(*old(w)),
{
    String::from_utf8_lossy(w.w.writer().as_slice()).into_owned()
}

} // verus!
