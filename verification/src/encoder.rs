//! The verified encoder: emits the header declarations and the
//! chronologically ordered body through the trusted writer wrappers.

use vstd::prelude::*;

use crate::registry::{has_name, index_of_name, SignalRegistry};
use crate::sort::models;
use crate::value_change::{Value, ValueChange, VcModel};
use crate::vcd_text::{
    body_chars, header_chars, lemma_body_chars_concat, output_chars, record_chars, scope_line,
    timescale_line, ts_line, vars_chars, TimescaleUnit,
};
use crate::writer::{
    emitted, new_writer, open_scopes, output_string, write_change_scalar, write_change_vector,
    write_enddefinitions, write_real_record, write_scope_module, write_timescale, write_timestamp,
    write_upscope, write_var, VcdSink,
};

verus! {

/// Emits the header: the timescale, one flat `outputs` scope with a
/// declaration per registry entry, the terminator, and the initial `#0`.
fn encode_header(w: &mut VcdSink, step: u32, unit: TimescaleUnit, reg: &SignalRegistry)
    requires
        open_scopes(*old(w)) == 0,
        forall|k: int| 0 <= k < reg@.len() ==> (#[trigger] reg@[k]).1.id < 94,
    ensures
        emitted(*final(w)) == emitted(*old(w)) + header_chars(step as nat, unit, reg@),
        open_scopes(*final(w)) == 0,
{
    let ghost base = emitted(*w);
    write_timescale(w, step, unit);
    write_scope_module(w, "outputs");
    let ghost pre = base + timescale_line(step as nat, unit) + scope_line("outputs"@);
    proof {
        assert(emitted(*w) =~= pre + vars_chars(reg@.take(0)));
    }
    let mut k: usize = 0;
    while k < reg.entries.len()
        invariant
            0 <= k <= reg.entries@.len(),
            forall|j: int| 0 <= j < reg@.len() ==> (#[trigger] reg@[j]).1.id < 94,
            emitted(*w) == pre + vars_chars(reg@.take(k as int)),
            open_scopes(*w) == 1,
            pre == base + timescale_line(step as nat, unit) + scope_line("outputs"@),
        decreases reg.entries@.len() - k,
    {
        let entry = reg.entries[k].1;
        proof {
            assert(reg@.len() == reg.entries@.len());
            assert(reg@[k as int] == (reg.entries@[k as int].0@, reg.entries@[k as int].1));
            assert(reg@[k as int].1.id < 94);
        }
        write_var(
            w,
            entry.kind,
            #[verifier::truncate] (entry.width as u32),
            entry.id,
            reg.entries[k].0.as_str(),
        );
        proof {
            assert(reg@.take(k + 1).drop_last() =~= reg@.take(k as int));
            assert(reg@.take(k + 1).last() == reg@[k as int]);
            assert(emitted(*w) =~= pre + vars_chars(reg@.take(k + 1)));
        }
        k += 1;
    }
    proof {
        assert(reg@.take(reg@.len() as int) =~= reg@);
    }
    write_upscope(w);
    write_enddefinitions(w);
    write_timestamp(w, 0);
    proof {
        assert(emitted(*w) =~= base + header_chars(step as nat, unit, reg@));
    }
}

/// Emits the body: walks the events once, writes a timestamp marker
/// whenever the timestamp differs from the previously emitted one, then
/// the event's change record under its registered identifier.
fn encode_body(w: &mut VcdSink, events: &Vec<ValueChange>, reg: &SignalRegistry)
    requires
        forall|i: int|
            0 <= i < events@.len() ==> has_name(reg@, (#[trigger] models(events@)[i]).name),
        forall|k: int| 0 <= k < reg@.len() ==> (#[trigger] reg@[k]).1.id < 94,
    ensures
        emitted(*final(w)) == emitted(*old(w)) + body_chars(models(events@), reg@, 0),
        open_scopes(*final(w)) == open_scopes(*old(w)),
{
    let ghost base = emitted(*w);
    let ghost ms = models(events@);
    let ghost scopes = open_scopes(*w);
    let mut last: u64 = 0;
    let mut i: usize = 0;
    proof {
        assert(emitted(*w) =~= base + body_chars(ms.take(0), reg@, 0));
    }
    while i < events.len()
        invariant
            0 <= i <= events@.len(),
            ms == models(events@),
            forall|j: int| 0 <= j < ms.len() ==> has_name(reg@, (#[trigger] ms[j]).name),
            forall|k: int| 0 <= k < reg@.len() ==> (#[trigger] reg@[k]).1.id < 94,
            emitted(*w) == base + body_chars(ms.take(i as int), reg@, 0),
            open_scopes(*w) == scopes,
            last == if i == 0 {
                0u64
            } else {
                ms[i - 1].timestamp
            },
        decreases events@.len() - i,
    {
        let ghost before = emitted(*w);
        let e = &events[i];
        proof {
            assert(ms[i as int] == events@[i as int]@);
        }
        if e.timestamp != last {
            write_timestamp(w, e.timestamp);
        }
        let k = match reg.find(&e.signal_name) {
            Some(k) => k,
            None => {
                proof {
                    assert(has_name(reg@, ms[i as int].name));
                    assert(false);
                }
                vstd::pervasive::unreached()
            },
        };
        let entry = reg.entries[k].1;
        proof {
            assert(reg@[k as int] == (reg.entries@[k as int].0@, reg.entries@[k as int].1));
            assert(entry.id == reg@[index_of_name(reg@, ms[i as int].name)].1.id);
        }
        match &e.value {
            Value::Scalar(v) => write_change_scalar(w, entry.id, *v),
            Value::BinaryVector { value, .. } => write_change_vector(w, entry.id, value),
            Value::Real(tok) => write_real_record(w, tok.as_str(), entry.id),
        }
        proof {
            let step_text = (if ms[i as int].timestamp != last {
                ts_line(ms[i as int].timestamp as nat)
            } else {
                Seq::<char>::empty()
            }) + record_chars(
                ms[i as int].value,
                reg@[index_of_name(reg@, ms[i as int].name)].1.id as nat,
            );
            assert(emitted(*w) =~= before + step_text);
            assert(ms.take(i as int) + seq![ms[i as int]] =~= ms.take(i + 1));
            lemma_body_chars_concat(ms.take(i as int), seq![ms[i as int]], reg@, 0);
            let last2 = if i == 0 {
                0u64
            } else {
                ms.take(i as int).last().timestamp
            };
            assert(i > 0 ==> ms.take(i as int).last() == ms[i - 1]);
            assert(last2 == last);
            let single = seq![ms[i as int]];
            assert(single.len() == 1 && single[0] == ms[i as int]);
            assert(single.drop_first() =~= Seq::<VcModel>::empty());
            assert(body_chars(Seq::<VcModel>::empty(), reg@, ms[i as int].timestamp)
                == Seq::<char>::empty());
            assert(body_chars(single, reg@, last2) =~= step_text);
            assert(emitted(*w) =~= base + body_chars(ms.take(i + 1), reg@, 0));
        }
        last = e.timestamp;
        i += 1;
    }
    proof {
        assert(ms.take(events@.len() as int) =~= ms);
    }
}

/// Encodes the whole output for the registry and the time-sorted events:
/// the header, then the body. Every event's name must be registered, as
/// it is when the registry was built from these events.
pub fn encode(
    step: u32,
    unit: TimescaleUnit,
    reg: &SignalRegistry,
    events: &Vec<ValueChange>,
) -> (r: String)
    requires
        forall|i: int|
            0 <= i < events@.len() ==> has_name(reg@, (#[trigger] models(events@)[i]).name),
        forall|k: int| 0 <= k < reg@.len() ==> (#[trigger] reg@[k]).1.id < 94,
    ensures
        r@ == output_chars(step as nat, unit, reg@, models(events@)),
{
    let mut w = new_writer();
    encode_header(&mut w, step, unit, reg);
    encode_body(&mut w, events, reg);
    let out = output_string(&mut w);
    proof {
        assert(out@ =~= output_chars(step as nat, unit, reg@, models(events@)));
    }
    out
}

} // verus!
