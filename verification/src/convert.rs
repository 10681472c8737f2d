//! The full run: parse every line, drop the lines the grammar rejects,
//! stable-sort the survivors by timestamp, build the registry, and emit
//! the header and body.

use vstd::prelude::*;

use crate::registry::{
    lemma_registry_covers, lemma_registry_ids, registry_spec, CapacityError, SignalRegistry,
    MAX_SIGNALS,
};
use crate::sort::{models, sort_by_timestamp, sort_by_ts};
use crate::value_change::{parse_spec, ValueChange, VcModel};
use crate::vcd_text::{output_chars, TimescaleUnit};
use crate::encoder::encode;

verus! {

/// The models of the lines that parse, in input order.
pub open spec fn survivors(lines: Seq<Seq<char>>) -> Seq<VcModel>
    decreases lines.len(),
{
    if lines.len() == 0 {
        Seq::<VcModel>::empty()
    } else {
        let rest = survivors(lines.drop_last());
        match parse_spec(lines.last()) {
            Ok(m) => rest.push(m),
            Err(_) => rest,
        }
    }
}

/// The views of a sequence of lines.
pub open spec fn line_views(lines: Seq<String>) -> Seq<Seq<char>> {
    lines.map(|i: int, s: String| s@)
}

/// Parses every line independently: a line the grammar rejects is
/// dropped, and never stops the run; the survivors keep their order.
pub fn parse_lines(lines: &Vec<String>) -> (r: Vec<ValueChange>)
    ensures
        models(r@) == survivors(line_views(lines@)),
{
    let ghost lv = line_views(lines@);
    let mut out: Vec<ValueChange> = Vec::new();
    let mut i: usize = 0;
    proof {
        assert(models(out@) =~= survivors(lv.take(0)));
    }
    while i < lines.len()
        invariant
            0 <= i <= lines@.len(),
            lv == line_views(lines@),
            models(out@) == survivors(lv.take(i as int)),
        decreases lines@.len() - i,
    {
        let ghost out0 = out@;
        proof {
            assert(lv.take(i + 1).drop_last() =~= lv.take(i as int));
            assert(lv.take(i + 1).last() == lines@[i as int]@);
        }
        match ValueChange::from_str(lines[i].as_str()) {
            Ok(vc) => {
                out.push(vc);
                proof {
                    assert(models(out@) =~= models(out0).push(vc@));
                }
            },
            Err(_) => {},
        }
        proof {
            assert(models(out@) =~= survivors(lv.take(i + 1)));
        }
        i += 1;
    }
    proof {
        assert(lv.take(lines@.len() as int) =~= lv);
    }
    out
}

/// Converts a whole log: parses each line independently and drops the
/// lines the grammar rejects, stable-sorts the surviving events by
/// timestamp, registers each signal at its first occurrence, and emits
/// the header and the chronologically ordered body. Fails exactly when
/// the sorted survivors name more than 93 distinct signals.
pub fn convert_lines(lines: &Vec<String>, step: u32, unit: TimescaleUnit) -> (r: Result<
    String,
    CapacityError,
>)
    ensures
        ({
            let evs = sort_by_ts(survivors(line_views(lines@)));
            let reg = registry_spec(evs);
            match r {
                Ok(out) => reg.len() <= MAX_SIGNALS && out@ == output_chars(
                    step as nat,
                    unit,
                    reg,
                    evs,
                ),
                Err(_) => reg.len() > MAX_SIGNALS,
            }
        }),
{
    let parsed = parse_lines(lines);
    let sorted = sort_by_timestamp(parsed);
    let reg = match SignalRegistry::build(&sorted) {
        Ok(r) => r,
        Err(e) => {
            return Err(e);
        },
    };
    proof {
        lemma_registry_covers(models(sorted@));
        lemma_registry_ids(models(sorted@));
        assert(forall|k: int| 0 <= k < reg@.len() ==> (#[trigger] reg@[k]).1.id < 94);
    }
    Ok(encode(step, unit, &reg, &sorted))
}

} // verus!
