//! The signal registry: name to wire type, width and identifier, inferred
//! from each signal's first occurrence in the event sequence.

use vstd::prelude::*;

use crate::sort::models;
use crate::value_change::{Value, ValueChange, ValueModel, VcModel};

verus! {

/// How many wire identifiers the allocator can hand out.
pub const MAX_SIGNALS: usize = 93;

/// The wire type inferred for a signal.
#[derive(Clone, Copy, Debug, PartialEq, Eq, Structural)]
pub enum VarKind {
    Wire,
    Integer,
    Real,
}

/// What the registry records for one signal.
#[derive(Clone, Copy, Debug, PartialEq, Eq, Structural)]
pub struct RegistryEntry {
    pub kind: VarKind,
    pub width: usize,
    pub id: u32,
}

/// The identifier space is exhausted: a 94th distinct signal appeared.
#[derive(Clone, Copy, Debug, PartialEq, Eq, Structural)]
pub struct CapacityError;

/// The wire type a value's kind implies.
pub open spec fn kind_of(v: ValueModel) -> VarKind {
    match v {
        ValueModel::Scalar(_) => VarKind::Wire,
        ValueModel::Vector { .. } => VarKind::Integer,
        ValueModel::Real(_) => VarKind::Real,
    }
}

/// The declared width a value's kind implies: 1 for a scalar, the declared
/// width for a vector, a nominal 32 for a real.
pub open spec fn width_of(v: ValueModel) -> usize {
    match v {
        ValueModel::Scalar(_) => 1,
        ValueModel::Vector { width, .. } => width,
        ValueModel::Real(_) => 32,
    }
}

/// Whether `name` is registered.
pub open spec fn has_name(reg: Seq<(Seq<char>, RegistryEntry)>, name: Seq<char>) -> bool {
    exists|k: int| 0 <= k < reg.len() && reg[k].0 == name
}

/// The registry the event sequence builds: each name is registered at its
/// first occurrence, with the kind and width its value implies then, and
/// with identifiers counting up in order of first occurrence.
pub open spec fn registry_spec(s: Seq<VcModel>) -> Seq<(Seq<char>, RegistryEntry)>
    decreases s.len(),
{
    if s.len() == 0 {
        Seq::<(Seq<char>, RegistryEntry)>::empty()
    } else {
        let prev = registry_spec(s.drop_last());
        let e = s.last();
        if has_name(prev, e.name) {
            prev
        } else {
            prev.push(
                (
                    e.name,
                    RegistryEntry {
                        kind: kind_of(e.value),
                        width: width_of(e.value),
                        id: prev.len() as u32,
                    },
                ),
            )
        }
    }
}

/// The position of `name` in the registry.
pub open spec fn index_of_name(reg: Seq<(Seq<char>, RegistryEntry)>, name: Seq<char>) -> int
    decreases reg.len(),
{
    if reg.len() == 0 {
        0
    } else if reg[0].0 == name {
        0
    } else {
        1 + index_of_name(reg.drop_first(), name)
    }
}

/// Registering more events never shrinks the registry.
proof fn lemma_registry_len_monotone(s: Seq<VcModel>, i: int)
    requires
        0 <= i <= s.len(),
    ensures
        registry_spec(s.take(i)).len() <= registry_spec(s).len(),
    decreases s.len() - i,
{
    if i < s.len() {
        assert(s.take(i + 1).drop_last() =~= s.take(i));
        lemma_registry_len_monotone(s, i + 1);
    } else {
        assert(s.take(i) =~= s);
    }
}

/// Identifiers count the registry positions.
pub proof fn lemma_registry_ids(s: Seq<VcModel>)
    ensures
        forall|k: int|
            0 <= k < registry_spec(s).len() ==> (#[trigger] registry_spec(s)[k]).1.id == k as u32,
    decreases s.len(),
{
    if s.len() > 0 {
        lemma_registry_ids(s.drop_last());
    }
}

/// Every event's name is registered by the registry its sequence builds.
pub proof fn lemma_registry_covers(s: Seq<VcModel>)
    ensures
        forall|i: int| 0 <= i < s.len() ==> has_name(registry_spec(s), (#[trigger] s[i]).name),
    decreases s.len(),
{
    if s.len() > 0 {
        lemma_registry_covers(s.drop_last());
        let prev = registry_spec(s.drop_last());
        let reg = registry_spec(s);
        assert forall|i: int| 0 <= i < s.len() implies has_name(reg, (#[trigger] s[i]).name) by {
            if i < s.len() - 1 {
                assert(s.drop_last()[i] == s[i]);
                assert(has_name(prev, s[i].name));
                let k = choose|k: int| 0 <= k < prev.len() && prev[k].0 == s[i].name;
                assert(reg[k].0 == s[i].name);
            } else {
                if has_name(prev, s.last().name) {
                    let k = choose|k: int| 0 <= k < prev.len() && prev[k].0 == s.last().name;
                    assert(reg[k].0 == s.last().name);
                } else {
                    assert(reg[reg.len() - 1].0 == s.last().name);
                }
            }
        }
    }
}

/// The signal registry: insertion-ordered pairs of name and entry.
pub struct SignalRegistry {
    pub entries: Vec<(String, RegistryEntry)>,
}

impl View for SignalRegistry {
    type V = Seq<(Seq<char>, RegistryEntry)>;

    open spec fn view(&self) -> Seq<(Seq<char>, RegistryEntry)> {
        self.entries@.map(|i: int, p: (String, RegistryEntry)| (p.0@, p.1))
    }
}

impl SignalRegistry {
    /// The position of `name`, if it is registered.
    pub fn find(&self, name: &String) -> (r: Option<usize>)
        ensures
            match r {
                Some(k) => has_name(self@, name@) && k == index_of_name(self@, name@)
                    && self@[k as int].0 == name@ && k < self@.len(),
                None => !has_name(self@, name@),
            },
    {
        let mut k: usize = 0;
        while k < self.entries.len()
            invariant
                0 <= k <= self.entries@.len(),
                forall|j: int| 0 <= j < k ==> (#[trigger] self@[j]).0 != name@,
            decreases self.entries@.len() - k,
        {
            if self.entries[k].0 == *name {
                assert(self@[k as int].0 == name@);
                proof {
                    lemma_index_of_name_prefix(self@, name@, k as int);
                }
                return Some(k);
            }
            k += 1;
        }
        None
    }

    /// Builds the registry from the events, in order: a name's first
    /// occurrence decides its kind and width and takes the next
    /// identifier; a 94th distinct name exhausts the identifier space.
    pub fn build(events: &Vec<ValueChange>) -> (r: Result<SignalRegistry, CapacityError>)
        ensures
            ({
                let spec_reg = registry_spec(models(events@));
                match r {
                    Ok(reg) => spec_reg.len() <= MAX_SIGNALS && reg@ == spec_reg,
                    Err(_) => spec_reg.len() > MAX_SIGNALS,
                }
            }),
    {
        let ghost all = models(events@);
        let mut reg = SignalRegistry { entries: Vec::new() };
        let mut i: usize = 0;
        proof {
            assert(reg@ =~= registry_spec(all.take(0)));
        }
        while i < events.len()
            invariant
                0 <= i <= events@.len(),
                all == models(events@),
                reg@ == registry_spec(all.take(i as int)),
                reg@.len() <= MAX_SIGNALS,
            decreases events@.len() - i,
        {
            let ghost prev = reg@;
            let e = &events[i];
            proof {
                assert(all.take(i + 1).drop_last() =~= all.take(i as int));
                assert(all.take(i + 1).last() == events@[i as int]@);
            }
            match reg.find(&e.signal_name) {
                Some(_) => {
                    assert(has_name(prev, events@[i as int]@.name));
                },
                None => {
                    if reg.entries.len() == MAX_SIGNALS {
                        proof {
                            assert(registry_spec(all.take(i + 1)).len() == MAX_SIGNALS + 1);
                            lemma_registry_len_monotone(all, i + 1);
                        }
                        return Err(CapacityError);
                    }
                    let (kind, width) = match &e.value {
                        Value::Scalar(_) => (VarKind::Wire, 1usize),
                        Value::BinaryVector { width, .. } => (VarKind::Integer, *width),
                        Value::Real(_) => (VarKind::Real, 32usize),
                    };
                    let id = reg.entries.len() as u32;
                    let entry = RegistryEntry { kind, width, id };
                    reg.entries.push((e.signal_name.clone(), entry));
                    proof {
                        assert(kind == kind_of(events@[i as int]@.value));
                        assert(width == width_of(events@[i as int]@.value));
                        assert(reg@ =~= prev.push((events@[i as int]@.name, entry)));
                    }
                },
            }
            proof {
                assert(reg@ == registry_spec(all.take(i + 1)));
            }
            i += 1;
        }
        proof {
            assert(all.take(events@.len() as int) =~= all);
        }
        Ok(reg)
    }
}

/// If the first `k` entries miss `name` and entry `k` holds it, `k` is
/// where `name` is found.
proof fn lemma_index_of_name_prefix(reg: Seq<(Seq<char>, RegistryEntry)>, name: Seq<char>, k: int)
    requires
        0 <= k < reg.len(),
        forall|j: int| 0 <= j < k ==> (#[trigger] reg[j]).0 != name,
        reg[k].0 == name,
    ensures
        index_of_name(reg, name) == k,
    decreases k,
{
    if k > 0 {
        assert(forall|j: int|
            0 <= j < k - 1 ==> (#[trigger] reg.drop_first()[j]).0 == reg[j + 1].0);
        lemma_index_of_name_prefix(reg.drop_first(), name, k - 1);
    }
}

} // verus!
