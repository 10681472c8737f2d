//! Stable sorting of parsed events by timestamp.

use vstd::prelude::*;

use crate::value_change::{ValueChange, VcModel};

verus! {

/// The models of a sequence of value changes.
pub open spec fn models(s: Seq<ValueChange>) -> Seq<VcModel> {
    s.map(|i: int, e: ValueChange| e@)
}

/// Inserts `e` behind every leading element whose timestamp does not
/// exceed `e`'s, so that equal timestamps keep their original order.
pub open spec fn insert_by_ts(s: Seq<VcModel>, e: VcModel) -> Seq<VcModel>
    decreases s.len(),
{
    if s.len() == 0 {
        seq![e]
    } else if s[0].timestamp <= e.timestamp {
        seq![s[0]] + insert_by_ts(s.drop_first(), e)
    } else {
        seq![e] + s
    }
}

/// The stable sort of `s` by timestamp.
pub open spec fn sort_by_ts(s: Seq<VcModel>) -> Seq<VcModel>
    decreases s.len(),
{
    if s.len() == 0 {
        Seq::<VcModel>::empty()
    } else {
        insert_by_ts(sort_by_ts(s.drop_last()), s.last())
    }
}

/// The timestamps of `s` never decrease.
pub open spec fn sorted_by_ts(s: Seq<VcModel>) -> bool {
    forall|i: int, j: int| 0 <= i <= j < s.len() ==> s[i].timestamp <= s[j].timestamp
}

/// Inserting an element into any sequence adds it to the contents.
proof fn lemma_seq_insert_to_multiset<A>(s: Seq<A>, p: int, x: A)
    requires
        0 <= p <= s.len(),
    ensures
        s.insert(p, x).to_multiset() =~= s.to_multiset().insert(x),
{
    broadcast use vstd::seq_lib::group_to_multiset_ensures;

    let t = s.insert(p, x);
    assert(t.remove(p) =~= s);
    assert(t[p] == x);
    assert(t.contains(x));
    assert(t.remove(p).to_multiset() =~= t.to_multiset().remove(t[p]));
    assert(s.to_multiset() =~= t.to_multiset().remove(x));
    assert(t.to_multiset().count(x) > 0);
    assert forall|y: A| t.to_multiset().count(y) == s.to_multiset().insert(x).count(y) by {
        if y == x {
            assert(s.to_multiset().count(x) == t.to_multiset().count(x) - 1);
        } else {
            assert(s.to_multiset().count(y) == t.to_multiset().count(y));
        }
    }
}

proof fn lemma_insert_by_ts_multiset(s: Seq<VcModel>, e: VcModel)
    ensures
        insert_by_ts(s, e).to_multiset() =~= s.to_multiset().insert(e),
    decreases s.len(),
{
    if s.len() == 0 {
        assert(seq![e] =~= Seq::<VcModel>::empty().insert(0, e));
        lemma_seq_insert_to_multiset(Seq::<VcModel>::empty(), 0, e);
        assert(s =~= Seq::<VcModel>::empty());
    } else if s[0].timestamp <= e.timestamp {
        let rest = s.drop_first();
        lemma_insert_by_ts_multiset(rest, e);
        assert(seq![s[0]] + insert_by_ts(rest, e) =~= insert_by_ts(rest, e).insert(0, s[0]));
        lemma_seq_insert_to_multiset(insert_by_ts(rest, e), 0, s[0]);
        assert(s =~= rest.insert(0, s[0]));
        lemma_seq_insert_to_multiset(rest, 0, s[0]);
        assert(insert_by_ts(s, e).to_multiset() =~= rest.to_multiset().insert(e).insert(s[0]));
        assert(rest.to_multiset().insert(e).insert(s[0]) =~= rest.to_multiset().insert(
            s[0],
        ).insert(e));
    } else {
        assert(seq![e] + s =~= s.insert(0, e));
        lemma_seq_insert_to_multiset(s, 0, e);
    }
}

/// A lower bound on the timestamps of `s` and of `e` bounds the insertion.
proof fn lemma_insert_by_ts_lower(s: Seq<VcModel>, e: VcModel, b: u64)
    requires
        forall|k: int| 0 <= k < s.len() ==> b <= s[k].timestamp,
        b <= e.timestamp,
    ensures
        forall|k: int| 0 <= k < insert_by_ts(s, e).len() ==> b <= insert_by_ts(s, e)[k].timestamp,
    decreases s.len(),
{
    if s.len() > 0 && s[0].timestamp <= e.timestamp {
        lemma_insert_by_ts_lower(s.drop_first(), e, b);
    }
}

proof fn lemma_insert_by_ts_sorted(s: Seq<VcModel>, e: VcModel)
    requires
        sorted_by_ts(s),
    ensures
        sorted_by_ts(insert_by_ts(s, e)),
    decreases s.len(),
{
    if s.len() == 0 {
    } else if s[0].timestamp <= e.timestamp {
        let rest = s.drop_first();
        lemma_insert_by_ts_sorted(rest, e);
        lemma_insert_by_ts_lower(rest, e, s[0].timestamp);
    }
}

/// The stable sort leaves the timestamps in non-decreasing order.
pub proof fn lemma_sort_by_ts_sorted(s: Seq<VcModel>)
    ensures
        sorted_by_ts(sort_by_ts(s)),
    decreases s.len(),
{
    if s.len() > 0 {
        lemma_sort_by_ts_sorted(s.drop_last());
        lemma_insert_by_ts_sorted(sort_by_ts(s.drop_last()), s.last());
    }
}

/// The stable sort is a permutation: no event appears or disappears.
pub proof fn lemma_sort_by_ts_permutes(s: Seq<VcModel>)
    ensures
        sort_by_ts(s).to_multiset() =~= s.to_multiset(),
    decreases s.len(),
{
    broadcast use vstd::seq_lib::group_to_multiset_ensures;

    if s.len() > 0 {
        let rest = s.drop_last();
        lemma_sort_by_ts_permutes(rest);
        lemma_insert_by_ts_multiset(sort_by_ts(rest), s.last());
        assert(s =~= rest.push(s.last()));
        assert(s.to_multiset() =~= rest.to_multiset().insert(s.last()));
    }
}

/// Selects the events carrying timestamp `t`.
pub open spec fn ts_is(t: u64) -> spec_fn(VcModel) -> bool {
    |m: VcModel| m.timestamp == t
}

/// Where `insert_by_ts` lands: the length of the maximal prefix whose
/// timestamps do not exceed the inserted one.
spec fn ins_pos(s: Seq<VcModel>, e: VcModel) -> int
    decreases s.len(),
{
    if s.len() == 0 {
        0
    } else if s[0].timestamp <= e.timestamp {
        1 + ins_pos(s.drop_first(), e)
    } else {
        0
    }
}

proof fn lemma_ins_pos(s: Seq<VcModel>, e: VcModel)
    ensures
        0 <= ins_pos(s, e) <= s.len(),
        forall|k: int| 0 <= k < ins_pos(s, e) ==> s[k].timestamp <= e.timestamp,
        ins_pos(s, e) < s.len() ==> s[ins_pos(s, e)].timestamp > e.timestamp,
    decreases s.len(),
{
    if s.len() > 0 && s[0].timestamp <= e.timestamp {
        lemma_ins_pos(s.drop_first(), e);
        assert forall|k: int| 0 <= k < ins_pos(s, e) implies s[k].timestamp <= e.timestamp by {
            if k > 0 {
                assert(s[k] == s.drop_first()[k - 1]);
            }
        }
        if ins_pos(s, e) < s.len() {
            assert(s[ins_pos(s, e)] == s.drop_first()[ins_pos(s.drop_first(), e)]);
        }
    }
}

/// A sequence with no selected element filters to nothing.
proof fn lemma_filter_none<A>(q: Seq<A>, pred: spec_fn(A) -> bool)
    requires
        forall|i: int| 0 <= i < q.len() ==> !pred(q[i]),
    ensures
        q.filter(pred) == Seq::<A>::empty(),
    decreases q.len(),
{
    reveal(Seq::filter);
    if q.len() > 0 {
        lemma_filter_none(q.drop_last(), pred);
    } else {
        assert(q =~= Seq::<A>::empty());
    }
}

/// Inserting by timestamp into a sorted sequence appends to the
/// timestamp's own class and leaves every other class unchanged.
proof fn lemma_insert_by_ts_filter(s: Seq<VcModel>, e: VcModel, t: u64)
    requires
        sorted_by_ts(s),
    ensures
        insert_by_ts(s, e).filter(ts_is(t)) == if e.timestamp == t {
            s.filter(ts_is(t)).push(e)
        } else {
            s.filter(ts_is(t))
        },
{
    broadcast use vstd::seq_lib::group_seq_properties;

    reveal(Seq::filter);
    let pred = ts_is(t);
    let p = ins_pos(s, e);
    lemma_ins_pos(s, e);
    lemma_insert_by_ts_at(s, e, p);
    let front = s.take(p);
    let back = s.skip(p);
    Seq::filter_distributes_over_add(front, seq![e] + back, pred);
    Seq::filter_distributes_over_add(seq![e], back, pred);
    Seq::filter_distributes_over_add(front, back, pred);
    assert(front + (seq![e] + back) =~= front + seq![e] + back);
    assert(front + back =~= s);
    assert(seq![e].drop_last() =~= Seq::<VcModel>::empty());
    assert(seq![e].filter(pred) == if pred(e) {
        Seq::<VcModel>::empty().push(e)
    } else {
        Seq::<VcModel>::empty()
    });
    if e.timestamp == t {
        assert forall|i: int| 0 <= i < back.len() implies !pred(back[i]) by {
            assert(back[i] == s[p + i]);
            assert(s[p].timestamp > e.timestamp);
        }
        lemma_filter_none(back, pred);
        assert(insert_by_ts(s, e).filter(pred) =~= front.filter(pred) + Seq::<
            VcModel,
        >::empty().push(e));
        assert(s.filter(pred) =~= front.filter(pred));
        assert(front.filter(pred) + Seq::<VcModel>::empty().push(e) =~= s.filter(pred).push(e));
    } else {
        assert(insert_by_ts(s, e).filter(pred) =~= front.filter(pred) + back.filter(pred));
        assert(insert_by_ts(s, e).filter(pred) =~= s.filter(pred));
    }
}

/// The stable sort keeps the original order within one timestamp: its
/// events with timestamp `t` are exactly the input's events with
/// timestamp `t`, in the input's order.
pub proof fn lemma_sort_by_ts_stable(s: Seq<VcModel>, t: u64)
    ensures
        sort_by_ts(s).filter(ts_is(t)) == s.filter(ts_is(t)),
    decreases s.len(),
{
    reveal(Seq::filter);
    if s.len() > 0 {
        let rest = s.drop_last();
        lemma_sort_by_ts_stable(rest, t);
        lemma_sort_by_ts_sorted(rest);
        lemma_insert_by_ts_filter(sort_by_ts(rest), s.last(), t);
    }
}

/// Where the element lands: behind the maximal prefix of timestamps
/// that do not exceed its own.
proof fn lemma_insert_by_ts_at(s: Seq<VcModel>, e: VcModel, p: int)
    requires
        0 <= p <= s.len(),
        forall|k: int| 0 <= k < p ==> s[k].timestamp <= e.timestamp,
        p < s.len() ==> s[p].timestamp > e.timestamp,
    ensures
        insert_by_ts(s, e) == s.take(p) + seq![e] + s.skip(p),
    decreases p,
{
    if p == 0 {
        if s.len() == 0 {
            assert(insert_by_ts(s, e) =~= s.take(0) + seq![e] + s.skip(0));
        } else {
            assert(seq![e] + s =~= s.take(0) + seq![e] + s.skip(0));
        }
    } else {
        let rest = s.drop_first();
        lemma_insert_by_ts_at(rest, e, p - 1);
        assert(seq![s[0]] + (rest.take(p - 1) + seq![e] + rest.skip(p - 1)) =~= s.take(p)
            + seq![e] + s.skip(p));
    }
}

/// Stable-sorts the events by timestamp: the result is the stable sort
/// of the input, so events with equal timestamps keep their order.
pub fn sort_by_timestamp(events: Vec<ValueChange>) -> (r: Vec<ValueChange>)
    ensures
        models(r@) == sort_by_ts(models(events@)),
{
    let ghost orig = events@;
    let mut v = events;
    let mut out: Vec<ValueChange> = Vec::new();
    proof {
        assert(v@ =~= orig.skip(0));
        assert(models(out@) =~= sort_by_ts(models(orig.take(0))));
    }
    while v.len() > 0
        invariant
            v@.len() <= orig.len(),
            v@ == orig.skip(orig.len() - v@.len()),
            models(out@) == sort_by_ts(models(orig.take(orig.len() - v@.len()))),
        decreases v@.len(),
    {
        let ghost i = orig.len() - v@.len();
        let ghost out0 = out@;
        let e = v.remove(0);
        proof {
            assert(e == orig[i]);
            assert(v@ =~= orig.skip(i + 1));
        }
        let mut p: usize = 0;
        while p < out.len() && out[p].timestamp <= e.timestamp
            invariant
                0 <= p <= out.len(),
                forall|k: int| 0 <= k < p ==> out@[k].timestamp <= e.timestamp,
            decreases out.len() - p,
        {
            p += 1;
        }
        proof {
            assert(forall|k: int|
                0 <= k < models(out0).len() ==> models(out0)[k].timestamp
                    == out0[k].timestamp);
            lemma_insert_by_ts_at(models(out0), e@, p as int);
        }
        out.insert(p, e);
        proof {
            assert(models(out@) =~= models(out0).take(p as int) + seq![e@] + models(out0).skip(
                p as int,
            ));
            assert(models(out@) == insert_by_ts(models(out0), e@));
            assert(models(orig.take(i + 1)).drop_last() =~= models(orig.take(i)));
            assert(models(orig.take(i + 1)).last() == orig[i]@);
            assert(models(out@) == sort_by_ts(models(orig.take(i + 1))));
        }
    }
    proof {
        assert(orig.take(orig.len() as int) =~= orig);
    }
    out
}

} // verus!
