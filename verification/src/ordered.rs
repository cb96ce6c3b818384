use std::collections::BTreeMap;
use std::collections::BTreeSet;
use vstd::prelude::*;
use vstd::std_specs::cmp::OrdSpec;
use vstd::std_specs::iter::IteratorSpec;

verus! {

/// The members of `s` that lie below `bound`, smallest first.
pub open spec fn members_below(s: Set<u32>, bound: nat) -> Seq<u32>
    decreases bound,
{
    if bound == 0 {
        Seq::empty()
    } else {
        let k = (bound - 1) as nat;
        if k <= u32::MAX && s.contains(k as u32) {
            members_below(s, k).push(k as u32)
        } else {
            members_below(s, k)
        }
    }
}

/// The members of `s`, smallest first.
pub open spec fn ascending(s: Set<u32>) -> Seq<u32> {
    members_below(s, 0x1_0000_0000)
}

/// Every element is smaller than the elements after it.
pub open spec fn strictly_ascending(v: Seq<u32>) -> bool {
    forall|i: int, j: int| 0 <= i < j < v.len() ==> v[i] < v[j]
}

/// A strictly ascending sequence is cut by any bound into the members below
/// the bound and the members from the bound upward.
pub proof fn lemma_members_below(v: Seq<u32>, s: Set<u32>, bound: nat) -> (n: int)
    requires
        strictly_ascending(v),
        v.to_set() == s,
        bound <= 0x1_0000_0000,
    ensures
        0 <= n <= v.len(),
        members_below(s, bound) == v.take(n),
        forall|i: int| 0 <= i < n ==> v[i] < bound,
        forall|i: int| n <= i < v.len() ==> v[i] >= bound,
    decreases bound,
{
    if bound == 0 {
        assert(v.take(0) =~= Seq::<u32>::empty());
        0
    } else {
        let k = (bound - 1) as nat;
        let n = lemma_members_below(v, s, k);
        if s.contains(k as u32) {
            assert(v.to_set().contains(k as u32));
            assert(v.contains(k as u32));
            let j = choose|j: int| 0 <= j < v.len() && v[j] == k as u32;
            assert(j == n) by {
                if j < n {
                    assert(v[j] < k);
                }
                if j > n {
                    assert(v[n] < v[j]);
                }
            }
            assert(v.take(n + 1) =~= v.take(n).push(k as u32));
            assert forall|i: int| n + 1 <= i < v.len() implies v[i] >= bound by {
                assert(v[n] < v[i]);
            }
            n + 1
        } else {
            assert forall|i: int| n <= i < v.len() implies v[i] >= bound by {
                if v[i] == k {
                    assert(v.contains(v[i]));
                    assert(v.to_set().contains(v[i]));
                }
            }
            n
        }
    }
}

/// There is one way only to list a set in strictly ascending order.
pub proof fn lemma_ascending_unique(v: Seq<u32>, s: Set<u32>)
    requires
        strictly_ascending(v),
        v.to_set() == s,
    ensures
        v == ascending(s),
{
    let n = lemma_members_below(v, s, 0x1_0000_0000);
    if n < v.len() {
        assert(v[n] >= 0x1_0000_0000);
    }
    assert(v.take(n) =~= v);
}

/// The ascending list of a set lists the set, each member once, smallest
/// first.
pub proof fn lemma_ascending_lists(s: Set<u32>)
    requires
        s.finite(),
    ensures
        strictly_ascending(ascending(s)),
        ascending(s).to_set() == s,
        ascending(s).len() == s.len(),
        ascending(s).no_duplicates(),
{
    lemma_members_below_lists(s, 0x1_0000_0000);
    let v = ascending(s);
    assert(v.to_set() =~= s) by {
        assert forall|x: u32| v.to_set().contains(x) <==> s.contains(x) by {
            if v.to_set().contains(x) {
                assert(v.contains(x));
            }
            if s.contains(x) {
                assert(v.contains(x));
            }
        }
    }
    assert(v.no_duplicates());
    v.unique_seq_to_set();
}

/// The list of the members below a bound holds exactly those members,
/// smallest first.
pub proof fn lemma_members_below_lists(s: Set<u32>, bound: nat)
    requires
        bound <= 0x1_0000_0000,
    ensures
        strictly_ascending(members_below(s, bound)),
        forall|x: u32|
            #![trigger members_below(s, bound).contains(x)]
            #![trigger s.contains(x)]
            members_below(s, bound).contains(x) <==> (s.contains(x) && x < bound),
    decreases bound,
{
    let v = members_below(s, bound);
    if bound == 0 {
    } else {
        let k = (bound - 1) as nat;
        let w = members_below(s, k);
        lemma_members_below_lists(s, k);
        if s.contains(k as u32) {
            assert(v == w.push(k as u32));
            assert forall|i: int, j: int| 0 <= i < j < v.len() implies v[i] < v[j] by {
                assert(v[i] == w[i]);
                if j < w.len() {
                    assert(v[j] == w[j]);
                    assert(w[i] < w[j]);
                } else {
                    assert(v[j] == k);
                    assert(w.contains(w[i]));
                    assert(w[i] < k);
                }
            }
            assert forall|x: u32| v.contains(x) <==> (s.contains(x) && x < bound) by {
                if v.contains(x) {
                    let i = choose|i: int| 0 <= i < v.len() && v[i] == x;
                    if i < w.len() {
                        assert(w.contains(w[i]));
                    }
                }
                if s.contains(x) && x < bound {
                    if x == k {
                        assert(v[w.len() as int] == x);
                    } else {
                        assert(w.contains(x));
                        let i = choose|i: int| 0 <= i < w.len() && w[i] == x;
                        assert(v[i] == x);
                    }
                }
            }
        } else {
            assert(v == w);
            assert forall|x: u32| v.contains(x) <==> (s.contains(x) && x < bound) by {
                if s.contains(x) && x < bound {
                    assert(x != k);
                }
            }
        }
    }
}

/// A strictly ascending list of 32-bit numbers holds each number at or
/// after its own position, so it is no longer than there are such numbers.
pub proof fn lemma_ascending_bounded(order: Seq<u32>)
    requires
        strictly_ascending(order),
    ensures
        order.len() <= 0x1_0000_0000,
        forall|i: int| 0 <= i < order.len() ==> #[trigger] order[i] >= i,
    decreases order.len(),
{
    if order.len() > 0 {
        let front = order.drop_last();
        lemma_ascending_bounded(front);
        if front.len() > 0 {
            let k = front.len() - 1;
            assert(front[k] == order[k]);
            assert(order[k] < order[k + 1]);
        }
        assert forall|i: int| 0 <= i < order.len() implies #[trigger] order[i] >= i by {
            if i < front.len() {
                assert(front[i] == order[i]);
            }
        }
    }
}

proof fn lemma_increasing_refs(rem: Seq<&u32>)
    requires
        vstd::std_specs::btree::increasing_seq(rem),
    ensures
        strictly_ascending(rem.unref()),
{
    assert(vstd::laws_cmp::obeys_cmp::<&u32>()) by {
        reveal(vstd::laws_cmp::obeys_cmp_partial_ord);
        reveal(vstd::laws_cmp::obeys_cmp_ord);
    }
    vstd::std_specs::btree::axiom_increasing_seq_meaning::<&u32>(rem);
    let v = rem.unref();
    assert forall|i: int, j: int| 0 <= i < j < v.len() implies v[i] < v[j] by {
        assert((&rem[i]).cmp_spec(&rem[j]) is Less);
    }
}

/// The members of a set of column indices, smallest first.
pub fn ordered_columns(cols: &BTreeSet<u32>) -> (r: Vec<u32>)
    ensures
        r@ == ascending(cols@),
        cols@.finite(),
{
    let mut out: Vec<u32> = Vec::new();
    let ghost rem = cols.iter().remaining();
    for x in it: cols.iter()
        invariant
            it.seq() == rem,
            out@.len() == it.index(),
            forall|i: int| 0 <= i < out@.len() ==> out@[i] == *it.seq()[i],
    {
        out.push(*x);
    }
    proof {
        vstd::std_specs::btree::axiom_spec_btree_keys_iter(cols);
        lemma_increasing_refs(rem);
        assert(out@ =~= rem.unref());
        lemma_ascending_unique(out@, cols@);
        vstd::seq_lib::seq_to_set_is_finite(out@);
    }
    out
}

/// The keys of a binding map, smallest first.
pub fn ordered_keys(mapping: &BTreeMap<u32, u32>) -> (r: Vec<u32>)
    ensures
        r@ == ascending(mapping@.dom()),
{
    let mut out: Vec<u32> = Vec::new();
    let ghost rem = mapping.keys().remaining();
    for x in it: mapping.keys()
        invariant
            it.seq() == rem,
            out@.len() == it.index(),
            forall|i: int| 0 <= i < out@.len() ==> out@[i] == *it.seq()[i],
    {
        out.push(*x);
    }
    proof {
        vstd::std_specs::btree::axiom_spec_keys_iter(mapping);
        lemma_increasing_refs(rem);
        assert(out@ =~= rem.unref());
        lemma_ascending_unique(out@, mapping@.dom());
    }
    out
}

} // verus!
