//! Tables by VM number.

use vstd::prelude::*;
use std::collections::{HashMap, HashSet};
#[allow(unused_imports)]
use vstd::std_specs::iter::IteratorSpec;
use crate::loan::Loan;
#[allow(unused_imports)]
use crate::loan::LoanView;
#[allow(unused_imports)]
use crate::machine::{entry_or, is_listing, sum_of, touched};
#[allow(unused_imports)]
use crate::proxmox::low32;
use crate::vm_state::VMState;
#[allow(unused_imports)]
use crate::vm_state::VMStateView;

verus! {

broadcast use vstd::std_specs::hash::group_hash_axioms;

/// Names each VM of a table once.
pub fn names<V>(m: &HashMap<u32, V>) -> (r: Vec<u32>)
    ensures
        is_listing(r@, m@.dom()),
{
    let mut out: Vec<u32> = Vec::new();
    for id in it: m.keys()
        invariant
            out@.len() == it.index(),
            it.seq() == m.keys().remaining(),
            forall|j: int| 0 <= j < out@.len() ==> out@[j] == *it.seq()[j],
    {
        out.push(*id);
    }
    proof {
        let q = m.keys().remaining();
        assert(out@ =~= q.unref());
        assert forall|i: int, j: int| 0 <= i < j < out@.len() implies out@[i] != out@[j] by {
            assert(q[i] != q[j]);
        }
        assert forall|id: u32| out@.contains(id) <==> m@.dom().contains(id) by {
            assert(out@.to_set().contains(id) <==> out@.contains(id));
        }
    }
    out
}

/// The entry of a table for a VM, `d` where there is none.
pub fn get_or(m: &HashMap<u32, u32>, id: u32, d: u32) -> (r: u32)
    ensures
        r == entry_or(m@, id, d),
{
    match m.get(&id) {
        Some(v) => *v,
        None => d,
    }
}

/// Drops from a table the VMs that are not among `ids`.
pub fn keep<V>(m: &mut HashMap<u32, V>, ids: &HashSet<u32>)
    ensures
        final(m)@ == old(m)@.restrict(ids@),
{
    let all: Vec<u32> = names(m);
    let mut i: usize = 0;
    while i < all.len()
        invariant
            i <= all@.len(),
            is_listing(all@, old(m)@.dom()),
            forall|id: u32| #[trigger]
                m@.contains_key(id) ==> old(m)@.contains_key(id) && m@[id] == old(m)@[id],
            forall|id: u32|
                old(m)@.contains_key(id) && ids@.contains(id) ==> #[trigger] m@.contains_key(id),
            forall|j: int|
                0 <= j < i && !ids@.contains(#[trigger] all@[j]) ==> !m@.contains_key(all@[j]),
        decreases all@.len() - i,
    {
        let id: u32 = all[i];
        if !ids.contains(&id) {
            let _ = m.remove(&id);
        }
        i = i + 1;
    }
    assert forall|id: u32| m@.contains_key(id) implies ids@.contains(id) by {
        assert(all@.contains(id));
    }
    assert(m@ =~= old(m)@.restrict(ids@));
}

/// Those of `a` that are among `b`.
pub fn both(a: &HashSet<u32>, b: &HashSet<u32>) -> (r: HashSet<u32>)
    ensures
        r@ == a@.intersect(b@),
{
    let mut out: HashSet<u32> = HashSet::new();
    for id in it: a.iter()
        invariant
            it.seq() == a.iter().remaining(),
            forall|j: int|
                0 <= j < it.index() && b@.contains(*#[trigger] it.seq()[j]) ==> out@.contains(
                    *it.seq()[j],
                ),
            forall|x: u32| #[trigger] out@.contains(x) ==> a@.contains(x) && b@.contains(x),
    {
        proof {
            let q = a.iter().remaining();
            assert(q.unref()[it.index() as int] == *id);
            assert(q.unref().to_set().contains(*id));
        }
        if b.contains(id) {
            out.insert(*id);
        }
    }
    proof {
        let q = a.iter().remaining();
        assert forall|x: u32| a@.intersect(b@).contains(x) implies out@.contains(x) by {
            assert(q.unref().to_set().contains(x));
            let j = choose|j: int| 0 <= j < q.unref().len() && q.unref()[j] == x;
            assert(*q[j] == x);
        }
        assert(out@ =~= a@.intersect(b@));
    }
    out
}

/// Taking an entry out of a table takes it off the sum.
pub proof fn lemma_sum_without(m: Map<u32, u32>, id: u32)
    requires
        m.dom().finite(),
        m.contains_key(id),
    ensures
        sum_of(m) == m[id] + sum_of(m.remove(id)),
    decreases m.dom().len(),
{
    let k = m.dom().choose();
    assert(m.dom().contains(k)) by {
        assert(m.dom().contains(id));
    }
    assert(m.dom().len() != 0);
    assert(sum_of(m) == m[k] as nat + sum_of(m.remove(k)));
    if k != id {
        lemma_sum_without(m.remove(k), id);
        lemma_sum_without(m.remove(id), k);
        assert(m.remove(k).remove(id) =~= m.remove(id).remove(k));
    }
}

/// Setting an entry of a table moves the sum by as much as the entry.
pub proof fn lemma_sum_with(m: Map<u32, u32>, id: u32, v: u32)
    requires
        m.dom().finite(),
    ensures
        sum_of(m.insert(id, v)) == sum_of(m) + v - entry_or(m, id, 0),
{
    lemma_sum_without(m.insert(id, v), id);
    if m.contains_key(id) {
        lemma_sum_without(m, id);
        assert(m.insert(id, v).remove(id) =~= m.remove(id));
    } else {
        assert(m.insert(id, v).remove(id) =~= m);
    }
}

/// The sum of all entries, in 32 bits.
pub fn total(m: &HashMap<u32, u32>) -> (r: u32)
    ensures
        r == low32(sum_of(m@) as int),
{
    let all: Vec<u32> = names(m);
    let mut sum: u32 = 0;
    let ghost mut seen: Map<u32, u32> = Map::empty();
    let mut i: usize = 0;
    while i < all.len()
        invariant
            i <= all@.len(),
            is_listing(all@, m@.dom()),
            seen.dom().finite(),
            sum == low32(sum_of(seen) as int),
            forall|id: u32| #[trigger] seen.contains_key(id) <==> all@.take(i as int).contains(id),
            forall|id: u32| #[trigger] seen.contains_key(id) ==> seen[id] == m@[id],
        decreases all@.len() - i,
    {
        let id: u32 = all[i];
        assert(all@.contains(id));
        let v: u32 = get_or(m, id, 0);
        proof {
            let before = all@.take(i as int);
            let after = all@.take(i + 1);
            assert(after =~= before.push(id));
            assert(!before.contains(id)) by {
                if before.contains(id) {
                    let j = choose|j: int| 0 <= j < before.len() && before[j] == id;
                    assert(all@[j] == all@[i as int]);
                }
            }
            assert forall|k: u32| after.contains(k) <==> before.contains(k) || k == id by {
                if before.contains(k) {
                    let j = choose|j: int| 0 <= j < before.len() && before[j] == k;
                    assert(after[j] == k);
                }
                if k == id {
                    assert(after[i as int] == k);
                }
            }
            lemma_sum_with(seen, id, v);
            seen = seen.insert(id, v);
        }
        sum = sum.wrapping_add(v);
        i = i + 1;
    }
    proof {
        assert(all@.take(i as int) =~= all@);
        assert(seen =~= m@);
    }
    sum
}

/// What is known of each VM.
pub open spec fn states_view(m: Map<u32, VMState>) -> Map<u32, VMStateView> {
    m.map_values(|s: VMState| s@)
}

/// What each VM owes.
pub open spec fn loans_view(m: Map<u32, Loan>) -> Map<u32, LoanView> {
    m.map_values(|l: Loan| l@)
}

/// Takes what is known of a VM out of the table.
pub fn take_state(states: &mut HashMap<u32, VMState>, id: u32) -> (r: Option<VMState>)
    ensures
        states_view(final(states)@) == states_view(old(states)@).remove(id),
        match r {
            Some(s) => states_view(old(states)@).contains_key(id) && s@ == states_view(
                old(states)@,
            )[id],
            None => !states_view(old(states)@).contains_key(id),
        },
{
    let r = states.remove(&id);
    assert(states_view(states@) =~= states_view(old(states)@).remove(id));
    r
}

/// Puts what is known of a VM into the table.
pub fn put_state(states: &mut HashMap<u32, VMState>, id: u32, s: VMState)
    ensures
        states_view(final(states)@) == states_view(old(states)@).insert(id, s@),
{
    states.insert(id, s);
    assert(states_view(states@) =~= states_view(old(states)@).insert(id, s@));
}

/// Records in which cycle the vCPUs of a VM changed.
pub fn touch(states: &mut HashMap<u32, VMState>, id: u32, cycle: u64)
    ensures
        states_view(final(states)@) == touched(states_view(old(states)@), id, cycle),
{
    match take_state(states, id) {
        Some(s) => {
            let mut s: VMState = s;
            s.vcpus_changed_at = cycle;
            put_state(states, id, s);
        },
        None => {},
    }
    assert(states_view(states@) =~= touched(states_view(old(states)@), id, cycle));
}

/// Takes what a VM owes out of the table.
pub fn take_loan(loans: &mut HashMap<u32, Loan>, id: u32) -> (r: Option<Loan>)
    ensures
        loans_view(final(loans)@) == loans_view(old(loans)@).remove(id),
        match r {
            Some(l) => loans_view(old(loans)@).contains_key(id) && l@ == loans_view(
                old(loans)@,
            )[id],
            None => !loans_view(old(loans)@).contains_key(id),
        },
{
    let r = loans.remove(&id);
    assert(loans_view(loans@) =~= loans_view(old(loans)@).remove(id));
    r
}

/// Puts what a VM owes into the table.
pub fn put_loan(loans: &mut HashMap<u32, Loan>, id: u32, l: Loan)
    ensures
        loans_view(final(loans)@) == loans_view(old(loans)@).insert(id, l@),
{
    loans.insert(id, l);
    assert(loans_view(loans@) =~= loans_view(old(loans)@).insert(id, l@));
}

/// `out` names once each of `ids` that is in `p`.
pub open spec fn picks(out: Seq<u32>, ids: Seq<u32>, p: Set<u32>) -> bool {
    &&& out.no_duplicates()
    &&& forall|id: u32| #[trigger] out.contains(id) <==> ids.contains(id) && p.contains(id)
}

/// What is picked goes on with the next number.
pub proof fn lemma_picks_next(out: Seq<u32>, all: Seq<u32>, i: int, p: Set<u32>, pos: int)
    requires
        all.no_duplicates(),
        0 <= i < all.len(),
        0 <= pos <= out.len(),
        picks(out, all.take(i), p),
    ensures
        p.contains(all[i]) ==> picks(out.insert(pos, all[i]), all.take(i + 1), p),
        !p.contains(all[i]) ==> picks(out, all.take(i + 1), p),
{
    let id = all[i];
    let before = all.take(i);
    let after = all.take(i + 1);
    let more = out.insert(pos, id);
    assert(!before.contains(id)) by {
        if before.contains(id) {
            let j = choose|j: int| 0 <= j < before.len() && before[j] == id;
            assert(all[j] == all[i]);
        }
    }
    assert forall|k: u32| after.contains(k) <==> before.contains(k) || k == id by {
        if before.contains(k) {
            let j = choose|j: int| 0 <= j < before.len() && before[j] == k;
            assert(after[j] == k);
        }
        if k == id {
            assert(after[i] == k);
        }
        if after.contains(k) && k != id {
            let j = choose|j: int| 0 <= j < after.len() && after[j] == k;
            assert(before[j] == k);
        }
    }
    if p.contains(id) {
        assert(!out.contains(id));
        assert forall|k: u32| #[trigger] more.contains(k) <==> out.contains(k) || k == id by {
            if out.contains(k) {
                let j = choose|j: int| 0 <= j < out.len() && out[j] == k;
                assert(more[if j < pos {
                    j
                } else {
                    j + 1
                }] == k);
            }
            if k == id {
                assert(more[pos] == k);
            }
            if more.contains(k) && k != id {
                let j = choose|j: int| 0 <= j < more.len() && more[j] == k;
                assert(out[if j < pos {
                    j
                } else {
                    j - 1
                }] == k);
            }
        }
        assert forall|a: int, b: int| 0 <= a < b < more.len() implies more[a] != more[b] by {
            let x = if a < pos {
                a
            } else {
                a - 1
            };
            let y = if b < pos {
                b
            } else {
                b - 1
            };
            if a != pos && b != pos {
                assert(out[x] != out[y]);
            }
            if a == pos {
                assert(out.contains(out[y]));
            }
            if b == pos {
                assert(out.contains(out[x]));
            }
        }
    }
}

/// What is picked from a listing is a listing.
pub proof fn lemma_picks_all(out: Seq<u32>, all: Seq<u32>, i: int, ids: Set<u32>, p: Set<u32>)
    requires
        is_listing(all, ids),
        i == all.len(),
        picks(out, all.take(i), p),
    ensures
        is_listing(out, ids.intersect(p)),
{
    assert(all.take(i) =~= all);
}

} // verus!
