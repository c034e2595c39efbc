//! Loans of vCPUs: who borrowed how many from whom.

use vstd::prelude::*;

verus! {

/// What one lender lent.
#[derive(Clone, Copy, Debug, PartialEq, Eq, Structural)]
pub struct LoanSegment {
    /// The VM that lent, 0 for the host.
    pub preteur_id: u32,
    /// How many vCPUs it lent.
    pub nb_empruntes: u32,
}

/// What a VM borrowed, lender by lender, the latest last.
#[derive(Debug)]
pub struct Loan {
    /// How many vCPUs the borrower had before.
    pub vcpus_initial: u32,
    pub segments: Vec<LoanSegment>,
}

/// What a loan holds.
pub struct LoanView {
    pub vcpus_initial: u32,
    pub segments: Seq<LoanSegment>,
}

impl View for Loan {
    type V = LoanView;

    open spec fn view(&self) -> LoanView {
        LoanView { vcpus_initial: self.vcpus_initial, segments: self.segments@ }
    }
}

/// How many vCPUs are owed in all.
pub open spec fn owed(s: Seq<LoanSegment>) -> nat
    decreases s.len(),
{
    if s.len() == 0 {
        0
    } else {
        owed(s.drop_last()) + s.last().nb_empruntes as nat
    }
}

/// How many vCPUs are owed to one lender.
pub open spec fn owed_to(s: Seq<LoanSegment>, id: u32) -> nat
    decreases s.len(),
{
    if s.len() == 0 {
        0
    } else {
        owed_to(s.drop_last(), id) + (if s.last().preteur_id == id {
            s.last().nb_empruntes as nat
        } else {
            0
        })
    }
}

/// The first segment of a lender is the one at `i`.
pub open spec fn segment_of(s: Seq<LoanSegment>, id: u32, i: int) -> bool {
    &&& 0 <= i < s.len()
    &&& s[i].preteur_id == id
    &&& forall|j: int| 0 <= j < i ==> (#[trigger] s[j]).preteur_id != id
}

/// `s` with `nb` more vCPUs owed to a lender: in its segment where it has one, else in a new one.
pub open spec fn added(s: Seq<LoanSegment>, id: u32, nb: u32) -> Seq<LoanSegment> {
    if exists|i: int| segment_of(s, id, i) {
        let i = choose|i: int| segment_of(s, id, i);
        s.update(
            i,
            LoanSegment { preteur_id: id, nb_empruntes: (s[i].nb_empruntes + nb) as u32 },
        )
    } else {
        s.push(LoanSegment { preteur_id: id, nb_empruntes: nb })
    }
}

/// `s` without the segments at its end that owe nothing.
pub open spec fn pruned(s: Seq<LoanSegment>) -> Seq<LoanSegment>
    decreases s.len(),
{
    if s.len() > 0 && s.last().nb_empruntes == 0 {
        pruned(s.drop_last())
    } else {
        s
    }
}

/// Who gets the next vCPU back: the latest lender to whom anything is owed.
pub open spec fn next_lender(s: Seq<LoanSegment>) -> Option<u32> {
    if pruned(s).len() == 0 {
        None
    } else {
        Some(pruned(s).last().preteur_id)
    }
}

/// `s` with one vCPU given back to the latest lender to whom anything is owed.
pub open spec fn repaid(s: Seq<LoanSegment>) -> Seq<LoanSegment> {
    let p = pruned(s);
    if p.len() == 0 {
        p
    } else if p.last().nb_empruntes == 1 {
        p.drop_last()
    } else {
        p.drop_last().push(
            LoanSegment {
                preteur_id: p.last().preteur_id,
                nb_empruntes: (p.last().nb_empruntes - 1) as u32,
            },
        )
    }
}

impl Loan {
    /// What is owed can be counted in 32 bits.
    pub open spec fn wf(&self) -> bool {
        owed(self@.segments) <= u32::MAX
    }

    /// A loan of nothing yet.
    pub fn new(vcpus_initial: u32) -> (r: Loan)
        ensures
            r@ == (LoanView { vcpus_initial, segments: Seq::empty() }),
            r.wf(),
    {
        let r: Loan = Loan { vcpus_initial, segments: Vec::new() };
        assert(r@.segments =~= Seq::empty());
        r
    }

    /// How many vCPUs are owed.
    pub fn total_empruntes(&self) -> (r: u32)
        requires
            self.wf(),
        ensures
            r == owed(self@.segments),
    {
        let mut sum: u32 = 0;
        let mut i: usize = 0;
        assert(self.segments@.take(0) =~= Seq::empty());
        while i < self.segments.len()
            invariant
                i <= self.segments@.len(),
                sum == owed(self.segments@.take(i as int)),
                owed(self.segments@) <= u32::MAX,
            decreases self.segments@.len() - i,
        {
            proof {
                assert(self.segments@.take(i + 1).drop_last() =~= self.segments@.take(i as int));
                lemma_owed_grows(self.segments@, i + 1);
            }
            sum = sum + self.segments[i].nb_empruntes;
            i = i + 1;
        }
        assert(self.segments@.take(i as int) =~= self.segments@);
        sum
    }

    /// Records that `nb` vCPUs more are owed to a lender.
    pub fn ajouter(&mut self, preteur_id: u32, nb: u32)
        requires
            owed(old(self)@.segments) + nb <= u32::MAX,
        ensures
            final(self)@ == (LoanView {
                vcpus_initial: old(self)@.vcpus_initial,
                segments: added(old(self)@.segments, preteur_id, nb),
            }),
            final(self).wf(),
    {
        let ghost s = self.segments@;
        let mut i: usize = 0;
        while i < self.segments.len()
            invariant
                i <= self.segments@.len(),
                self.segments@ == s,
                self@.vcpus_initial == old(self)@.vcpus_initial,
                old(self)@.segments == s,
                owed(s) + nb <= u32::MAX,
                forall|j: int| 0 <= j < i ==> (#[trigger] s[j]).preteur_id != preteur_id,
            decreases self.segments@.len() - i,
        {
            if self.segments[i].preteur_id == preteur_id {
                proof {
                    assert(segment_of(s, preteur_id, i as int));
                    let k = choose|k: int| segment_of(s, preteur_id, k);
                    assert(k == i);
                    lemma_owed_has(s, i as int);
                    law_loan_grows_by_what_is_added(s, preteur_id, nb);
                }
                let seg: LoanSegment = LoanSegment {
                    preteur_id,
                    nb_empruntes: self.segments[i].nb_empruntes + nb,
                };
                self.segments.set(i, seg);
                return ;
            }
            i = i + 1;
        }
        proof {
            law_loan_grows_by_what_is_added(s, preteur_id, nb);
        }
        self.segments.push(LoanSegment { preteur_id, nb_empruntes: nb });
    }

    /// Takes one vCPU off what is owed to the latest lender and names that lender.
    pub fn retirer_un(&mut self) -> (r: Option<u32>)
        ensures
            r == next_lender(old(self)@.segments),
            final(self)@ == (LoanView {
                vcpus_initial: old(self)@.vcpus_initial,
                segments: repaid(old(self)@.segments),
            }),
            old(self).wf() ==> final(self).wf(),
    {
        let ghost s = self.segments@;
        proof {
            law_repayment_gives_one_back(s);
        }
        while self.segments.len() > 0
            invariant
                pruned(self.segments@) == pruned(s),
                self@.vcpus_initial == old(self)@.vcpus_initial,
                old(self)@.segments == s,
                owed(repaid(s)) <= owed(s),
            decreases self.segments@.len(),
        {
            let last: usize = self.segments.len() - 1;
            let seg: LoanSegment = self.segments[last];
            if seg.nb_empruntes == 0 {
                let ghost before = self.segments@;
                let _ = self.segments.pop();
                assert(self.segments@ =~= before.drop_last());
            } else {
                assert(pruned(s) == self.segments@);
                let _ = self.segments.pop();
                assert(self.segments@ =~= pruned(s).drop_last());
                if seg.nb_empruntes > 1 {
                    self.segments.push(
                        LoanSegment {
                            preteur_id: seg.preteur_id,
                            nb_empruntes: seg.nb_empruntes - 1,
                        },
                    );
                }
                return Some(seg.preteur_id);
            }
        }
        assert(self.segments@ =~= Seq::empty());
        None
    }
}

proof fn lemma_owed_grows(s: Seq<LoanSegment>, k: int)
    requires
        0 <= k <= s.len(),
    ensures
        owed(s.take(k)) <= owed(s),
    decreases s.len() - k,
{
    if k < s.len() {
        lemma_owed_grows(s, k + 1);
        assert(s.take(k + 1).drop_last() =~= s.take(k));
    } else {
        assert(s.take(k) =~= s);
    }
}

proof fn lemma_owed_has(s: Seq<LoanSegment>, i: int)
    requires
        0 <= i < s.len(),
    ensures
        s[i].nb_empruntes <= owed(s),
    decreases s.len(),
{
    if i < s.len() - 1 {
        lemma_owed_has(s.drop_last(), i);
    }
}

proof fn lemma_update(s: Seq<LoanSegment>, i: int, seg: LoanSegment, id: u32)
    requires
        0 <= i < s.len(),
        seg.preteur_id == s[i].preteur_id,
    ensures
        owed(s.update(i, seg)) == owed(s) - s[i].nb_empruntes + seg.nb_empruntes,
        owed_to(s.update(i, seg), id) == owed_to(s, id) + (if s[i].preteur_id == id {
            seg.nb_empruntes - s[i].nb_empruntes
        } else {
            0
        }),
    decreases s.len(),
{
    let t = s.update(i, seg);
    if i == s.len() - 1 {
        assert(t.drop_last() =~= s.drop_last());
    } else {
        assert(t.drop_last() =~= s.drop_last().update(i, seg));
        lemma_update(s.drop_last(), i, seg, id);
    }
}

/// What is added to a loan is owed to the lender named, and to nobody else.
pub proof fn law_loan_grows_by_what_is_added(s: Seq<LoanSegment>, id: u32, nb: u32)
    requires
        owed(s) + nb <= u32::MAX,
    ensures
        owed(added(s, id, nb)) == owed(s) + nb,
        owed_to(added(s, id, nb), id) == owed_to(s, id) + nb,
        forall|other: u32| other != id ==> owed_to(added(s, id, nb), other) == owed_to(s, other),
{
    if exists|i: int| segment_of(s, id, i) {
        let i = choose|i: int| segment_of(s, id, i);
        lemma_owed_has(s, i);
        let seg = LoanSegment { preteur_id: id, nb_empruntes: (s[i].nb_empruntes + nb) as u32 };
        lemma_update(s, i, seg, id);
        assert forall|other: u32| other != id implies owed_to(added(s, id, nb), other) == owed_to(
            s,
            other,
        ) by {
            lemma_update(s, i, seg, other);
        }
    } else {
        assert(added(s, id, nb).drop_last() =~= s);
    }
}

proof fn lemma_pruned(s: Seq<LoanSegment>, id: u32)
    ensures
        owed(pruned(s)) == owed(s),
        owed_to(pruned(s), id) == owed_to(s, id),
        pruned(s).len() == 0 <==> owed(s) == 0,
        pruned(s).len() > 0 ==> pruned(s).last().nb_empruntes > 0,
    decreases s.len(),
{
    if s.len() > 0 && s.last().nb_empruntes == 0 {
        lemma_pruned(s.drop_last(), id);
    }
}

/// Giving back takes one vCPU off the loan as long as anything is owed, and that vCPU goes to the
/// latest lender, whose share alone shrinks.
pub proof fn law_repayment_gives_one_back(s: Seq<LoanSegment>)
    ensures
        next_lender(s) is Some <==> owed(s) > 0,
        owed(s) > 0 ==> owed(repaid(s)) == owed(s) - 1,
        owed(s) == 0 ==> owed(repaid(s)) == 0,
        forall|id: u32| #[trigger]
            owed_to(repaid(s), id) == owed_to(s, id) - (if next_lender(s) == Some(id) {
                1int
            } else {
                0int
            }),
{
    let p = pruned(s);
    lemma_pruned(s, 0);
    if p.len() > 0 {
        let q = p.drop_last();
        if p.last().nb_empruntes > 1 {
            assert(repaid(s).drop_last() =~= q);
        }
    }
    assert forall|id: u32| #[trigger]
        owed_to(repaid(s), id) == owed_to(s, id) - (if next_lender(s) == Some(id) {
            1int
        } else {
            0int
        }) by {
        lemma_pruned(s, id);
    }
}

/// `s` with one vCPU given back, `k` times.
pub open spec fn repaid_times(s: Seq<LoanSegment>, k: nat) -> Seq<LoanSegment>
    decreases k,
{
    if k == 0 {
        s
    } else {
        repaid(repaid_times(s, (k - 1) as nat))
    }
}

proof fn lemma_new_lender(s: Seq<LoanSegment>, id: u32, n: u32, k: nat)
    requires
        forall|i: int| 0 <= i < s.len() ==> (#[trigger] s[i]).preteur_id != id,
        k <= n,
    ensures
        k < n ==> repaid_times(added(s, id, n), k) == s.push(
            LoanSegment { preteur_id: id, nb_empruntes: (n - k) as u32 },
        ),
        0 < k == n ==> repaid_times(added(s, id, n), k) == s,
    decreases k,
{
    if k == 0 {
        assert(!exists|i: int| segment_of(s, id, i));
    } else {
        lemma_new_lender(s, id, n, (k - 1) as nat);
        let t = repaid_times(added(s, id, n), (k - 1) as nat);
        assert(pruned(t) == t);
        assert(t.drop_last() =~= s);
    }
}

/// The latest lender is paid back first: whatever number of vCPUs a new lender lent, as many
/// repayments go to it, and the loan is then as it was.
pub proof fn law_latest_lender_first(s: Seq<LoanSegment>, id: u32, n: u32)
    requires
        forall|i: int| 0 <= i < s.len() ==> (#[trigger] s[i]).preteur_id != id,
        n >= 1,
    ensures
        forall|k: nat|
            k < n ==> next_lender(#[trigger] repaid_times(added(s, id, n), k)) == Some(id),
        repaid_times(added(s, id, n), n as nat) == s,
{
    assert forall|k: nat| k < n implies next_lender(
        #[trigger] repaid_times(added(s, id, n), k),
    ) == Some(id) by {
        lemma_new_lender(s, id, n, k);
        let t = repaid_times(added(s, id, n), k);
        assert(pruned(t) == t);
    }
    lemma_new_lender(s, id, n, n as nat);
}

/// A loan without lenders owes nothing, and each further share counts in full, for its lender alone.
pub proof fn law_shares_add_up(s: Seq<LoanSegment>, seg: LoanSegment, id: u32)
    ensures
        owed(Seq::empty()) == 0,
        owed(s.push(seg)) == owed(s) + seg.nb_empruntes,
        owed_to(Seq::empty(), id) == 0,
        owed_to(s.push(seg), seg.preteur_id) == owed_to(s, seg.preteur_id) + seg.nb_empruntes,
        id != seg.preteur_id ==> owed_to(s.push(seg), id) == owed_to(s, id),
{
    assert(s.push(seg).drop_last() =~= s);
}

/// A lender that lent before lends more in its place, a new one comes last; the other shares stay as
/// and where they are.
pub proof fn law_lenders_keep_their_places(s: Seq<LoanSegment>, id: u32, nb: u32, i: int)
    requires
        owed(s) + nb <= u32::MAX,
        0 <= i < s.len(),
    ensures
        s[i].preteur_id != id ==> added(s, id, nb)[i] == s[i],
        s[i].preteur_id == id && (forall|j: int| 0 <= j < i ==> (#[trigger] s[j]).preteur_id != id)
            ==> added(s, id, nb).len() == s.len() && added(s, id, nb)[i].preteur_id == id && added(
            s,
            id,
            nb,
        )[i].nb_empruntes == s[i].nb_empruntes + nb,
        (forall|j: int| 0 <= j < s.len() ==> (#[trigger] s[j]).preteur_id != id) ==> added(s, id, nb)
            == s.push(LoanSegment { preteur_id: id, nb_empruntes: nb }),
{
    if s[i].preteur_id == id && (forall|j: int| 0 <= j < i ==> (#[trigger] s[j]).preteur_id != id) {
        assert(segment_of(s, id, i));
        let k = choose|k: int| segment_of(s, id, k);
        assert(k == i);
        lemma_owed_has(s, i);
    }
}

/// The first lender of a loan comes alone.
pub proof fn law_first_lender_comes_alone(id: u32, nb: u32)
    ensures
        added(Seq::empty(), id, nb) == seq![LoanSegment { preteur_id: id, nb_empruntes: nb }],
{
    assert(!exists|i: int| segment_of(Seq::empty(), id, i));
    assert(added(Seq::empty(), id, nb) =~= seq![
        LoanSegment { preteur_id: id, nb_empruntes: nb },
    ]);
}

proof fn lemma_pruned_of(s: Seq<LoanSegment>, paid: Seq<LoanSegment>)
    requires
        s.len() == 0 || s.last().nb_empruntes > 0,
        forall|i: int| 0 <= i < paid.len() ==> (#[trigger] paid[i]).nb_empruntes == 0,
    ensures
        pruned(s + paid) == s,
    decreases paid.len(),
{
    if paid.len() == 0 {
        assert(s + paid =~= s);
    } else {
        assert((s + paid).last() == paid[paid.len() - 1]);
        assert((s + paid).drop_last() =~= s + paid.drop_last());
        lemma_pruned_of(s, paid.drop_last());
    }
}

/// Giving back takes one vCPU off the share of the last lender to whom anything is owed; lenders
/// behind it, to whom nothing is owed, are dropped, and so is it with its last vCPU. Those before it
/// stay as they are.
pub proof fn law_the_last_share_shrinks(
    before: Seq<LoanSegment>,
    last: LoanSegment,
    paid: Seq<LoanSegment>,
)
    requires
        last.nb_empruntes > 0,
        forall|i: int| 0 <= i < paid.len() ==> (#[trigger] paid[i]).nb_empruntes == 0,
    ensures
        next_lender(before.push(last) + paid) == Some(last.preteur_id),
        last.nb_empruntes == 1 ==> repaid(before.push(last) + paid) == before,
        last.nb_empruntes > 1 ==> repaid(before.push(last) + paid) == before.push(
            LoanSegment {
                preteur_id: last.preteur_id,
                nb_empruntes: (last.nb_empruntes - 1) as u32,
            },
        ),
        next_lender(paid) is None,
        repaid(paid) == Seq::<LoanSegment>::empty(),
{
    lemma_pruned_of(before.push(last), paid);
    assert(before.push(last).drop_last() =~= before);
    lemma_pruned_of(Seq::empty(), paid);
    assert(Seq::<LoanSegment>::empty() + paid =~= paid);
}

} // verus!
