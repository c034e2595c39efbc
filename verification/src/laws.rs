//! What holds of the balancing cycle as a whole.

use vstd::prelude::*;
#[allow(unused_imports)]
use crate::machine::{
    cycles_left_out, entry_or, follows, is_listing, is_single, lemma_first_is_single,
    lemma_single_is_redeemed, lemma_step_keeps_wf, pending, sum_of, Action, BalancerView, Event,
    Phase, Purpose, Resume, VMMetric,
};
#[allow(unused_imports)]
use crate::signals::Urgency;
#[allow(unused_imports)]
use crate::tables::lemma_sum_with;
#[allow(unused_imports)]
use crate::vm_state::{cooled_down, measures_over, MigrationStatus};

verus! {

/// Limits are respected: a donor keeps at least its least, a VM in distress gets at most its most
/// and at most what its hardware allows, a lender that gets a vCPU back is within its limits where
/// it has any, a borrower gives back no more than it got, and a donor whose gift failed gets exactly
/// what it had.
pub proof fn law_limits_are_respected(s: BalancerView, id: u32, vcpus: u32, purpose: Purpose)
    requires
        s.wf(),
        pending(s) == (Action::SetVcpus { vmid: id, vcpus, purpose }),
    ensures
        match purpose {
            Purpose::LendDonor => s.limits.contains_key(id) && s.limits[id].min <= vcpus,
            Purpose::LendBorrower | Purpose::LendHost => s.limits.contains_key(id) && vcpus
                <= s.limits[id].max && vcpus <= s.cores_of(id),
            Purpose::LendUndo => s.vcpus.contains_key(id) && vcpus == s.vcpus[id],
            Purpose::RepayBorrower => s.loans.contains_key(id) && s.loans[id].vcpus_initial
                <= vcpus,
            Purpose::RepayLender | Purpose::ReturnLender => s.present.contains(id) && (
            s.limits.contains_key(id) ==> s.limits[id].min <= vcpus <= s.limits[id].max),
            Purpose::ReturnBorrower => vcpus == s.returning.vcpus_initial,
        },
{
    match s.phase {
        Phase::LendDonor { vmid, .. }
        | Phase::LendBorrower { vmid, .. }
        | Phase::LendUndo { vmid, .. }
        | Phase::Hosting { vmid, .. }
        | Phase::LendHost { vmid, .. } => {
            assert(s.in_need(s.queue[s.at as int]));
        },
        _ => {},
    }
}

/// A VM that opted out is left alone: the vCPUs of a VM that is there are set, and its migration is
/// asked for, only where it did not opt out, and it lends, borrows or migrates only where it takes
/// part.
pub proof fn law_vms_that_opted_out_are_left_alone(s: BalancerView, id: u32)
    requires
        s.wf(),
        (pending(s) matches Action::SetVcpus { vmid, .. } && vmid == id && s.present.contains(id))
            || (pending(s) matches Action::SendMigrate { vmid, .. } && vmid == id),
    ensures
        !s.opted_out.contains(id),
        pending(s) is SendMigrate ==> s.limits.contains_key(id),
        pending(s) matches Action::SetVcpus { purpose, .. } && (purpose is LendDonor || purpose
            is LendBorrower || purpose is LendUndo || purpose is LendHost)
            ==> s.limits.contains_key(id),
{
    match s.phase {
        Phase::LendDonor { .. }
        | Phase::LendBorrower { .. }
        | Phase::LendUndo { .. }
        | Phase::LendHost { .. } => {
            assert(s.in_need(s.queue[s.at as int]));
        },
        _ => {},
    }
}

/// A vCPU is taken only from a VM at rest for long enough that owes nothing, is not leaving and is
/// not cooling down, and of all such VMs from the one with the lowest load.
pub proof fn law_donors_are_at_rest(pre: BalancerView, post: BalancerView, donor: u32, vcpus: u32)
    requires
        pre.wf(),
        pre.phase is Lending,
        follows(pre, Event::Done, post),
        pending(post) == (Action::SetVcpus { vmid: donor, vcpus, purpose: Purpose::LendDonor }),
    ensures
        !pre.loans.contains_key(donor),
        !pre.leaving(donor),
        pre.averages.contains_key(donor) || pre.due(donor),
        pre.load_or_full(donor).le(pre.config.seuil_donneuse),
        pre.low_of(donor) >= pre.config.duree_avant_action,
        vcpus == pre.vcpus[donor] - 1,
        forall|other: u32|
            pre.may_lend(pre.queue[pre.at as int], other) ==> pre.load_or_full(donor).lt(
                pre.load_or_full(other),
            ) || (pre.load_or_full(donor) == pre.load_or_full(other) && donor <= other),
{
}

/// No two VMs are both the best donor.
pub proof fn law_there_is_one_best_donor(s: BalancerView, vmid: u32, a: u32, b: u32)
    requires
        s.best_donor(vmid, a),
        s.best_donor(vmid, b),
    ensures
        a == b,
{
}

proof fn lemma_same_start(s: BalancerView, ids: Set<u32>, a: Seq<u32>, b: Seq<u32>, k: int)
    requires
        is_listing(a, ids),
        is_listing(b, ids),
        s.by_distress(a),
        s.by_distress(b),
        0 <= k <= a.len(),
    ensures
        k <= b.len(),
        forall|i: int| 0 <= i < k ==> a[i] == b[i],
    decreases k,
{
    if k > 0 {
        lemma_same_start(s, ids, a, b, k - 1);
        let m = k - 1;
        assert(a.contains(a[m]));
        assert(b.contains(a[m]));
        let j = choose|j: int| 0 <= j < b.len() && b[j] == a[m];
        assert(j >= m) by {
            if j < m {
                assert(a[j] == a[m]);
            }
        }
        assert(b.contains(b[m]));
        assert(a.contains(b[m]));
        let i = choose|i: int| 0 <= i < a.len() && a[i] == b[m];
        assert(i >= m) by {
            if i < m {
                assert(b[i] == b[m]);
            }
        }
        if i != m {
            assert(s.before(a[m], a[i]));
            assert(s.before(b[m], b[j]));
        }
    }
}

/// Which VM borrows first is settled by the loads and the numbers of the VMs alone, not by the
/// order in which the VMs are looked through.
pub proof fn law_order_of_borrowers_is_settled(
    s: BalancerView,
    ids: Set<u32>,
    a: Seq<u32>,
    b: Seq<u32>,
)
    requires
        is_listing(a, ids),
        is_listing(b, ids),
        s.by_distress(a),
        s.by_distress(b),
    ensures
        a == b,
{
    lemma_same_start(s, ids, a, b, a.len() as int);
    lemma_same_start(s, ids, b, a, b.len() as int);
    assert(a =~= b);
}

/// A vCPU is given only to a VM that has been in distress for long enough, by enough of its
/// measures, owes nothing and is not leaving.
pub proof fn law_borrowers_are_in_distress(
    s: BalancerView,
    id: u32,
    vcpus: u32,
    purpose: Purpose,
)
    requires
        s.wf(),
        pending(s) == (Action::SetVcpus { vmid: id, vcpus, purpose }),
        purpose == Purpose::LendBorrower || purpose == Purpose::LendHost,
    ensures
        s.config.seuil_detresse.le(s.averages[id]),
        measures_over(s.states[id].history, s.config.seuil_detresse)
            >= s.config.min_samples_before_action,
        s.distress_of(id) >= s.config.duree_avant_action,
        !s.loans.contains_key(id),
        !s.leaving(id),
{
    assert(s.in_need(s.queue[s.at as int]));
}

/// A loan between VMs creates no vCPU: what one gets the other gives.
pub proof fn law_loans_move_one_vcpu(
    s: BalancerView,
    vmid: u32,
    vcpus: u32,
    donor: u32,
    donor_vcpus: u32,
)
    requires
        s.giving(vmid, vcpus, donor, donor_vcpus),
        s.tables_wf(),
    ensures
        s.lent(vmid, vcpus, donor, donor_vcpus).vcpus[vmid] == s.vcpus[vmid] + 1,
        s.lent(vmid, vcpus, donor, donor_vcpus).vcpus[donor] == s.vcpus[donor] - 1,
        sum_of(s.lent(vmid, vcpus, donor, donor_vcpus).vcpus) == sum_of(s.vcpus),
        forall|id: u32|
            id != vmid && id != donor ==> entry_or(
                s.lent(vmid, vcpus, donor, donor_vcpus).vcpus,
                id,
                0,
            ) == entry_or(s.vcpus, id, 0),
{
    assert(s.in_need(s.queue[s.at as int]));
    lemma_sum_with(s.vcpus, donor, (donor_vcpus - 1) as u32);
    lemma_sum_with(s.vcpus.insert(donor, (donor_vcpus - 1) as u32), vmid, (vcpus + 1) as u32);
}

/// The host lends only where it may be overcommitted, and never beyond the bound that it set.
pub proof fn law_host_lends_within_its_bound(
    s: BalancerView,
    vmid: u32,
    vcpus: u32,
    overcommit: bool,
    max: u32,
)
    requires
        s.borrowing(vmid, vcpus),
        s.tables_wf(),
        sum_of(s.vcpus) <= u32::MAX,
        s.on_host(vmid, vcpus, overcommit, max).phase is LendHost,
    ensures
        overcommit,
        sum_of(s.lent_by_host(vmid, vcpus).vcpus) == sum_of(s.vcpus) + 1,
        sum_of(s.lent_by_host(vmid, vcpus).vcpus) <= max,
{
    assert(s.in_need(s.queue[s.at as int]));
    lemma_sum_with(s.vcpus, vmid, (vcpus + 1) as u32);
}

/// A loan that fails leaves no trace: neither when the donor cannot give, nor when the VM in
/// distress cannot take and the donor is given its vCPU back.
pub proof fn law_failed_loans_leave_no_trace(
    s: BalancerView,
    vmid: u32,
    vcpus: u32,
    donor: u32,
    donor_vcpus: u32,
)
    ensures
        s.on_lend_donor(vmid, vcpus, donor, donor_vcpus, false) == s.lending_on(),
        s.on_lend_donor(vmid, vcpus, donor, donor_vcpus, true).on_lend_borrower(
            vmid,
            vcpus,
            donor,
            donor_vcpus,
            false,
        ).lending_on() == s.lending_on(),
        pending(
            s.on_lend_borrower(vmid, vcpus, donor, donor_vcpus, false),
        ) == (Action::SetVcpus { vmid: donor, vcpus: donor_vcpus, purpose: Purpose::LendUndo }),
        s.on_lend_host(vmid, vcpus, false) == s.lending_on(),
{
}

/// A loan that is paid back is undone: both VMs have the vCPUs that they had, and nothing is owed.
pub proof fn law_repayment_undoes_the_loan(
    s: BalancerView,
    vmid: u32,
    vcpus: u32,
    donor: u32,
    donor_vcpus: u32,
)
    requires
        s.giving(vmid, vcpus, donor, donor_vcpus),
        s.tables_wf(),
        donor != 0,
        donor_vcpus <= s.limits[donor].max,
    ensures
        ({
            let lent = s.lent(vmid, vcpus, donor, donor_vcpus);
            let given = lent.on_repay_borrower(vmid, vcpus, donor, true);
            let back = given.on_repay_lender(vmid, true, donor, donor_vcpus, true);
            &&& lent.loans.contains_key(vmid)
            &&& lent.loans[vmid].vcpus_initial == vcpus
            &&& lent.loans[vmid].segments.last().preteur_id == donor
            &&& given.phase == (Phase::RepayLender {
                vmid,
                taken: true,
                lender: donor,
                vcpus: donor_vcpus,
            })
            &&& back.vcpus == s.vcpus
            &&& back.known == s.known.insert(donor, donor_vcpus).insert(vmid, vcpus)
            &&& back.loans == s.loans
        }),
{
    assert(s.in_need(s.queue[s.at as int]));
    let lent = s.lent(vmid, vcpus, donor, donor_vcpus);
    let given = lent.on_repay_borrower(vmid, vcpus, donor, true);
    let back = given.on_repay_lender(vmid, true, donor, donor_vcpus, true);
    lemma_first_is_single(s.loans, vmid, vcpus, donor);
    lemma_single_is_redeemed(vmid, lent.loans[vmid]);
    assert(back.vcpus =~= s.vcpus);
    assert(back.known =~= s.known.insert(donor, donor_vcpus).insert(vmid, vcpus));
    assert(back.loans =~= s.loans);
}

/// A repayment between VMs of the cycle creates no vCPU and ends the loan.
pub proof fn law_repayment_moves_one_vcpu(s: BalancerView, vmid: u32, vcpus: u32, lender: u32)
    requires
        s.wf(),
        s.phase == (Phase::RepayBorrower { vmid, vcpus, lender }),
        s.limits.contains_key(lender) || s.vcpus.contains_key(lender),
        s.on_repay_borrower(vmid, vcpus, lender, true).phase is RepayLender,
    ensures
        ({
            let given = s.on_repay_borrower(vmid, vcpus, lender, true);
            let back = given.on_repay_lender(
                vmid,
                true,
                lender,
                given.phase->RepayLender_vcpus,
                true,
            );
            &&& sum_of(back.vcpus) == sum_of(s.vcpus)
            &&& back.loans == s.loans.remove(vmid)
        }),
{
    let given = s.on_repay_borrower(vmid, vcpus, lender, true);
    let v = given.phase->RepayLender_vcpus;
    let back = given.on_repay_lender(vmid, true, lender, v, true);
    lemma_single_is_redeemed(vmid, s.loans[vmid]);
    assert(lender != vmid);
    lemma_sum_with(s.vcpus, vmid, vcpus);
    lemma_sum_with(s.vcpus.insert(vmid, vcpus), lender, v);
}

/// A repayment that the borrower could not make leaves the loan as it was.
pub proof fn law_failed_repayment_keeps_the_loan(
    s: BalancerView,
    vmid: u32,
    vcpus: u32,
    lender: u32,
    lender_vcpus: u32,
    done: bool,
)
    ensures
        s.on_repay_borrower(vmid, vcpus, lender, false).loans == s.loans,
        s.on_repay_lender(vmid, false, lender, lender_vcpus, done).loans == s.loans,
{
}

/// A VM gives back everything that it borrowed before it is asked to migrate, and it is asked only
/// after lasting distress and not while an earlier request is fresh.
pub proof fn law_loans_are_returned_before_migration(
    s: BalancerView,
    vmid: u32,
    ticks: u32,
    urgency: Urgency,
)
    requires
        s.wf(),
        pending(s) == (Action::SendMigrate { vmid, ticks, urgency }),
    ensures
        !s.loans.contains_key(vmid),
        ticks == s.states[vmid].distress_counter,
        ticks >= s.config.distress_before_migration,
        s.must_migrate(vmid),
{
}

/// Once a migration was asked for, the VM's distress is counted anew, and as long as the request
/// stands the VM neither lends nor borrows.
pub proof fn law_requested_vms_neither_lend_nor_borrow(s: BalancerView, vmid: u32)
    requires
        s.states.contains_key(vmid),
    ensures
        s.on_signal(vmid, true).states[vmid].distress_counter == 0,
        s.on_signal(vmid, true).leaving(vmid),
        s.leaving(vmid) ==> !s.in_need(vmid) && forall|other: u32| !s.may_lend(other, vmid),
{
}

/// A request to migrate stands until its cooldown is over, as long as the VM is remembered, and
/// until that time the VM is not asked again.
pub proof fn law_requests_stand_until_the_cooldown_is_over(
    pre: BalancerView,
    ev: Event,
    post: BalancerView,
    vmid: u32,
    since: u64,
)
    requires
        pre.wf(),
        follows(pre, ev, post),
        pre.states.contains_key(vmid),
        pre.states[vmid].migration == (MigrationStatus::Requested { since }),
        post.states.contains_key(vmid),
        !cooled_down(since, post.now_secs(), post.config.migration_cooldown_seconds),
    ensures
        post.states[vmid].migration == (MigrationStatus::Requested { since }),
        !post.must_migrate(vmid),
{
    lemma_request_lapses(pre, ev, post, vmid);
}

proof fn lemma_request_lapses(pre: BalancerView, ev: Event, post: BalancerView, vmid: u32)
    requires
        pre.wf(),
        follows(pre, ev, post),
        pre.states.contains_key(vmid),
        post.states.contains_key(vmid),
    ensures
        post.config == pre.config,
        pre.states[vmid].migration matches MigrationStatus::Requested { since } ==> (
        post.states[vmid].migration == pre.states[vmid].migration || cooled_down(
            since,
            post.now_secs(),
            post.config.migration_cooldown_seconds,
        )),
{
}

/// The events lead from each state to the next.
pub open spec fn is_run(states: Seq<BalancerView>, events: Seq<Event>) -> bool {
    &&& states.len() == events.len() + 1
    &&& states[0].wf()
    &&& forall|i: int|
        0 <= i < events.len() ==> follows(#[trigger] states[i], events[i], states[i + 1])
}

/// The clock does not go back, and every list of VMs that is asked for names the VM.
pub open spec fn stays_listed(states: Seq<BalancerView>, events: Seq<Event>, vmid: u32) -> bool {
    forall|i: int| #![trigger states[i], events[i]]
        0 <= i < events.len() ==> {
            &&& states[i].phase is Clock ==> (events[i] matches Event::Clock { now_ms } ==> now_ms
                >= states[i].start_ms)
            &&& states[i].phase is Listing ==> (events[i] matches Event::Vms { vmids }
                ==> vmids@.contains(vmid))
        }
}

/// The request of the second `since` stands, or its cooldown is over.
spec fn bound_by(s: BalancerView, vmid: u32, since: u64) -> bool {
    &&& s.wf()
    &&& s.present.contains(vmid)
    &&& s.states.contains_key(vmid)
    &&& s.states[vmid].migration == (MigrationStatus::Requested { since }) || s.now_secs() - since
        > s.config.migration_cooldown_seconds
}

proof fn lemma_step_stays_bound(
    pre: BalancerView,
    ev: Event,
    post: BalancerView,
    vmid: u32,
    since: u64,
)
    requires
        bound_by(pre, vmid, since),
        follows(pre, ev, post),
        pre.phase is Clock ==> (ev matches Event::Clock { now_ms } ==> now_ms >= pre.start_ms),
        pre.phase is Listing ==> (ev matches Event::Vms { vmids } ==> vmids@.contains(vmid)),
    ensures
        bound_by(post, vmid, since),
        post.config == pre.config,
{
    lemma_step_keeps_wf(pre, ev, post);
    lemma_keeps_listed_state(pre, ev, post, vmid);
    lemma_request_lapses(pre, ev, post, vmid);
}

proof fn lemma_keeps_listed_state(pre: BalancerView, ev: Event, post: BalancerView, vmid: u32)
    requires
        follows(pre, ev, post),
        pre.present.contains(vmid),
        pre.states.contains_key(vmid),
        pre.phase is Clock ==> (ev matches Event::Clock { now_ms } ==> now_ms >= pre.start_ms),
        pre.phase is Listing ==> (ev matches Event::Vms { vmids } ==> vmids@.contains(vmid)),
    ensures
        post.present.contains(vmid),
        post.states.contains_key(vmid),
        post.start_ms >= pre.start_ms,
{
}

proof fn lemma_run_stays_bound(
    states: Seq<BalancerView>,
    events: Seq<Event>,
    vmid: u32,
    since: u64,
    first: int,
    last: int,
)
    requires
        is_run(states, events),
        stays_listed(states, events, vmid),
        0 <= first <= last < states.len(),
        bound_by(states[first], vmid, since),
    ensures
        bound_by(states[last], vmid, since),
        states[last].config == states[first].config,
    decreases last - first,
{
    if first < last {
        lemma_run_stays_bound(states, events, vmid, since, first, last - 1);
        let i = last - 1;
        assert(follows(states[i], events[i], states[i + 1]));
        assert(states[i] == states[i] && events[i] == events[i]);
        lemma_step_stays_bound(states[i], events[i], states[i + 1], vmid, since);
    }
}

proof fn lemma_run_is_wf(states: Seq<BalancerView>, events: Seq<Event>, i: int)
    requires
        is_run(states, events),
        0 <= i < states.len(),
    ensures
        states[i].wf(),
    decreases i,
{
    if i > 0 {
        lemma_run_is_wf(states, events, i - 1);
        assert(follows(states[i - 1], events[i - 1], states[i - 1 + 1]));
        lemma_step_keeps_wf(states[i - 1], events[i - 1], states[i]);
    }
}

/// However long the agent runs, the cycles of two requests to migrate the same VM lie further apart
/// than the cooldown, where the first one was sent, the VM was listed all the time between them and
/// the clock did not go back.
pub proof fn law_requests_lie_further_apart_than_the_cooldown(
    states: Seq<BalancerView>,
    events: Seq<Event>,
    vmid: u32,
    first: int,
    second: int,
)
    requires
        is_run(states, events),
        stays_listed(states, events, vmid),
        0 <= first < second < states.len(),
        pending(states[first]) matches Action::SendMigrate { vmid: id, .. } && id == vmid,
        events[first] == (Event::Sent { done: true }),
        pending(states[second]) matches Action::SendMigrate { vmid: id, .. } && id == vmid,
    ensures
        states[second].now_secs() - states[first].now_secs()
            > states[first].config.migration_cooldown_seconds,
{
    let a = states[first];
    lemma_run_is_wf(states, events, first);
    assert(follows(a, events[first], states[first + 1]));
    let b = states[first + 1];
    lemma_step_keeps_wf(a, events[first], b);
    assert(b == a.on_signal(vmid, true));
    lemma_run_stays_bound(states, events, vmid, a.now_secs(), first + 1, second);
    assert(states[second].must_migrate(vmid));
}

/// The node is asked to be lightened exactly where more than one VM stays in distress, and for as
/// many as there are.
pub proof fn law_contention_lightens_the_node(pre: BalancerView, post: BalancerView)
    requires
        pre.phase is Pressure,
        follows(pre, Event::Done, post),
    ensures
        pending(post) is SendLighten <==> pre.lasting_distress() > 1,
        pending(post) is SendLighten ==> pending(post)->count == pre.lasting_distress(),
{
}

/// A borrower that leaves gives everything back: it goes back to what it had, a VM that lent to it
/// gets the vCPU back where it can, and the loan is over.
pub proof fn law_early_return_settles_the_loan(
    s: BalancerView,
    vmid: u32,
    lender: u32,
    resume: Resume,
)
    requires
        s.tables_wf(),
        s.loans.contains_key(vmid),
        s.loans[vmid].segments[0].preteur_id == lender,
    ensures
        ({
            let initial = s.loans[vmid].vcpus_initial;
            let begun = s.unwinding(vmid, resume);
            let freed = if begun.phase is ReturnBorrower {
                begun.on_return_borrower(vmid, resume, true)
            } else {
                begun
            };
            let sought = freed.on_return_segment(vmid, 0, resume);
            &&& begun.loans == s.loans.remove(vmid)
            &&& begun.phase is ReturnBorrower ==> pending(begun) == (Action::SetVcpus {
                vmid,
                vcpus: initial,
                purpose: Purpose::ReturnBorrower,
            })
            &&& entry_or(freed.known, vmid, 0) == initial
            &&& if s.refundable(lender, s.known_of(lender), 1) {
                let owned = (s.known[lender] + 1) as u32;
                let back = sought.on_return_lender(vmid, 0, owned, resume, true);
                &&& pending(sought) == (Action::SetVcpus {
                    vmid: lender,
                    vcpus: owned,
                    purpose: Purpose::ReturnLender,
                })
                &&& back.known == freed.known.insert(lender, owned)
                &&& back.loans == s.loans.remove(vmid)
                &&& back.on_return_segment(vmid, 1, resume) == back.resumed(vmid, resume)
            } else {
                &&& sought.known == freed.known
                &&& sought.loans == s.loans.remove(vmid)
                &&& sought.on_return_segment(vmid, 1, resume) == sought.resumed(vmid, resume)
            }
        }),
{
    assert(is_single(vmid, s.loans[vmid]));
}

/// While VMs are measured and balanced nothing is kept of a VM that is gone: neither a state nor a
/// loan.
pub proof fn law_vanished_vms_are_forgotten(s: BalancerView, id: u32)
    requires
        s.wf(),
        match s.phase {
            Phase::Clock
            | Phase::Listing
            | Phase::Profiling
            | Phase::Vanished
            | Phase::Resting { .. } => false,
            Phase::ReturnBorrower { resume, .. }
            | Phase::ReturnSegment { resume, .. }
            | Phase::ReturnLender { resume, .. } => resume is Migrating,
            _ => true,
        },
        !s.present.contains(id),
    ensures
        !s.states.contains_key(id),
        !s.loans.contains_key(id),
        !s.limits.contains_key(id),
        !s.averages.contains_key(id),
{
}

/// A VM whose vCPUs were changed is not measured in as many of the next cycles as the cooldown says,
/// nor in the next one in any case, and is measured again from then on.
pub proof fn law_changed_vms_rest_from_measures(s: BalancerView, id: u32, vcpus: u32, later: u64)
    requires
        s.states.contains_key(id),
        s.cycle > 0,
        later > s.cycle,
    ensures
        (BalancerView { cycle: later, ..s.vcpus_set(id, vcpus) }).due(id) <==> later - s.cycle
            > cycles_left_out(s.config.vcpu_change_cooldown_cycles),
        (BalancerView { cycle: later, ..s.known_set(id, vcpus) }).due(id) <==> later - s.cycle
            > cycles_left_out(s.config.vcpu_change_cooldown_cycles),
{
}

/// A VM whose vCPUs were changed in an earlier cycle takes part in no decision until its cooldown is
/// over: it neither lends nor borrows, and is not asked to migrate.
pub proof fn law_cooling_vms_are_left_alone(s: BalancerView, id: u32)
    requires
        s.wf(),
        !s.due(id),
        s.states[id].vcpus_changed_at != s.cycle,
    ensures
        !s.averages.contains_key(id),
        !s.in_need(id),
        !s.must_migrate(id),
        forall|other: u32| !s.may_lend(other, id),
{
}

/// A measure of a VM that does not take part or is not due does not count.
pub proof fn law_measures_out_of_turn_do_not_count(pre: BalancerView, post: BalancerView)
    requires
        pre.phase is Recording,
        follows(pre, Event::Done, post),
        pre.at < pre.metrics.len(),
        ({
            let id = pre.metrics[pre.at as int].vmid;
            !pre.limits.contains_key(id) || !pre.due(id)
        }),
    ensures
        post == (BalancerView { at: pre.at + 1, ..pre }),
{
}

/// A measure that was taken before the cycle began does not count.
pub proof fn law_stale_measures_do_not_count(s: BalancerView, m: VMMetric)
    requires
        m.ts_ms < s.start_ms,
        s.states.contains_key(m.vmid),
    ensures
        s.measured(m) == s.states[m.vmid],
{
}

/// `ev` answers the work that is waited for.
pub open spec fn answers(a: Action, ev: Event) -> bool {
    match a {
        Action::ReadClock => ev is Clock,
        Action::ListVms => ev is Vms,
        Action::ReadProfile { .. } => ev is Profile,
        Action::Measure => ev is Measures,
        Action::Average { .. } => ev is Average,
        Action::SetVcpus { .. } => ev is Applied,
        Action::ReadCores { .. } => ev is Cores,
        Action::ReadHost => ev is Host,
        Action::SendMigrate { .. } | Action::SendLighten { .. } => ev is Sent,
        Action::Show | Action::Rest { .. } | Action::Proceed => ev is Done,
    }
}

/// What does not answer the work that is waited for changes nothing.
pub proof fn law_other_events_change_nothing(pre: BalancerView, ev: Event, post: BalancerView)
    requires
        follows(pre, ev, post),
        !answers(pending(pre), ev),
    ensures
        post == pre,
{
}

/// How many parts of the cycle are still to come.
pub open spec fn parts_left(s: BalancerView) -> nat {
    match s.phase {
        Phase::Clock => 13,
        Phase::Listing => 12,
        Phase::Profiling => 11,
        Phase::Vanished => 10,
        Phase::ReturnBorrower { resume, .. }
        | Phase::ReturnSegment { resume, .. }
        | Phase::ReturnLender { resume, .. } => match resume {
            Resume::Vanished => 10,
            Resume::Migrating { .. } => 2,
        },
        Phase::Measuring => 9,
        Phase::Recording | Phase::Averaging { .. } => 8,
        Phase::Ticking => 7,
        Phase::Showing => 6,
        Phase::Repaying | Phase::RepayBorrower { .. } | Phase::RepayLender { .. } => 5,
        Phase::Cores => 4,
        Phase::Lending
        | Phase::LendDonor { .. }
        | Phase::LendBorrower { .. }
        | Phase::LendUndo { .. }
        | Phase::Hosting { .. }
        | Phase::LendHost { .. } => 3,
        Phase::Migrating | Phase::Signalling { .. } => 2,
        Phase::Pressure | Phase::Lightening { .. } => 1,
        Phase::Resting { .. } => 0,
    }
}

/// How many VMs or measures this part of the cycle still has to go through.
pub open spec fn turns_left(s: BalancerView) -> int {
    match s.phase {
        Phase::Cores => s.active.len() - s.at,
        Phase::Recording | Phase::Averaging { .. } => s.metrics.len() - s.at,
        Phase::Profiling
        | Phase::Vanished
        | Phase::ReturnBorrower { .. }
        | Phase::ReturnSegment { .. }
        | Phase::ReturnLender { .. }
        | Phase::Ticking
        | Phase::Repaying
        | Phase::RepayBorrower { .. }
        | Phase::RepayLender { .. }
        | Phase::Lending
        | Phase::LendDonor { .. }
        | Phase::LendBorrower { .. }
        | Phase::LendUndo { .. }
        | Phase::Hosting { .. }
        | Phase::LendHost { .. }
        | Phase::Migrating
        | Phase::Signalling { .. } => s.queue.len() - s.at,
        _ => 0,
    }
}

/// How many answers the turn at hand still takes at most.
pub open spec fn answers_left(s: BalancerView) -> int {
    match s.phase {
        Phase::ReturnBorrower { .. } => 2 * (s.returning.segments.len() as int) + 3,
        Phase::ReturnSegment { segment, .. } => 2 * (s.returning.segments.len() - segment) + 2,
        Phase::ReturnLender { segment, .. } => 2 * (s.returning.segments.len() - segment) + 1,
        Phase::Signalling { .. } => 1,
        Phase::Recording | Phase::Repaying => 3,
        Phase::RepayBorrower { .. } => 2,
        Phase::RepayLender { .. } => 1,
        Phase::Averaging { .. } => 1,
        Phase::Lending => 4,
        Phase::LendDonor { .. } => 3,
        Phase::LendBorrower { .. } => 2,
        Phase::LendUndo { .. } => 1,
        Phase::Hosting { .. } => 2,
        Phase::LendHost { .. } => 1,
        Phase::Pressure => 1,
        _ => 0,
    }
}

/// A cycle ends: every answer brings it nearer to its rest. Either a part of the cycle is done, or
/// within it one turn, or within that turn one answer.
pub proof fn law_cycles_end(pre: BalancerView, ev: Event, post: BalancerView)
    requires
        pre.wf(),
        follows(pre, ev, post),
        answers(pending(pre), ev),
        !(pre.phase is Resting),
    ensures
        0 <= turns_left(post),
        0 <= answers_left(post),
        parts_left(post) < parts_left(pre) || (parts_left(post) == parts_left(pre) && (turns_left(
            post,
        ) < turns_left(pre) || (turns_left(post) == turns_left(pre) && answers_left(post)
            < answers_left(pre)))),
{
    lemma_step_keeps_wf(pre, ev, post);
}

} // verus!
