//! The balancer: it tells what is to be done next and goes on from what came of it.

use vstd::prelude::*;
use std::collections::{HashMap, HashSet};
use crate::config::AppConfig;
use crate::display::vm_line;
use crate::load::{Load, FULL_BITS, IDLE_BITS};
use crate::loan::Loan;
#[allow(unused_imports)]
use crate::loan::{owed, repaid};
use crate::logger::log_sep;
use crate::machine::{Action, BalancerView, Cause, Event, Phase, Probe, Purpose, Resume, VMMetric};
#[allow(unused_imports)]
use crate::machine::{
    borrowed, follows, in_order, is_listing, lemma_in_order, lemma_single_is_redeemed,
    lemma_step_keeps_wf, pending, sum_of,
};
#[allow(unused_imports)]
use crate::proxmox::{ascending, low32};
use crate::proxmox::insert_sorted;
use crate::remarks::Remark;
#[allow(unused_imports)]
use crate::remarks::{
    annuls, are_most, distress_remark, intent_text, lemma_most_measures, most_measures,
    outcome_text, refusal, remark_on,
};
use crate::signals::Urgency;
use crate::tables::{
    both, get_or, keep, names, put_loan, put_state, take_loan, take_state, total, touch,
};
#[allow(unused_imports)]
use crate::tables::{lemma_picks_all, lemma_picks_next, loans_view, picks, states_view};
use crate::text::decimal;
#[allow(unused_imports)]
use crate::text::{opt_string, texts};
use crate::vm_recognizer::Standing;
use crate::vm_state::{one_more, Limits, MigrationStatus, VMState};
#[allow(unused_imports)]
use crate::vm_state::VMStateView;

verus! {

broadcast use vstd::std_specs::hash::group_hash_axioms;

/// The agent's memory and where in its cycle it stands.
#[derive(Debug)]
pub struct Balancer {
    config: AppConfig,
    cycle: u64,
    start_ms: u64,
    present: HashSet<u32>,
    opted_out: HashSet<u32>,
    limits: HashMap<u32, Limits>,
    active: Vec<u32>,
    states: HashMap<u32, VMState>,
    loans: HashMap<u32, Loan>,
    known: HashMap<u32, u32>,
    vcpus: HashMap<u32, u32>,
    averages: HashMap<u32, Load>,
    cores: HashMap<u32, u32>,
    metrics: Vec<VMMetric>,
    queue: Vec<u32>,
    at: usize,
    returning: Loan,
    phase: Phase,
}

impl View for Balancer {
    type V = BalancerView;

    closed spec fn view(&self) -> BalancerView {
        BalancerView {
            config: self.config,
            cycle: self.cycle,
            start_ms: self.start_ms,
            present: self.present@,
            opted_out: self.opted_out@,
            limits: self.limits@,
            active: self.active@,
            states: states_view(self.states@),
            loans: loans_view(self.loans@),
            known: self.known@,
            vcpus: self.vcpus@,
            averages: self.averages@,
            cores: self.cores@,
            metrics: self.metrics@,
            queue: self.queue@,
            at: self.at as nat,
            returning: self.returning@,
            phase: self.phase,
        }
    }
}

impl Balancer {
    /// A balancer that knows nothing yet.
    pub fn new(config: AppConfig) -> (r: Balancer)
        ensures
            r@ == BalancerView::initial(config),
            r@.wf(),
    {
        let r: Balancer = Balancer {
            config,
            cycle: 0,
            start_ms: 0,
            present: HashSet::new(),
            opted_out: HashSet::new(),
            limits: HashMap::new(),
            active: Vec::new(),
            states: HashMap::new(),
            loans: HashMap::new(),
            known: HashMap::new(),
            vcpus: HashMap::new(),
            averages: HashMap::new(),
            cores: HashMap::new(),
            metrics: Vec::new(),
            queue: Vec::new(),
            at: 0,
            returning: Loan::new(0),
            phase: Phase::Clock,
        };
        proof {
            assert(r@.states =~= Map::empty());
            assert(r@.loans =~= Map::empty());
            assert(r@.active =~= Seq::empty());
            assert(r@.metrics =~= Seq::empty());
            assert(r@.queue =~= Seq::empty());
            assert(r@ == BalancerView::initial(config));
        }
        r
    }

    fn on_clock(&mut self, now_ms: u64)
        ensures
            final(self)@ == old(self)@.on_clock(now_ms),
    {
        self.cycle = self.cycle.wrapping_add(1);
        self.start_ms = now_ms;
        self.averages = HashMap::new();
        self.phase = Phase::Listing;
    }

    fn on_vms(&mut self, vmids: Vec<u32>)
        ensures
            final(self)@ == old(self)@.on_vms(vmids@),
    {
        if vmids.len() == 0 {
            self.phase = Phase::Resting { seconds: 5, cause: Cause::NoVms };
            return ;
        }
        let mut present: HashSet<u32> = HashSet::new();
        let mut i: usize = 0;
        while i < vmids.len()
            invariant
                i <= vmids@.len(),
                present@ == vmids@.take(i as int).to_set(),
            decreases vmids@.len() - i,
        {
            present.insert(vmids[i]);
            proof {
                assert(vmids@.take(i + 1) =~= vmids@.take(i as int).push(vmids@[i as int]));
                assert(present@ =~= vmids@.take(i + 1).to_set()) by {
                    vmids@.take(i as int).lemma_push_to_set_commute(vmids@[i as int]);
                }
            }
            i = i + 1;
        }
        assert(vmids@.take(i as int) =~= vmids@);
        self.opted_out = both(&self.opted_out, &present);
        self.present = present;
        self.limits = HashMap::new();
        self.active = Vec::new();
        self.vcpus = HashMap::new();
        self.averages = HashMap::new();
        self.queue = vmids;
        self.at = 0;
        self.phase = Phase::Profiling;
        assert(self@.active =~= Seq::empty());
    }

    fn on_profile(&mut self, standing: Standing)
        requires
            old(self)@.at < old(self)@.queue.len(),
        ensures
            old(self)@.on_profile(standing, final(self)@),
    {
        let n: usize = self.queue.len();
        let id: u32 = self.queue[self.at];
        match standing {
            Standing::Unread => {},
            Standing::OptedOut => {
                if !self.limits.contains_key(&id) {
                    self.opted_out.insert(id);
                }
            },
            Standing::NoProfile => {
                self.opted_out.remove(&id);
            },
            Standing::Active { limits } => {
                self.opted_out.remove(&id);
                self.limits.insert(id, limits);
                self.active.push(id);
            },
        }
        self.at = self.at + 1;
        assert(self@ == old(self)@.with_standing(standing));
        if self.at < n {
            return ;
        }
        if self.active.len() == 0 {
            self.phase = Phase::Resting {
                seconds: self.config.check_interval,
                cause: Cause::NoProfiles,
            };
            return ;
        }
        keep(&mut self.known, &self.present);
        self.queue = self.vanished();
        self.at = 0;
        self.phase = Phase::Vanished;
    }

    /// The VMs that owe and are gone.
    fn vanished(&self) -> (r: Vec<u32>)
        ensures
            is_listing(r@, self@.loans.dom().difference(self@.present)),
    {
        let all: Vec<u32> = names(&self.loans);
        let ghost gone = self.present@.complement();
        let mut out: Vec<u32> = Vec::new();
        let mut i: usize = 0;
        while i < all.len()
            invariant
                i <= all@.len(),
                is_listing(all@, self.loans@.dom()),
                gone == self.present@.complement(),
                picks(out@, all@.take(i as int), gone),
            decreases all@.len() - i,
        {
            let id: u32 = all[i];
            proof {
                lemma_picks_next(out@, all@, i as int, gone, out@.len() as int);
                assert(out@.insert(out@.len() as int, id) =~= out@.push(id));
            }
            if !self.present.contains(&id) {
                out.push(id);
            }
            i = i + 1;
        }
        proof {
            lemma_picks_all(out@, all@, i as int, self.loans@.dom(), gone);
            assert(self.loans@.dom().intersect(gone) =~= self@.loans.dom().difference(
                self@.present,
            ));
        }
        out
    }

    /// A borrower has given everything back.
    fn resume(&mut self, vmid: u32, resume: Resume)
        ensures
            final(self)@ == old(self)@.resumed(vmid, resume),
    {
        self.phase = match resume {
            Resume::Vanished => Phase::Vanished,
            Resume::Migrating { ticks } => Phase::Signalling { vmid, ticks },
        };
    }

    /// A borrower is to give everything back.
    fn unwind(&mut self, vmid: u32, resume: Resume)
        ensures
            final(self)@ == old(self)@.unwinding(vmid, resume),
    {
        match take_loan(&mut self.loans, vmid) {
            None => {
                assert(self@.loans =~= old(self)@.loans);
                self.resume(vmid, resume);
            },
            Some(loan) => {
                self.phase = if get_or(&self.known, vmid, 0) != loan.vcpus_initial {
                    Phase::ReturnBorrower { vmid, resume }
                } else {
                    Phase::ReturnSegment { vmid, segment: 0, resume }
                };
                self.returning = loan;
            },
        }
    }

    fn on_vanished(&mut self)
        requires
            old(self)@.at <= old(self)@.queue.len(),
        ensures
            final(self)@ == old(self)@.on_vanished(),
    {
        if self.at < self.queue.len() {
            let vmid: u32 = self.queue[self.at];
            self.at = self.at + 1;
            self.unwind(vmid, Resume::Vanished);
        } else {
            keep(&mut self.states, &self.present);
            self.phase = Phase::Measuring;
            assert(self@.states =~= old(self)@.states.restrict(self@.present));
        }
    }

    fn set_known(&mut self, id: u32, vcpus: u32)
        ensures
            final(self)@ == old(self)@.known_set(id, vcpus),
    {
        self.known.insert(id, vcpus);
        touch(&mut self.states, id, self.cycle);
    }

    fn set_vcpus(&mut self, id: u32, vcpus: u32)
        ensures
            final(self)@ == old(self)@.vcpus_set(id, vcpus),
    {
        self.vcpus.insert(id, vcpus);
        self.known.insert(id, vcpus);
        touch(&mut self.states, id, self.cycle);
    }

    fn on_return_borrower(&mut self, vmid: u32, resume: Resume, done: bool)
        ensures
            final(self)@ == old(self)@.on_return_borrower(vmid, resume, done),
    {
        if done {
            self.set_known(vmid, self.returning.vcpus_initial);
        }
        self.phase = Phase::ReturnSegment { vmid, segment: 0, resume };
    }

    /// The vCPUs of a VM as last set or read.
    fn known_of(&self, id: u32) -> (r: Option<u32>)
        ensures
            r == self@.known_of(id),
    {
        match self.known.get(&id) {
            Some(v) => Some(*v),
            None => None,
        }
    }

    /// The vCPUs of a VM in this cycle, else as last set or read.
    fn count_of(&self, id: u32) -> (r: Option<u32>)
        ensures
            r == self@.count_of(id),
    {
        match self.vcpus.get(&id) {
            Some(v) => Some(*v),
            None => self.known_of(id),
        }
    }

    /// What a creditor has once it got `nb` vCPUs back, where it can get them.
    fn refund(&self, id: u32, count: Option<u32>, nb: u32) -> (r: Option<u32>)
        ensures
            match r {
                Some(vcpus) => self@.refundable(id, count, nb) && vcpus == count->0 + nb,
                None => !self@.refundable(id, count, nb),
            },
    {
        if id == 0 || nb == 0 || !self.present.contains(&id) || self.opted_out.contains(&id) {
            return None;
        }
        match (count, self.limits.get(&id)) {
            (Some(v), Some(limits)) => {
                if v <= limits.max && nb <= limits.max - v && limits.min <= v + nb {
                    Some(v + nb)
                } else {
                    None
                }
            },
            (Some(v), None) => v.checked_add(nb),
            (None, _) => None,
        }
    }

    fn on_return_segment(&mut self, vmid: u32, segment: usize, resume: Resume)
        ensures
            final(self)@ == old(self)@.on_return_segment(vmid, segment, resume),
    {
        if segment >= self.returning.segments.len() {
            self.resume(vmid, resume);
            return ;
        }
        let lender: u32 = self.returning.segments[segment].preteur_id;
        let nb: u32 = self.returning.segments[segment].nb_empruntes;
        let count: Option<u32> = self.known_of(lender);
        self.phase = match self.refund(lender, count, nb) {
            Some(vcpus) => Phase::ReturnLender { vmid, segment, vcpus, resume },
            None => Phase::ReturnSegment { vmid, segment: segment + 1, resume },
        };
    }

    fn on_return_lender(
        &mut self,
        vmid: u32,
        segment: usize,
        vcpus: u32,
        resume: Resume,
        done: bool,
    )
        requires
            segment < old(self)@.returning.segments.len(),
        ensures
            final(self)@ == old(self)@.on_return_lender(vmid, segment, vcpus, resume, done),
    {
        let n: usize = self.returning.segments.len();
        assert(segment < n);
        if done {
            self.set_known(self.returning.segments[segment].preteur_id, vcpus);
        }
        self.phase = Phase::ReturnSegment { vmid, segment: segment + 1, resume };
    }

    fn on_measures(&mut self, metrics: Vec<VMMetric>)
        ensures
            final(self)@ == old(self)@.on_measures(metrics@),
    {
        self.metrics = metrics;
        self.at = 0;
        self.vcpus = HashMap::new();
        self.averages = HashMap::new();
        self.phase = Phase::Recording;
    }

    /// Takes the vCPUs of the VMs that were not measured from what was last known.
    fn fill(&mut self)
        ensures
            final(self)@ == (BalancerView { vcpus: old(self)@.filled(), ..old(self)@ }),
    {
        let mut i: usize = 0;
        while i < self.active.len()
            invariant
                i <= self.active@.len(),
                self@ == (BalancerView { vcpus: self@.vcpus, ..old(self)@ }),
                forall|id: u32| #[trigger]
                    self@.vcpus.contains_key(id) <==> old(self)@.vcpus.contains_key(id) || (
                    self@.active.take(i as int).contains(id) && self@.known.contains_key(id)),
                forall|id: u32| #[trigger]
                    self@.vcpus.contains_key(id) ==> self@.vcpus[id] == (
                    if old(self)@.vcpus.contains_key(id) {
                        old(self)@.vcpus[id]
                    } else {
                        self@.known[id]
                    }),
            decreases self.active@.len() - i,
        {
            let id: u32 = self.active[i];
            let ghost before = self@.active.take(i as int);
            let ghost after = self@.active.take(i + 1);
            proof {
                assert(after =~= before.push(id));
                assert forall|k: u32| after.contains(k) <==> before.contains(k) || k == id by {
                    if before.contains(k) {
                        let j = choose|j: int| 0 <= j < before.len() && before[j] == k;
                        assert(after[j] == k);
                    }
                    if k == id {
                        assert(after[i as int] == k);
                    }
                }
            }
            if !self.vcpus.contains_key(&id) {
                if let Some(v) = self.known.get(&id) {
                    self.vcpus.insert(id, *v);
                }
            }
            i = i + 1;
        }
        proof {
            assert(self@.active.take(i as int) =~= self@.active);
            assert(self@.vcpus =~= old(self)@.filled());
        }
    }

    fn on_record(&mut self)
        ensures
            old(self)@.on_record(final(self)@),
    {
        let n: usize = self.metrics.len();
        if self.at >= n {
            self.fill();
            let all: Vec<u32> = names(&self.averages);
            if all.len() == 0 {
                proof {
                    assert forall|id: u32| !self@.averages.dom().contains(id) by {
                        assert(!all@.contains(id));
                    }
                    assert(self@.averages.dom() =~= Set::empty());
                }
                self.phase = Phase::Resting {
                    seconds: self.config.check_interval,
                    cause: Cause::Accumulating,
                };
            } else {
                proof {
                    assert(all@.contains(all@[0]));
                    assert(self@.averages.dom().contains(all@[0]));
                }
                self.queue = all;
                self.at = 0;
                self.phase = Phase::Ticking;
            }
            return ;
        }
        let m: VMMetric = self.metrics[self.at];
        if !self.limits.contains_key(&m.vmid) || !self.due(m.vmid) {
            self.at = self.at + 1;
            return ;
        }
        self.known.insert(m.vmid, m.vcpus);
        self.vcpus.insert(m.vmid, m.vcpus);
        let mut st: VMState = match take_state(&mut self.states, m.vmid) {
            Some(st) => st,
            None => VMState::new(self.config.window_size),
        };
        let _ = st.push(m.usage, m.ts_ms, self.config.window_size, self.start_ms);
        assert(st@ == old(self)@.measured(m));
        let averaged: bool = st.ready(self.config.min_samples_before_action) && st.history.len()
            > 0;
        put_state(&mut self.states, m.vmid, st);
        assert(self@.states =~= old(self)@.states.insert(m.vmid, old(self)@.measured(m)));
        if averaged {
            self.phase = Phase::Averaging { vmid: m.vmid };
        } else {
            self.at = self.at + 1;
        }
    }

    fn on_average(&mut self, vmid: u32, load: Load)
        requires
            old(self)@.at < old(self)@.metrics.len(),
        ensures
            final(self)@ == old(self)@.on_average(vmid, load),
    {
        let n: usize = self.metrics.len();
        assert(self.at < n);
        self.averages.insert(vmid, load);
        self.at = self.at + 1;
        self.phase = Phase::Recording;
    }

    fn on_tick(&mut self)
        requires
            old(self)@.wf(),
            old(self)@.phase is Ticking,
        ensures
            final(self)@ == old(self)@.on_tick(),
    {
        let n: usize = self.queue.len();
        if self.at >= n {
            self.phase = Phase::Showing;
            return ;
        }
        let id: u32 = self.queue[self.at];
        let now_secs: u64 = self.start_ms / 1000;
        let has_loan: bool = self.loans.contains_key(&id);
        assert(self@.averages.contains_key(id));
        if let Some(limits) = self.limits.get(&id) {
            if let Some(avg) = self.averages.get(&id) {
                let limits: Limits = *limits;
                let avg: Load = *avg;
                let vcpus: u32 = get_or(&self.vcpus, id, limits.min);
                if let Some(st) = take_state(&mut self.states, id) {
                    let mut st: VMState = st;
                    st.tick(avg, vcpus, limits, has_loan, &self.config, now_secs);
                    put_state(&mut self.states, id, st);
                }
            }
        }
        self.at = self.at + 1;
        assert(self@.states =~= old(self)@.on_tick().states);
    }

    fn on_show(&mut self)
        ensures
            old(self)@.on_show(final(self)@),
    {
        self.queue = names(&self.loans);
        self.at = 0;
        self.phase = Phase::Repaying;
        assert(self@.loans.dom() =~= self.loans@.dom());
    }

    /// For how many cycles a VM has been at rest.
    fn low_of(&self, id: u32) -> (r: u32)
        ensures
            r == self@.low_of(id),
    {
        match self.states.get(&id) {
            Some(s) => s.low_counter,
            None => 0,
        }
    }

    /// For how many cycles a VM has been in distress.
    fn distress_of(&self, id: u32) -> (r: u32)
        ensures
            r == self@.distress_of(id),
    {
        match self.states.get(&id) {
            Some(s) => s.distress_counter,
            None => 0,
        }
    }

    /// Tells whether a migration of the VM has been asked for.
    fn leaving(&self, id: u32) -> (r: bool)
        ensures
            r == self@.leaving(id),
    {
        match self.states.get(&id) {
            Some(s) => s.migration_requested(),
            None => false,
        }
    }

    fn on_repay(&mut self)
        requires
            old(self)@.wf(),
            old(self)@.phase is Repaying,
        ensures
            final(self)@ == old(self)@.on_repay(),
    {
        let n: usize = self.queue.len();
        if self.at >= n {
            self.cores = HashMap::new();
            self.at = 0;
            self.phase = Phase::Cores;
            return ;
        }
        let id: u32 = self.queue[self.at];
        let low: u32 = self.low_of(id);
        let vcpus: u32 = get_or(&self.vcpus, id, 0);
        let (owed, initial, lender): (u32, u32, u32) = match self.loans.get(&id) {
            None => {
                self.at = self.at + 1;
                return ;
            },
            Some(loan) => {
                assert(loan@ == self@.loans[id]);
                proof {
                    lemma_single_is_redeemed(id, loan@);
                }
                let last: usize = loan.segments.len() - 1;
                (loan.total_empruntes(), loan.vcpus_initial, loan.segments[last].preteur_id)
            },
        };
        if owed == 0 {
            let _ = take_loan(&mut self.loans, id);
            self.at = self.at + 1;
        } else if (low as usize) < self.config.duree_avant_action {
            self.at = self.at + 1;
        } else if vcpus <= initial {
            let _ = take_loan(&mut self.loans, id);
            self.at = self.at + 1;
        } else {
            self.phase = Phase::RepayBorrower { vmid: id, vcpus: vcpus - 1, lender };
        }
    }

    /// A repayment is over.
    fn settle(&mut self, vmid: u32, taken: bool)
        requires
            old(self)@.at < old(self)@.queue.len(),
            old(self)@.loans_wf(),
        ensures
            final(self)@ == old(self)@.settled(vmid, taken),
    {
        let n: usize = self.queue.len();
        assert(self.at < n);
        if taken {
            match take_loan(&mut self.loans, vmid) {
                Some(loan) => {
                    let mut loan: Loan = loan;
                    proof {
                        lemma_single_is_redeemed(vmid, loan@);
                    }
                    let _ = loan.retirer_un();
                    if loan.total_empruntes() > 0 {
                        put_loan(&mut self.loans, vmid, loan);
                    }
                },
                None => {},
            }
            assert(self@.loans =~= old(self)@.settled(vmid, taken).loans);
            match take_state(&mut self.states, vmid) {
                Some(s) => {
                    let mut s: VMState = s;
                    s.low_counter = 0;
                    put_state(&mut self.states, vmid, s);
                },
                None => {},
            }
            assert(self@.states =~= old(self)@.settled(vmid, taken).states);
        }
        self.at = self.at + 1;
        self.phase = Phase::Repaying;
    }

    fn on_repay_borrower(&mut self, vmid: u32, vcpus: u32, lender: u32, done: bool)
        requires
            old(self)@.at < old(self)@.queue.len(),
            old(self)@.loans_wf(),
        ensures
            final(self)@ == old(self)@.on_repay_borrower(vmid, vcpus, lender, done),
    {
        if done {
            self.set_vcpus(vmid, vcpus);
        }
        let count: Option<u32> = self.count_of(lender);
        match self.refund(lender, count, 1) {
            Some(back) => {
                self.phase = Phase::RepayLender { vmid, taken: done, lender, vcpus: back };
            },
            None => {
                self.settle(vmid, done);
            },
        }
    }

    fn on_repay_lender(&mut self, vmid: u32, taken: bool, lender: u32, vcpus: u32, done: bool)
        requires
            old(self)@.at < old(self)@.queue.len(),
            old(self)@.loans_wf(),
        ensures
            final(self)@ == old(self)@.on_repay_lender(vmid, taken, lender, vcpus, done),
    {
        if done {
            self.set_vcpus(lender, vcpus);
        }
        self.settle(vmid, taken);
    }

    /// The ceiling of a VM's hardware.
    fn cores_of(&self, id: u32) -> (r: u32)
        ensures
            r == self@.cores_of(id),
    {
        get_or(&self.cores, id, 1)
    }

    /// The average load of a VM, the load one where there is none.
    fn load_or_full(&self, id: u32) -> (r: Load)
        ensures
            r == self@.load_or_full(id),
    {
        match self.averages.get(&id) {
            Some(l) => *l,
            None => Load::from_bits(FULL_BITS),
        }
    }

    /// Tells whether a VM may borrow.
    fn may_borrow(&self, id: u32) -> (r: bool)
        requires
            self@.tables_wf(),
        ensures
            r == self@.may_borrow(id),
    {
        match (self.averages.get(&id), self.limits.get(&id), self.states.get(&id)) {
            (Some(avg), Some(limits), Some(state)) => {
                let vcpus: u32 = get_or(&self.vcpus, id, limits.min);
                self.config.seuil_detresse.at_most(*avg) && state.measures_over(
                    self.config.seuil_detresse,
                ) >= self.config.min_samples_before_action && vcpus < limits.max && vcpus
                    < self.cores_of(id) && self.distress_of(id) as usize
                    >= self.config.duree_avant_action && !self.leaving(id)
                    && !self.loans.contains_key(&id)
            },
            _ => {
                assert(!self@.averages.contains_key(id));
                false
            },
        }
    }

    /// Tells whether `a` is in more distress than `b`.
    fn before(&self, a: u32, b: u32) -> (r: bool)
        requires
            self@.averages.contains_key(a),
            self@.averages.contains_key(b),
        ensures
            r == self@.before(a, b),
    {
        let la: Load = self.load_or_full(a);
        let lb: Load = self.load_or_full(b);
        lb.below(la) || (la == lb && a < b)
    }

    /// The VMs that may borrow, the one in most distress first.
    fn borrowers(&self) -> (r: Vec<u32>)
        requires
            self@.tables_wf(),
        ensures
            is_listing(r@, self@.borrowers()),
            self@.by_distress(r@),
    {
        let all: Vec<u32> = names(&self.averages);
        let mut out: Vec<u32> = Vec::new();
        let mut i: usize = 0;
        while i < all.len()
            invariant
                i <= all@.len(),
                self@.tables_wf(),
                is_listing(all@, self@.averages.dom()),
                picks(out@, all@.take(i as int), self@.borrowers()),
                self@.by_distress(out@),
            decreases all@.len() - i,
        {
            let id: u32 = all[i];
            if self.may_borrow(id) {
                let mut pos: usize = 0;
                let ghost listed = out@;
                proof {
                    assert forall|j: int| 0 <= j < listed.len() implies self@.may_borrow(
                        #[trigger] listed[j],
                    ) by {
                        assert(listed.contains(listed[j]));
                        assert(self@.borrowers().contains(listed[j]));
                    }
                }
                while pos < out.len() && self.before(out[pos], id)
                    invariant
                        pos <= out@.len(),
                        out@ == listed,
                        self@.averages.contains_key(id),
                        forall|j: int|
                            0 <= j < listed.len() ==> self@.may_borrow(#[trigger] listed[j]),
                        forall|j: int| 0 <= j < pos ==> self@.before(#[trigger] listed[j], id),
                    decreases out@.len() - pos,
                {
                    pos = pos + 1;
                }
                proof {
                    lemma_picks_next(listed, all@, i as int, self@.borrowers(), pos as int);
                }
                out.insert(pos, id);
            } else {
                proof {
                    lemma_picks_next(out@, all@, i as int, self@.borrowers(), 0);
                }
            }
            i = i + 1;
        }
        proof {
            lemma_picks_all(out@, all@, i as int, self@.averages.dom(), self@.borrowers());
            assert(self@.averages.dom().intersect(self@.borrowers()) =~= self@.borrowers());
        }
        out
    }

    fn on_cores(&mut self, max: u32)
        requires
            old(self)@.wf(),
            old(self)@.phase is Cores,
        ensures
            old(self)@.on_cores(max, final(self)@),
    {
        let n: usize = self.active.len();
        let id: u32 = self.active[self.at];
        self.cores.insert(id, max);
        self.at = self.at + 1;
        if self.at < n {
            return ;
        }
        assert(self@ == (BalancerView { cores: self@.cores, at: self@.at, ..old(self)@ }));
        self.queue = self.borrowers();
        self.at = 0;
        self.phase = Phase::Lending;
    }

    /// Tells whether a VM may lend to `vmid`.
    fn may_lend(&self, vmid: u32, id: u32) -> (r: bool)
        ensures
            r == self@.may_lend(vmid, id),
    {
        match (self.vcpus.get(&id), self.limits.get(&id)) {
            (Some(vcpus), Some(limits)) => id != vmid && !self.loans.contains_key(&id)
                && !self.leaving(id) && (self.averages.contains_key(&id) || self.due(id)) && *vcpus
                > limits.min && self.load_or_full(id).at_most(self.config.seuil_donneuse)
                && self.low_of(id) as usize >= self.config.duree_avant_action,
            _ => false,
        }
    }

    /// The VM with the lowest load of those that may lend to `vmid`.
    fn best_donor(&self, vmid: u32) -> (r: Option<u32>)
        ensures
            match r {
                Some(id) => self@.best_donor(vmid, id),
                None => forall|id: u32| !self@.may_lend(vmid, id),
            },
    {
        let all: Vec<u32> = names(&self.vcpus);
        let mut best: Option<u32> = None;
        let mut i: usize = 0;
        while i < all.len()
            invariant
                i <= all@.len(),
                is_listing(all@, self@.vcpus.dom()),
                match best {
                    Some(b) => self@.may_lend(vmid, b) && forall|j: int|
                        0 <= j < i && self@.may_lend(vmid, #[trigger] all@[j])
                            ==> self@.load_or_full(b).lt(self@.load_or_full(all@[j])) || (
                        self@.load_or_full(b) == self@.load_or_full(all@[j]) && b <= all@[j]),
                    None => forall|j: int|
                        0 <= j < i ==> !self@.may_lend(vmid, #[trigger] all@[j]),
                },
            decreases all@.len() - i,
        {
            let id: u32 = all[i];
            if self.may_lend(vmid, id) {
                best = match best {
                    None => Some(id),
                    Some(b) => {
                        let lb: Load = self.load_or_full(b);
                        let li: Load = self.load_or_full(id);
                        if li.below(lb) || (li == lb && id < b) {
                            Some(id)
                        } else {
                            Some(b)
                        }
                    },
                };
            }
            i = i + 1;
        }
        proof {
            assert forall|id: u32| self@.may_lend(vmid, id) implies exists|j: int|
                0 <= j < all@.len() && #[trigger] all@[j] == id by {
                assert(all@.contains(id));
            }
        }
        best
    }

    fn lend_on(&mut self)
        requires
            old(self)@.at < old(self)@.queue.len(),
        ensures
            final(self)@ == old(self)@.lending_on(),
    {
        let n: usize = self.queue.len();
        assert(self.at < n);
        self.at = self.at + 1;
        self.phase = Phase::Lending;
    }

    /// Tells whether a VM is to be asked to migrate.
    fn must_migrate(&self, id: u32) -> (r: bool)
        ensures
            r == self@.must_migrate(id),
    {
        if !self.averages.contains_key(&id) {
            return false;
        }
        match self.states.get(&id) {
            Some(s) => {
                let cooled: bool = match s.migration {
                    MigrationStatus::Requested { since } => (self.start_ms / 1000).saturating_sub(
                        since,
                    ) > self.config.migration_cooldown_seconds,
                    MigrationStatus::Unasked => true,
                    MigrationStatus::Confirmed => false,
                };
                cooled && s.distress_counter as usize >= self.config.distress_before_migration
            },
            None => false,
        }
    }

    /// The VMs that are to be asked to migrate.
    fn migrants(&self) -> (r: Vec<u32>)
        ensures
            is_listing(r@, self@.migrants()),
    {
        let all: Vec<u32> = names(&self.averages);
        let mut out: Vec<u32> = Vec::new();
        let mut i: usize = 0;
        while i < all.len()
            invariant
                i <= all@.len(),
                is_listing(all@, self@.averages.dom()),
                picks(out@, all@.take(i as int), self@.migrants()),
            decreases all@.len() - i,
        {
            let id: u32 = all[i];
            proof {
                lemma_picks_next(out@, all@, i as int, self@.migrants(), out@.len() as int);
                assert(out@.insert(out@.len() as int, id) =~= out@.push(id));
            }
            if self.must_migrate(id) {
                out.push(id);
            }
            i = i + 1;
        }
        proof {
            lemma_picks_all(out@, all@, i as int, self@.averages.dom(), self@.migrants());
            assert(self@.averages.dom().intersect(self@.migrants()) =~= self@.migrants());
        }
        out
    }

    /// Tells whether a VM may have one vCPU more than it has.
    fn has_room(&self, vmid: u32, vcpus: u32) -> (r: bool)
        requires
            self@.limits.contains_key(vmid),
        ensures
            r == (vcpus < self@.limits[vmid].max && vcpus < self@.cores_of(vmid)),
    {
        match self.limits.get(&vmid) {
            Some(limits) => vcpus < limits.max && vcpus < self.cores_of(vmid),
            None => false,
        }
    }

    fn on_lend(&mut self)
        requires
            old(self)@.wf(),
            old(self)@.phase is Lending,
        ensures
            old(self)@.on_lend(final(self)@),
    {
        if self.at >= self.queue.len() {
            self.queue = self.migrants();
            self.at = 0;
            self.phase = Phase::Migrating;
            return ;
        }
        let vmid: u32 = self.queue[self.at];
        assert(self@.in_need(vmid));
        let vcpus: u32 = get_or(&self.vcpus, vmid, 0);
        if !self.has_room(vmid, vcpus) {
            self.lend_on();
            return ;
        }
        self.phase = match self.best_donor(vmid) {
            Some(donor) => Phase::LendDonor {
                vmid,
                vcpus,
                donor,
                donor_vcpus: get_or(&self.vcpus, donor, 0),
            },
            None => Phase::Hosting { vmid, vcpus },
        };
    }

    /// Records one vCPU more that a VM owes.
    fn borrow(&mut self, vmid: u32, vcpus: u32, lender: u32)
        requires
            !old(self)@.loans.contains_key(vmid),
        ensures
            final(self)@ == (BalancerView {
                loans: borrowed(old(self)@.loans, vmid, vcpus, lender),
                ..old(self)@
            }),
    {
        let mut loan: Loan = Loan::new(vcpus);
        loan.ajouter(lender, 1);
        put_loan(&mut self.loans, vmid, loan);
    }

    /// A VM in distress got a vCPU.
    fn relieve(&mut self, vmid: u32, vcpus: u32)
        ensures
            final(self)@ == (BalancerView {
                vcpus: old(self)@.vcpus.insert(vmid, vcpus),
                known: old(self)@.known.insert(vmid, vcpus),
                states: if old(self)@.states.contains_key(vmid) {
                    old(self)@.states.insert(
                        vmid,
                        VMStateView {
                            vcpus_changed_at: old(self)@.cycle,
                            distress_counter: 0,
                            ..old(self)@.states[vmid]
                        },
                    )
                } else {
                    old(self)@.states
                },
                ..old(self)@
            }),
    {
        self.vcpus.insert(vmid, vcpus);
        self.known.insert(vmid, vcpus);
        match take_state(&mut self.states, vmid) {
            Some(s) => {
                let mut s: VMState = s;
                s.vcpus_changed_at = self.cycle;
                s.distress_counter = 0;
                put_state(&mut self.states, vmid, s);
                assert(self@.states =~= old(self)@.states.insert(vmid, s@));
            },
            None => {
                assert(self@.states =~= old(self)@.states);
            },
        }
    }

    fn on_lend_donor(&mut self, vmid: u32, vcpus: u32, donor: u32, donor_vcpus: u32, done: bool)
        requires
            old(self)@.at < old(self)@.queue.len(),
        ensures
            final(self)@ == old(self)@.on_lend_donor(vmid, vcpus, donor, donor_vcpus, done),
    {
        if done {
            self.phase = Phase::LendBorrower { vmid, vcpus, donor, donor_vcpus };
        } else {
            self.lend_on();
        }
    }

    fn on_lend_borrower(
        &mut self,
        vmid: u32,
        vcpus: u32,
        donor: u32,
        donor_vcpus: u32,
        done: bool,
    )
        requires
            old(self)@.giving(vmid, vcpus, donor, donor_vcpus),
        ensures
            final(self)@ == old(self)@.on_lend_borrower(vmid, vcpus, donor, donor_vcpus, done),
    {
        if !done {
            self.phase = Phase::LendUndo { vmid, vcpus, donor, donor_vcpus };
            return ;
        }
        assert(self@.in_need(vmid));
        self.vcpus.insert(donor, donor_vcpus - 1);
        self.known.insert(donor, donor_vcpus - 1);
        match take_state(&mut self.states, donor) {
            Some(s) => {
                let mut s: VMState = s;
                s.vcpus_changed_at = self.cycle;
                s.low_counter = 0;
                put_state(&mut self.states, donor, s);
                assert(self@.states =~= old(self)@.states.insert(donor, s@));
            },
            None => {
                assert(self@.states =~= old(self)@.states);
            },
        }
        self.relieve(vmid, vcpus + 1);
        self.borrow(vmid, vcpus, donor);
        assert(self@ == old(self)@.lent(vmid, vcpus, donor, donor_vcpus));
        self.lend_on();
    }

    fn on_host(&mut self, vmid: u32, vcpus: u32, overcommit: bool, max: u32)
        requires
            old(self)@.at < old(self)@.queue.len(),
        ensures
            final(self)@ == old(self)@.on_host(vmid, vcpus, overcommit, max),
    {
        if overcommit && total(&self.vcpus) < max {
            self.phase = Phase::LendHost { vmid, vcpus };
        } else {
            self.lend_on();
        }
    }

    fn on_lend_host(&mut self, vmid: u32, vcpus: u32, done: bool)
        requires
            old(self)@.borrowing(vmid, vcpus),
        ensures
            final(self)@ == old(self)@.on_lend_host(vmid, vcpus, done),
    {
        assert(self@.in_need(vmid));
        if done {
            self.relieve(vmid, vcpus + 1);
            self.borrow(vmid, vcpus, 0);
            assert(self@ == old(self)@.lent_by_host(vmid, vcpus));
        }
        self.lend_on();
    }

    fn on_migrate(&mut self)
        requires
            old(self)@.at <= old(self)@.queue.len(),
        ensures
            final(self)@ == old(self)@.on_migrate(),
    {
        let n: usize = self.queue.len();
        if self.at >= n {
            self.phase = Phase::Pressure;
            return ;
        }
        let vmid: u32 = self.queue[self.at];
        let ticks: u32 = self.distress_of(vmid);
        self.at = self.at + 1;
        self.unwind(vmid, Resume::Migrating { ticks });
    }

    fn on_signal(&mut self, vmid: u32, done: bool)
        ensures
            final(self)@ == old(self)@.on_signal(vmid, done),
    {
        if done {
            match take_state(&mut self.states, vmid) {
                Some(s) => {
                    let mut s: VMState = s;
                    s.distress_counter = 0;
                    s.migration = MigrationStatus::Requested { since: self.start_ms / 1000 };
                    put_state(&mut self.states, vmid, s);
                },
                None => {},
            }
        }
        self.phase = Phase::Migrating;
        assert(self@.states =~= old(self)@.on_signal(vmid, done).states);
    }

    /// Tells whether a VM stays in distress.
    fn in_lasting_distress(&self, id: u32) -> (r: bool)
        ensures
            r == self@.in_lasting_distress(id),
    {
        match (self.averages.get(&id), self.states.get(&id)) {
            (Some(avg), Some(s)) => self.config.seuil_detresse.at_most(*avg)
                && s.distress_counter as usize >= self.config.distress_before_migration,
            _ => false,
        }
    }

    /// How many VMs stay in distress.
    fn lasting_distress(&self) -> (r: usize)
        ensures
            r == self@.lasting_distress(),
    {
        let all: Vec<u32> = names(&self.averages);
        let ghost dom = self@.averages.dom();
        let ghost lasting = dom.filter(|id: u32| self@.in_lasting_distress(id));
        let ghost mut seen: Set<u32> = Set::empty();
        let mut count: usize = 0;
        let mut i: usize = 0;
        while i < all.len()
            invariant
                i <= all@.len(),
                is_listing(all@, dom),
                lasting == dom.filter(|id: u32| self@.in_lasting_distress(id)),
                seen.finite(),
                count == seen.len(),
                count <= i,
                forall|id: u32| #[trigger]
                    seen.contains(id) ==> all@.take(i as int).contains(id) && lasting.contains(id),
                forall|j: int|
                    0 <= j < i && lasting.contains(#[trigger] all@[j]) ==> seen.contains(all@[j]),
            decreases all@.len() - i,
        {
            let id: u32 = all[i];
            proof {
                assert(all@.contains(id));
                let before = all@.take(i as int);
                let after = all@.take(i + 1);
                assert(after[i as int] == id);
                assert forall|k: u32| before.contains(k) implies after.contains(k) by {
                    let j = choose|j: int| 0 <= j < before.len() && before[j] == k;
                    assert(after[j] == k);
                }
                if before.contains(id) {
                    let j = choose|j: int| 0 <= j < before.len() && before[j] == id;
                    assert(all@[j] == all@[i as int]);
                }
            }
            if self.in_lasting_distress(id) {
                proof {
                    seen = seen.insert(id);
                }
                count = count + 1;
            }
            i = i + 1;
        }
        proof {
            assert forall|id: u32| lasting.contains(id) implies seen.contains(id) by {
                assert(all@.contains(id));
            }
            assert(seen =~= lasting);
        }
        count
    }

    fn on_pressure(&mut self)
        ensures
            old(self)@.on_pressure(final(self)@),
    {
        let count: usize = self.lasting_distress();
        self.phase = if count > 1 {
            Phase::Lightening { count }
        } else {
            Phase::Resting { seconds: self.config.check_interval, cause: Cause::Balanced }
        };
    }

    /// What is to be done next.
    pub fn action(&self) -> (r: Action)
        requires
            self@.wf(),
        ensures
            r == pending(self@),
    {
        match self.phase {
            Phase::Clock => Action::ReadClock,
            Phase::Listing => Action::ListVms,
            Phase::Profiling => Action::ReadProfile { vmid: self.queue[self.at] },
            Phase::ReturnBorrower { vmid, resume: _ } => Action::SetVcpus {
                vmid,
                vcpus: self.returning.vcpus_initial,
                purpose: Purpose::ReturnBorrower,
            },
            Phase::ReturnLender { vmid: _, segment, vcpus, resume: _ } => Action::SetVcpus {
                vmid: self.returning.segments[segment].preteur_id,
                vcpus,
                purpose: Purpose::ReturnLender,
            },
            Phase::Measuring => Action::Measure,
            Phase::Averaging { vmid } => Action::Average { vmid },
            Phase::Showing => Action::Show,
            Phase::RepayBorrower { vmid, vcpus, lender: _ } => Action::SetVcpus {
                vmid,
                vcpus,
                purpose: Purpose::RepayBorrower,
            },
            Phase::RepayLender { vmid: _, taken: _, lender, vcpus } => Action::SetVcpus {
                vmid: lender,
                vcpus,
                purpose: Purpose::RepayLender,
            },
            Phase::Cores => Action::ReadCores { vmid: self.active[self.at] },
            Phase::LendDonor { vmid: _, vcpus: _, donor, donor_vcpus } => Action::SetVcpus {
                vmid: donor,
                vcpus: donor_vcpus - 1,
                purpose: Purpose::LendDonor,
            },
            Phase::LendBorrower { vmid, vcpus, donor: _, donor_vcpus: _ } => Action::SetVcpus {
                vmid,
                vcpus: vcpus + 1,
                purpose: Purpose::LendBorrower,
            },
            Phase::LendUndo { vmid: _, vcpus: _, donor, donor_vcpus } => Action::SetVcpus {
                vmid: donor,
                vcpus: donor_vcpus,
                purpose: Purpose::LendUndo,
            },
            Phase::Hosting { vmid: _, vcpus: _ } => Action::ReadHost,
            Phase::LendHost { vmid, vcpus } => Action::SetVcpus {
                vmid,
                vcpus: vcpus + 1,
                purpose: Purpose::LendHost,
            },
            Phase::Signalling { vmid, ticks } => Action::SendMigrate {
                vmid,
                ticks,
                urgency: Urgency::High,
            },
            Phase::Lightening { count } => Action::SendLighten { count, urgency: Urgency::High },
            Phase::Resting { seconds, cause: _ } => Action::Rest { seconds },
            Phase::Vanished
            | Phase::ReturnSegment { .. }
            | Phase::Recording
            | Phase::Ticking
            | Phase::Repaying
            | Phase::Lending
            | Phase::Migrating
            | Phase::Pressure => Action::Proceed,
        }
    }

    /// Goes on from what came of the work that was waited for; an event that does not answer it
    /// changes nothing.
    pub fn step(&mut self, ev: Event)
        requires
            old(self)@.wf(),
        ensures
            follows(old(self)@, ev, final(self)@),
            final(self)@.wf(),
    {
        match (self.phase, ev) {
            (Phase::Clock, Event::Clock { now_ms }) => self.on_clock(now_ms),
            (Phase::Listing, Event::Vms { vmids }) => self.on_vms(vmids),
            (Phase::Profiling, Event::Profile { standing }) => self.on_profile(standing),
            (Phase::Vanished, Event::Done) => self.on_vanished(),
            (Phase::ReturnBorrower { vmid, resume }, Event::Applied { done }) => {
                self.on_return_borrower(vmid, resume, done)
            },
            (Phase::ReturnSegment { vmid, segment, resume }, Event::Done) => {
                self.on_return_segment(vmid, segment, resume)
            },
            (Phase::ReturnLender { vmid, segment, vcpus, resume }, Event::Applied { done }) => {
                self.on_return_lender(vmid, segment, vcpus, resume, done)
            },
            (Phase::Measuring, Event::Measures { metrics }) => self.on_measures(metrics),
            (Phase::Recording, Event::Done) => self.on_record(),
            (Phase::Averaging { vmid }, Event::Average { load }) => self.on_average(vmid, load),
            (Phase::Ticking, Event::Done) => self.on_tick(),
            (Phase::Showing, Event::Done) => self.on_show(),
            (Phase::Repaying, Event::Done) => self.on_repay(),
            (Phase::RepayBorrower { vmid, vcpus, lender }, Event::Applied { done }) => {
                self.on_repay_borrower(vmid, vcpus, lender, done)
            },
            (Phase::RepayLender { vmid, taken, lender, vcpus }, Event::Applied { done }) => {
                self.on_repay_lender(vmid, taken, lender, vcpus, done)
            },
            (Phase::Cores, Event::Cores { max }) => self.on_cores(max),
            (Phase::Lending, Event::Done) => self.on_lend(),
            (Phase::LendDonor { vmid, vcpus, donor, donor_vcpus }, Event::Applied { done }) => {
                self.on_lend_donor(vmid, vcpus, donor, donor_vcpus, done)
            },
            (Phase::LendBorrower { vmid, vcpus, donor, donor_vcpus }, Event::Applied { done }) => {
                self.on_lend_borrower(vmid, vcpus, donor, donor_vcpus, done)
            },
            (Phase::LendUndo { .. }, Event::Applied { .. }) => self.lend_on(),
            (Phase::Hosting { vmid, vcpus }, Event::Host { overcommit, max }) => {
                self.on_host(vmid, vcpus, overcommit, max)
            },
            (Phase::LendHost { vmid, vcpus }, Event::Applied { done }) => {
                self.on_lend_host(vmid, vcpus, done)
            },
            (Phase::Migrating, Event::Done) => self.on_migrate(),
            (Phase::Signalling { vmid, .. }, Event::Sent { done }) => self.on_signal(vmid, done),
            (Phase::Pressure, Event::Done) => self.on_pressure(),
            (Phase::Lightening { .. }, Event::Sent { .. }) => {
                self.phase = Phase::Resting {
                    seconds: self.config.check_interval,
                    cause: Cause::Balanced,
                };
            },
            (Phase::Resting { .. }, Event::Done) => {
                self.phase = Phase::Clock;
            },
            _ => {},
        }
        proof {
            lemma_step_keeps_wf(old(self)@, ev, self@);
        }
    }

    /// Tells whether a VM is to be measured.
    fn due(&self, id: u32) -> (r: bool)
        ensures
            r == self@.due(id),
    {
        match self.states.get(&id) {
            Some(s) => {
                let changed: u64 = s.vcpus_changed_at;
                let cooldown: u64 = if self.config.vcpu_change_cooldown_cycles == 0 {
                    1
                } else {
                    self.config.vcpu_change_cooldown_cycles as u64
                };
                changed == 0 || (self.cycle >= changed && self.cycle - changed > cooldown)
            },
            None => true,
        }
    }

    /// The VMs that are to be measured: those that take part and whose vCPUs did not change
    /// lately.
    pub fn mesurer_toutes_vms(&self) -> (r: Vec<Probe>)
        requires
            self@.wf(),
        ensures
            r@ == self@.probes_of(self@.active),
    {
        let mut out: Vec<Probe> = Vec::new();
        let mut i: usize = 0;
        assert(self@.active.take(0) =~= Seq::empty());
        while i < self.active.len()
            invariant
                i <= self.active@.len(),
                self@.wf(),
                out@ == self@.probes_of(self@.active.take(i as int)),
            decreases self.active@.len() - i,
        {
            let id: u32 = self.active[i];
            proof {
                assert(self@.active.take(i + 1).drop_last() =~= self@.active.take(i as int));
                assert(self@.limits.contains_key(self@.active[i as int]));
            }
            if self.due(id) {
                if let Some(limits) = self.limits.get(&id) {
                    out.push(Probe { vmid: id, known: self.known_of(id), min: limits.min });
                }
            }
            i = i + 1;
        }
        assert(self@.active.take(i as int) =~= self@.active);
        out
    }

    /// The measures of a VM that its average is taken of, the oldest first.
    pub fn measures(&self, vmid: u32) -> (r: Vec<u64>)
        ensures
            r@ == (if self@.states.contains_key(vmid) {
                self@.states[vmid].history
            } else {
                Seq::empty()
            }),
    {
        let mut out: Vec<u64> = Vec::new();
        match self.states.get(&vmid) {
            Some(s) => {
                assert(s@ == self@.states[vmid]);
                let mut i: usize = 0;
                while i < s.history.len()
                    invariant
                        i <= s.history@.len(),
                        out@ =~= s.history@.take(i as int),
                    decreases s.history@.len() - i,
                {
                    out.push(s.history[i]);
                    i = i + 1;
                }
                assert(out@ =~= s.history@);
            },
            None => {
                assert(out@ =~= Seq::empty());
            },
        }
        out
    }

    /// The number of the cycle.
    pub fn cycle(&self) -> (r: u64)
        ensures
            r == self@.cycle,
    {
        self.cycle
    }

    /// The VMs with an average, in ascending order.
    pub fn averaged(&self) -> (r: Vec<u32>)
        ensures
            is_listing(r@, self@.averages.dom()),
            ascending(r@),
            r@ == in_order(self@.averages.dom()),
            r@.len() == self@.averages.dom().len(),
    {
        let all: Vec<u32> = names(&self.averages);
        let mut out: Vec<u32> = Vec::new();
        let mut i: usize = 0;
        proof {
            assert(all@.take(0) =~= Seq::empty());
            assert(out@ =~= Seq::empty());
        }
        while i < all.len()
            invariant
                i <= all@.len(),
                ascending(out@),
                out@.to_multiset() == all@.take(i as int).to_multiset(),
            decreases all@.len() - i,
        {
            let id: u32 = all[i];
            proof {
                assert(all@.take(i + 1) =~= all@.take(i as int).push(id));
                vstd::seq_lib::to_multiset_build(all@.take(i as int), id);
            }
            insert_sorted(&mut out, id);
            i = i + 1;
        }
        proof {
            assert(all@.take(i as int) =~= all@);
            all@.lemma_multiset_has_no_duplicates();
            out@.lemma_multiset_has_no_duplicates_conv();
            all@.to_multiset_ensures();
            out@.to_multiset_ensures();
            assert forall|id: u32| out@.contains(id) <==> self@.averages.dom().contains(id) by {
                assert(out@.contains(id) <==> out@.to_multiset().count(id) > 0);
                assert(all@.contains(id) <==> all@.to_multiset().count(id) > 0);
            }
            lemma_in_order(out@, self@.averages.dom());
        }
        out
    }

    /// The line that shows a VM, where it has an average; `cpu` is its load in percent.
    pub fn line(&self, vmid: u32, cpu: &str) -> (r: Option<String>)
        requires
            self@.wf(),
        ensures
            opt_string(r) == (if self@.averages.contains_key(vmid) {
                Some(self@.line_of(vmid, cpu@))
            } else {
                None
            }),
    {
        match (self.averages.get(&vmid), self.limits.get(&vmid), self.states.get(&vmid)) {
            (Some(avg), Some(limits), Some(state)) => {
                let loan: Option<&Loan> = self.loans.get(&vmid);
                proof {
                    if loan is Some {
                        assert(loan->0@ == self@.loans[vmid]);
                        lemma_single_is_redeemed(vmid, self@.loans[vmid]);
                    }
                }
                Some(
                    vm_line(
                        vmid,
                        *avg,
                        cpu,
                        get_or(&self.vcpus, vmid, limits.min),
                        *limits,
                        state,
                        loan,
                        self.config.seuil_detresse,
                        self.config.seuil_donneuse,
                    ),
                )
            },
            _ => None,
        }
    }

    /// What is shown of the node: a line for each VM that has an average, in ascending order, and the
    /// separator. `cpus` are the loads of these VMs in percent, in the same order.
    pub fn log_etat(&self, cpus: &Vec<String>) -> (r: Vec<String>)
        requires
            self@.wf(),
            cpus@.len() == self@.averages.dom().len(),
        ensures
            texts(r@) == self@.shown(texts(cpus@)),
            r@.len() == self@.averages.dom().len() + 1,
    {
        let ids: Vec<u32> = self.averaged();
        let n: usize = ids.len();
        let mut out: Vec<String> = Vec::new();
        let mut i: usize = 0;
        while i < n
            invariant
                i <= n,
                n == ids@.len(),
                n == cpus@.len(),
                self@.wf(),
                is_listing(ids@, self@.averages.dom()),
                out@.len() == i,
                forall|j: int|
                    0 <= j < i ==> (#[trigger] out@[j])@ == self@.line_of(ids@[j], cpus@[j]@),
            decreases n - i,
        {
            assert(ids@.contains(ids@[i as int]));
            assert(self@.averages.dom().contains(ids@[i as int]));
            if let Some(line) = self.line(ids[i], cpus[i].as_str()) {
                out.push(line);
            }
            i = i + 1;
        }
        out.push(log_sep().to_owned());
        assert(texts(out@) =~= self@.shown(texts(cpus@)));
        out
    }

    /// Where in its cycle the balancer stands.
    pub fn phase(&self) -> (r: Phase)
        ensures
            r == self@.phase,
    {
        self.phase
    }

    /// The most measures that are kept of any VM.
    pub fn samples(&self) -> (r: usize)
        ensures
            are_most(self@, r),
            r == most_measures(self@),
    {
        let all: Vec<u32> = names(&self.states);
        let mut most: usize = 0;
        let mut i: usize = 0;
        while i < all.len()
            invariant
                i <= all@.len(),
                is_listing(all@, self.states@.dom()),
                forall|j: int|
                    0 <= j < i ==> self@.states[#[trigger] all@[j]].history.len() <= most,
                most > 0 ==> exists|id: u32| #[trigger]
                    self@.states.contains_key(id) && self@.states[id].history.len() == most,
            decreases all@.len() - i,
        {
            let id: u32 = all[i];
            assert(all@.contains(id));
            if let Some(s) = self.states.get(&id) {
                assert(s@ == self@.states[id]);
                if s.history.len() > most {
                    most = s.history.len();
                    assert(self@.states.contains_key(id));
                }
            }
            i = i + 1;
        }
        assert forall|id: u32| #[trigger]
            self@.states.contains_key(id) implies self@.states[id].history.len() <= most by {
            assert(all@.contains(id));
        }
        proof {
            lemma_most_measures(self@, most);
        }
        most
    }

    /// The vCPUs of the cycle in all, in 32 bits.
    pub fn total_vcpus(&self) -> (r: u32)
        ensures
            r == low32(sum_of(self@.vcpus) as int),
    {
        total(&self.vcpus)
    }

    /// Why a creditor does not get `nb` vCPUs back, if so.
    fn refusal(&self, lender: u32, count: Option<u32>, nb: u32) -> (r: Option<Remark>)
        ensures
            r == refusal(self@, lender, count, nb),
    {
        if lender == 0 || nb == 0 {
            return None;
        }
        if self.refund(lender, count, nb).is_some() {
            return None;
        }
        if !self.present.contains(&lender) {
            return Some(Remark::CreditorAbsent { lender, nb });
        }
        if self.opted_out.contains(&lender) {
            return Some(Remark::CreditorOut { lender, nb });
        }
        match (count, self.limits.get(&lender)) {
            (Some(v), Some(limits)) => {
                if v < limits.min && nb < limits.min - v {
                    Some(Remark::CreditorLow { lender, min: limits.min, nb })
                } else {
                    Some(Remark::CreditorFull { lender, max: limits.max, nb })
                }
            },
            (Some(_), None) => Some(Remark::CreditorFull { lender, max: u32::MAX, nb }),
            (None, _) => Some(Remark::CreditorOut { lender, nb }),
        }
    }

    /// Tells whether a VM is back to normal and its request is dropped.
    fn annuls(&self, id: u32) -> (r: bool)
        requires
            self@.tables_wf(),
            self@.averages.contains_key(id),
        ensures
            r == annuls(self@, id),
    {
        match (self.averages.get(&id), self.limits.get(&id), self.states.get(&id)) {
            (Some(avg), Some(limits), Some(state)) => {
                let vcpus: u32 = get_or(&self.vcpus, id, limits.min);
                match state.migration {
                    MigrationStatus::Requested { since } => {
                        let cooled: bool = (self.start_ms / 1000).saturating_sub(since)
                            > self.config.migration_cooldown_seconds;
                        let idle: bool = avg.below(Load::from_bits(IDLE_BITS));
                        let distress: bool = self.config.seuil_detresse.at_most(*avg) && vcpus
                            < limits.max;
                        let rest: bool = avg.at_most(self.config.seuil_remboursement) && (
                        self.loans.contains_key(&id) || vcpus > limits.min);
                        cooled && !idle && !distress && !rest
                    },
                    _ => false,
                }
            },
            _ => false,
        }
    }

    /// What is worth a word in the log before the balancer goes on.
    pub fn remark(&self) -> (r: Option<Remark>)
        requires
            self@.wf(),
        ensures
            r == remark_on(self@),
    {
        match self.phase {
            Phase::Vanished => {
                if self.at < self.queue.len() {
                    Some(Remark::Vanished { vmid: self.queue[self.at] })
                } else {
                    None
                }
            },
            Phase::ReturnSegment { vmid: _, segment, resume: _ } => {
                if segment < self.returning.segments.len() {
                    let lender: u32 = self.returning.segments[segment].preteur_id;
                    let nb: u32 = self.returning.segments[segment].nb_empruntes;
                    self.refusal(lender, self.known_of(lender), nb)
                } else {
                    None
                }
            },
            Phase::Recording => {
                if self.at < self.metrics.len() {
                    let m: VMMetric = self.metrics[self.at];
                    if self.limits.contains_key(&m.vmid) && self.due(m.vmid) && m.ts_ms
                        < self.start_ms {
                        Some(Remark::Stale { ts_ms: m.ts_ms, start_ms: self.start_ms })
                    } else {
                        None
                    }
                } else {
                    None
                }
            },
            Phase::Ticking => {
                if self.at < self.queue.len() && self.annuls(self.queue[self.at]) {
                    Some(Remark::Annulled { vmid: self.queue[self.at] })
                } else {
                    None
                }
            },
            Phase::Repaying => {
                if self.at < self.queue.len() {
                    let id: u32 = self.queue[self.at];
                    let vcpus: u32 = get_or(&self.vcpus, id, 0);
                    match self.loans.get(&id) {
                        Some(loan) => {
                            assert(loan@ == self@.loans[id]);
                            proof {
                                lemma_single_is_redeemed(id, loan@);
                            }
                            if self.low_of(id) as usize >= self.config.duree_avant_action && vcpus
                                <= loan.vcpus_initial {
                                Some(Remark::BackToInitial { vmid: id, vcpus })
                            } else {
                                None
                            }
                        },
                        None => None,
                    }
                } else {
                    None
                }
            },
            Phase::RepayBorrower { vmid: _, vcpus: _, lender } => {
                match self.refusal(lender, self.count_of(lender), 1) {
                    Some(Remark::CreditorAbsent { lender: _, nb: _ }) => Some(
                        Remark::LenderAbsent { lender },
                    ),
                    Some(Remark::CreditorOut { lender: _, nb }) => Some(
                        Remark::CreditorOut { lender, nb },
                    ),
                    _ => None,
                }
            },
            Phase::Resting { seconds: _, cause } => match cause {
                Cause::NoVms => Some(Remark::NoVms),
                Cause::NoProfiles => Some(Remark::NoProfiles),
                Cause::Accumulating => Some(
                    Remark::Accumulating {
                        cycle: self.cycle,
                        samples: self.samples(),
                        min: self.config.min_samples_before_action,
                    },
                ),
                Cause::Balanced => None,
            },
            Phase::Lending => {
                if self.at < self.queue.len() {
                    let id: u32 = self.queue[self.at];
                    assert(self@.in_need(id));
                    let vcpus: u32 = get_or(&self.vcpus, id, 0);
                    if self.has_room(id, vcpus) {
                        None
                    } else {
                        Some(Remark::AtCeiling { vmid: id, vcpus })
                    }
                } else {
                    None
                }
            },
            _ => None,
        }
    }

    /// How many VMs are in distress at once when the lending begins, if more than one.
    pub fn distress(&self) -> (r: Option<Remark>)
        ensures
            r == distress_remark(self@),
    {
        match self.phase {
            Phase::Lending => {
                if self.at == 0 && self.queue.len() > 1 {
                    Some(Remark::Together { count: self.queue.len() })
                } else {
                    None
                }
            },
            _ => None,
        }
    }

    /// What a VM owes once it gave one vCPU back.
    fn left_after(&self, vmid: u32) -> (r: u32)
        requires
            self@.loans_wf(),
            self@.loans.contains_key(vmid),
        ensures
            r == owed(repaid(self@.loans[vmid].segments)),
    {
        match self.loans.get(&vmid) {
            Some(loan) => {
                assert(loan@ == self@.loans[vmid]);
                proof {
                    lemma_single_is_redeemed(vmid, loan@);
                }
                loan.total_empruntes() - 1
            },
            None => 0,
        }
    }

    /// What is told of a change of vCPUs once it was made or failed.
    pub fn outcome(&self, done: bool) -> (r: Option<String>)
        requires
            self@.wf(),
        ensures
            opt_string(r) == outcome_text(self@, done),
    {
        match (self.phase, done) {
            (Phase::ReturnBorrower { vmid, .. }, true) => Some(
                "↩️  RETOUR ANTICIPÉ : VM ".to_owned().concat(decimal(vmid as u64).as_str())
                    .concat(" → ").concat(decimal(self.returning.vcpus_initial as u64).as_str())
                    .concat(" vCPUs (état initial)"),
            ),
            (Phase::ReturnLender { vmid, segment, .. }, true) => Some(
                "↩️  RETOUR ANTICIPÉ : ".to_owned()
                    .concat(decimal(self.returning.segments[segment].nb_empruntes as u64).as_str())
                    .concat(" vCPU(s) rendus à VM ")
                    .concat(decimal(self.returning.segments[segment].preteur_id as u64).as_str())
                    .concat(" (migration VM ").concat(decimal(vmid as u64).as_str()).concat(")"),
            ),
            (Phase::RepayBorrower { vmid, vcpus, lender }, true) => {
                let left: u32 = self.left_after(vmid);
                if lender == 0 {
                    Some(
                        "↩️  RETOUR HÔTE : VM ".to_owned().concat(decimal(vmid as u64).as_str())
                            .concat(" ").concat(decimal((vcpus + 1) as u64).as_str())
                            .concat(" → ").concat(decimal(vcpus as u64).as_str())
                            .concat(" vCPUs | reste: ").concat(decimal(left as u64).as_str()),
                    )
                } else {
                    Some(
                        "↩️  RETOUR OK : VM ".to_owned().concat(decimal(vmid as u64).as_str())
                            .concat(" ").concat(decimal((vcpus + 1) as u64).as_str())
                            .concat(" → ").concat(decimal(vcpus as u64).as_str())
                            .concat(" vCPUs → VM ").concat(decimal(lender as u64).as_str())
                            .concat(" | reste: ").concat(decimal(left as u64).as_str()),
                    )
                }
            },
            (Phase::RepayBorrower { vmid, .. }, false) => Some(
                "❌ Échec retour VM ".to_owned().concat(decimal(vmid as u64).as_str()),
            ),
            (Phase::RepayLender { vmid, taken: true, .. }, false) => Some(
                "⚠️  Retour partiel VM ".to_owned().concat(decimal(vmid as u64).as_str())
                    .concat(" : emprunteuse OK mais créancière KO"),
            ),
            (Phase::LendBorrower { vmid, vcpus, donor, donor_vcpus }, true) => Some(
                "✅ PRÊT OK : VM ".to_owned().concat(decimal(donor as u64).as_str()).concat(" → ")
                    .concat(decimal((donor_vcpus - 1) as u64).as_str()).concat(" vCPUs | VM ")
                    .concat(decimal(vmid as u64).as_str()).concat(" → ")
                    .concat(decimal((vcpus + 1) as u64).as_str())
                    .concat(" vCPUs | cible retour: ").concat(decimal(vcpus as u64).as_str())
                    .concat(" vCPUs"),
            ),
            (Phase::LendDonor { vmid, donor, .. }, false)
            | (Phase::LendBorrower { vmid, donor, .. }, false) => Some(
                "❌ Échec prêt VM ".to_owned().concat(decimal(donor as u64).as_str())
                    .concat(" → VM ").concat(decimal(vmid as u64).as_str()),
            ),
            (Phase::LendHost { vmid, vcpus }, true) => Some(
                "✅ PRÊT HÔTE OK : VM ".to_owned().concat(decimal(vmid as u64).as_str())
                    .concat(" → ").concat(decimal((vcpus + 1) as u64).as_str())
                    .concat(" vCPUs | cible retour: ").concat(decimal(vcpus as u64).as_str())
                    .concat(" vCPUs"),
            ),
            (Phase::LendHost { vmid, .. }, false) => Some(
                "❌ Échec prêt hôte VM ".to_owned().concat(decimal(vmid as u64).as_str()),
            ),
            _ => None,
        }
    }

    /// What is told of a loan that is about to be made; `percent` and `donor_percent` are the loads
    /// of the VM in distress and of the donor in percent, `bound` is what the host bears.
    pub fn intent(&self, percent: &str, donor_percent: &str, bound: u32) -> (r: Option<String>)
        requires
            self@.wf(),
        ensures
            opt_string(r) == intent_text(self@, percent@, donor_percent@, bound),
    {
        match self.phase {
            Phase::LendDonor { vmid, vcpus, donor, donor_vcpus } => Some(
                "🔄 PRÊT : VM ".to_owned().concat(decimal(donor as u64).as_str()).concat(" (")
                    .concat(donor_percent).concat("%, ")
                    .concat(decimal(donor_vcpus as u64).as_str()).concat(" vCPUs) → VM ")
                    .concat(decimal(vmid as u64).as_str()).concat(" (").concat(percent)
                    .concat("%, ").concat(decimal(vcpus as u64).as_str()).concat(" vCPUs)"),
            ),
            Phase::LendHost { vmid, vcpus } => Some(
                "🔄 PRÊT HÔTE : VM ".to_owned().concat(decimal(vmid as u64).as_str()).concat(" (")
                    .concat(percent).concat("%) ").concat(decimal(vcpus as u64).as_str())
                    .concat(" → ").concat(decimal((vcpus + 1) as u64).as_str()).concat(" vCPUs [")
                    .concat(decimal(one_more(self.total_vcpus()) as u64).as_str()).concat("/")
                    .concat(decimal(bound as u64).as_str()).concat("]"),
            ),
            _ => None,
        }
    }
}

} // verus!
