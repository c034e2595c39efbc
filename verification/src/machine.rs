//! The balancing cycle as a machine: which work it waits for, and what an answer leads to.

use vstd::prelude::*;
use crate::config::AppConfig;
#[allow(unused_imports)]
use crate::display::line_text;
#[allow(unused_imports)]
use crate::load::{load_of, Load, FULL_BITS};
use crate::loan::{added, owed, pruned, repaid, segment_of, LoanSegment, LoanView};
#[allow(unused_imports)]
use crate::logger::separator;
use crate::proxmox::{ascending, low32, low64};
use crate::signals::{contention_reason, migration_reason, Urgency};
#[allow(unused_imports)]
use crate::signals::{contention_text, migration_text};
#[allow(unused_imports)]
use crate::text::opt_string;
use crate::vm_recognizer::Standing;
use crate::vm_state::{cooled_down, measures_over, slid, Limits, MigrationStatus, VMStateView};

verus! {

/// A measure of a VM.
#[derive(Clone, Copy, Debug, PartialEq, Eq, Structural)]
pub struct VMMetric {
    pub vmid: u32,
    /// The load, as the bits of a double.
    pub usage: u64,
    /// When the measure was taken, in milliseconds.
    pub ts_ms: u64,
    pub vcpus: u32,
}

/// A VM to be measured.
#[derive(Clone, Copy, Debug, PartialEq, Eq, Structural)]
pub struct Probe {
    pub vmid: u32,
    /// Its vCPUs, where they are known.
    pub known: Option<u32>,
    /// The least number of vCPUs of its profile.
    pub min: u32,
}

impl Probe {
    /// The vCPUs to count with: those known, else those that were read, else the least.
    pub fn vcpus(&self, current: Option<u32>) -> (r: u32)
        ensures
            r == (match (self.known, current) {
                (Some(v), _) => v,
                (None, Some(v)) => v,
                (None, None) => self.min,
            }),
    {
        match (self.known, current) {
            (Some(v), _) => v,
            (None, Some(v)) => v,
            (None, None) => self.min,
        }
    }
}

/// Why the vCPUs of a VM are set.
#[derive(Clone, Copy, Debug, PartialEq, Eq, Structural)]
pub enum Purpose {
    /// A borrower that leaves goes back to what it had.
    ReturnBorrower,
    /// A lender gets back what a borrower that leaves owed it.
    ReturnLender,
    /// A borrower gives one back.
    RepayBorrower,
    /// The lender gets it.
    RepayLender,
    /// A donor gives one away.
    LendDonor,
    /// A VM in distress gets it.
    LendBorrower,
    /// The donor takes it back, since the VM in distress could not get it.
    LendUndo,
    /// A VM in distress gets one from the host.
    LendHost,
}

/// What goes on once a borrower has given everything back.
#[derive(Clone, Copy, Debug, PartialEq, Eq, Structural)]
pub enum Resume {
    Vanished,
    Migrating { ticks: u32 },
}

/// Why a cycle is over.
#[derive(Clone, Copy, Debug, PartialEq, Eq, Structural)]
pub enum Cause {
    /// No VM runs.
    NoVms,
    /// No VM takes part.
    NoProfiles,
    /// No VM has an average yet.
    Accumulating,
    /// The VMs are balanced.
    Balanced,
}

/// Where in a cycle the machine stands.
#[derive(Clone, Copy, Debug, PartialEq, Eq, Structural)]
pub enum Phase {
    Clock,
    Listing,
    Profiling,
    Vanished,
    ReturnBorrower { vmid: u32, resume: Resume },
    ReturnSegment { vmid: u32, segment: usize, resume: Resume },
    ReturnLender { vmid: u32, segment: usize, vcpus: u32, resume: Resume },
    Measuring,
    Recording,
    Averaging { vmid: u32 },
    Ticking,
    Showing,
    Repaying,
    RepayBorrower { vmid: u32, vcpus: u32, lender: u32 },
    RepayLender { vmid: u32, taken: bool, lender: u32, vcpus: u32 },
    Cores,
    Lending,
    LendDonor { vmid: u32, vcpus: u32, donor: u32, donor_vcpus: u32 },
    LendBorrower { vmid: u32, vcpus: u32, donor: u32, donor_vcpus: u32 },
    LendUndo { vmid: u32, vcpus: u32, donor: u32, donor_vcpus: u32 },
    Hosting { vmid: u32, vcpus: u32 },
    LendHost { vmid: u32, vcpus: u32 },
    Migrating,
    Signalling { vmid: u32, ticks: u32 },
    Pressure,
    Lightening { count: usize },
    Resting { seconds: u64, cause: Cause },
}

/// What is to be done next.
#[derive(Clone, Copy, Debug, PartialEq, Eq, Structural)]
pub enum Action {
    /// Read the time in milliseconds.
    ReadClock,
    /// List the running VMs.
    ListVms,
    /// Find out the limits of a VM that takes part.
    ReadProfile { vmid: u32 },
    /// Measure the VMs that are due.
    Measure,
    /// Work out the average of a VM's measures.
    Average { vmid: u32 },
    /// Show the state of the node.
    Show,
    /// Set the vCPUs of a VM.
    SetVcpus { vmid: u32, vcpus: u32, purpose: Purpose },
    /// Find out the ceiling of a VM's hardware.
    ReadCores { vmid: u32 },
    /// Find out whether the host may be overcommitted, and up to how many vCPUs.
    ReadHost,
    /// Ask for the migration of a VM.
    SendMigrate { vmid: u32, ticks: u32, urgency: Urgency },
    /// Ask for the node to be lightened.
    SendLighten { count: usize, urgency: Urgency },
    /// Wait.
    Rest { seconds: u64 },
    /// Nothing: go on.
    Proceed,
}

impl Action {
    /// The reason that a signal gives; `percent` is the load of the VM in percent, as written.
    pub open spec fn reason_text(self, percent: Seq<char>) -> Option<Seq<char>> {
        match self {
            Action::SendMigrate { vmid, ticks, .. } => Some(
                migration_text(vmid, percent, ticks),
            ),
            Action::SendLighten { count, .. } => Some(contention_text(count as nat)),
            _ => None,
        }
    }

    /// Writes the reason that a signal gives; nothing for work that is no signal.
    pub fn reason(&self, percent: &str) -> (r: Option<String>)
        ensures
            opt_string(r) == self.reason_text(percent@),
    {
        match self {
            Action::SendMigrate { vmid, ticks, urgency: _ } => Some(
                migration_reason(*vmid, percent, *ticks),
            ),
            Action::SendLighten { count, urgency: _ } => Some(contention_reason(*count)),
            _ => None,
        }
    }
}

/// What came of it.
#[derive(Debug)]
pub enum Event {
    Clock { now_ms: u64 },
    Vms { vmids: Vec<u32> },
    Profile { standing: Standing },
    Measures { metrics: Vec<VMMetric> },
    Average { load: Load },
    Applied { done: bool },
    Cores { max: u32 },
    Host { overcommit: bool, max: u32 },
    Sent { done: bool },
    Done,
}

/// What the machine holds.
pub struct BalancerView {
    pub config: AppConfig,
    /// The number of the cycle.
    pub cycle: u64,
    /// When the cycle began, in milliseconds.
    pub start_ms: u64,
    /// The VMs that run on the node.
    pub present: Set<u32>,
    /// The VMs that do not bear the tag, as last read.
    pub opted_out: Set<u32>,
    /// The limits of the VMs that take part.
    pub limits: Map<u32, Limits>,
    /// The VMs that take part.
    pub active: Seq<u32>,
    pub states: Map<u32, VMStateView>,
    pub loans: Map<u32, LoanView>,
    /// The vCPUs of each VM as last set or read.
    pub known: Map<u32, u32>,
    /// The vCPUs of each VM in this cycle.
    pub vcpus: Map<u32, u32>,
    /// The average loads of this cycle.
    pub averages: Map<u32, Load>,
    /// The ceilings of this cycle.
    pub cores: Map<u32, u32>,
    /// The measures of this cycle.
    pub metrics: Seq<VMMetric>,
    /// The VMs to go through, and how far that went.
    pub queue: Seq<u32>,
    pub at: nat,
    /// The loan that is being unwound.
    pub returning: LoanView,
    pub phase: Phase,
}

/// `q` names each of `ids` once.
pub open spec fn is_listing(q: Seq<u32>, ids: Set<u32>) -> bool {
    &&& q.no_duplicates()
    &&& forall|id: u32| q.contains(id) <==> ids.contains(id)
}

/// The VMs of a set in ascending order.
pub open spec fn in_order(ids: Set<u32>) -> Seq<u32> {
    choose|q: Seq<u32>| is_listing(q, ids) && ascending(q)
}

proof fn lemma_same_order(a: Seq<u32>, b: Seq<u32>, ids: Set<u32>, k: int)
    requires
        is_listing(a, ids),
        is_listing(b, ids),
        ascending(a),
        ascending(b),
        0 <= k <= a.len(),
    ensures
        k <= b.len(),
        forall|i: int| 0 <= i < k ==> a[i] == b[i],
    decreases k,
{
    if k > 0 {
        lemma_same_order(a, b, ids, k - 1);
        let m = k - 1;
        assert(a.contains(a[m]));
        assert(b.contains(a[m]));
        let j = choose|j: int| 0 <= j < b.len() && b[j] == a[m];
        assert(j >= m) by {
            if j < m {
                assert(a[j] == a[m]);
            }
        }
        assert(b.contains(b[m]));
        assert(a.contains(b[m]));
        let i = choose|i: int| 0 <= i < a.len() && a[i] == b[m];
        assert(i >= m) by {
            if i < m {
                assert(b[i] == b[m]);
            }
        }
        assert(b[m] <= b[j] && a[m] <= a[i]);
    }
}

/// There is one way to list VMs in ascending order, and it is as long as there are VMs.
pub proof fn lemma_in_order(q: Seq<u32>, ids: Set<u32>)
    requires
        is_listing(q, ids),
        ascending(q),
    ensures
        q == in_order(ids),
        q.len() == ids.len(),
{
    let r = in_order(ids);
    lemma_same_order(q, r, ids, q.len() as int);
    lemma_same_order(r, q, ids, r.len() as int);
    assert(q =~= r);
    q.unique_seq_to_set();
    assert(q.to_set() =~= ids);
}

/// The entry of `m` for a VM, `d` where there is none.
pub open spec fn entry_or(m: Map<u32, u32>, id: u32, d: u32) -> u32 {
    if m.contains_key(id) {
        m[id]
    } else {
        d
    }
}

/// The sum of all entries.
pub open spec fn sum_of(m: Map<u32, u32>) -> nat
    decreases m.dom().len(),
    when m.dom().finite()
{
    if m.dom().len() == 0 {
        0
    } else {
        let k = m.dom().choose();
        m[k] as nat + sum_of(m.remove(k))
    }
}

/// `states` where the vCPUs of a VM changed in a cycle.
pub open spec fn touched(states: Map<u32, VMStateView>, id: u32, cycle: u64) -> Map<
    u32,
    VMStateView,
> {
    if states.contains_key(id) {
        states.insert(id, VMStateView { vcpus_changed_at: cycle, ..states[id] })
    } else {
        states
    }
}

/// How many cycles after a change of its vCPUs a VM is left out: as many as the settings say, and
/// the next one in any case.
pub open spec fn cycles_left_out(cooldown: usize) -> int {
    if cooldown == 0 {
        1
    } else {
        cooldown as int
    }
}

/// A VM whose vCPUs changed is not measured until the cooldown is over.
pub open spec fn cooling(changed_at: u64, cycle: u64, cooldown: usize) -> bool {
    changed_at > 0 && cycle <= changed_at + cycles_left_out(cooldown)
}

/// `loans` with one vCPU more that a VM owes to a lender; `v` is what it had if it owed nothing.
pub open spec fn borrowed(loans: Map<u32, LoanView>, vmid: u32, v: u32, lender: u32) -> Map<
    u32,
    LoanView,
> {
    let base = if loans.contains_key(vmid) {
        loans[vmid]
    } else {
        LoanView { vcpus_initial: v, segments: Seq::empty() }
    };
    loans.insert(vmid, LoanView { segments: added(base.segments, lender, 1), ..base })
}

/// `loans` with one vCPU less that a VM owes; a loan that is paid back is gone.
pub open spec fn redeemed(loans: Map<u32, LoanView>, vmid: u32) -> Map<u32, LoanView> {
    if !loans.contains_key(vmid) {
        loans
    } else {
        let s = repaid(loans[vmid].segments);
        if owed(s) == 0 {
            loans.remove(vmid)
        } else {
            loans.insert(vmid, LoanView { segments: s, ..loans[vmid] })
        }
    }
}

impl BalancerView {
    /// Nothing is known yet.
    pub open spec fn initial(config: AppConfig) -> BalancerView {
        BalancerView {
            config,
            cycle: 0,
            start_ms: 0,
            present: Set::empty(),
            opted_out: Set::empty(),
            limits: Map::empty(),
            active: Seq::empty(),
            states: Map::empty(),
            loans: Map::empty(),
            known: Map::empty(),
            vcpus: Map::empty(),
            averages: Map::empty(),
            cores: Map::empty(),
            metrics: Seq::empty(),
            queue: Seq::empty(),
            at: 0,
            returning: LoanView { vcpus_initial: 0, segments: Seq::empty() },
            phase: Phase::Clock,
        }
    }

    /// The second in which the cycle began.
    pub open spec fn now_secs(self) -> u64 {
        self.start_ms / 1000
    }

    /// The vCPUs of a VM as last set or read, where they are known.
    pub open spec fn known_of(self, id: u32) -> Option<u32> {
        if self.known.contains_key(id) {
            Some(self.known[id])
        } else {
            None
        }
    }

    /// The vCPUs of a VM in this cycle, else as last set or read, where they are known.
    pub open spec fn count_of(self, id: u32) -> Option<u32> {
        if self.vcpus.contains_key(id) {
            Some(self.vcpus[id])
        } else {
            self.known_of(id)
        }
    }

    /// A creditor with `count` vCPUs can get `nb` back: it is a VM that is there and did not opt out,
    /// what it has is known, and it stays within its limits where it has any.
    pub open spec fn refundable(self, id: u32, count: Option<u32>, nb: u32) -> bool {
        &&& id != 0
        &&& nb != 0
        &&& self.present.contains(id)
        &&& !self.opted_out.contains(id)
        &&& count is Some
        &&& count->0 + nb <= u32::MAX
        &&& self.limits.contains_key(id) ==> self.limits[id].min <= count->0 + nb
            <= self.limits[id].max
    }

    /// The average load of a VM, the load one where there is none.
    pub open spec fn load_or_full(self, id: u32) -> Load {
        if self.averages.contains_key(id) {
            self.averages[id]
        } else {
            load_of(FULL_BITS)
        }
    }

    /// The ceiling of a VM's hardware, one where it is not known.
    pub open spec fn cores_of(self, id: u32) -> u32 {
        entry_or(self.cores, id, 1)
    }

    /// For how many cycles a VM has been at rest.
    pub open spec fn low_of(self, id: u32) -> u32 {
        if self.states.contains_key(id) {
            self.states[id].low_counter
        } else {
            0
        }
    }

    /// For how many cycles a VM has been in distress.
    pub open spec fn distress_of(self, id: u32) -> u32 {
        if self.states.contains_key(id) {
            self.states[id].distress_counter
        } else {
            0
        }
    }

    /// A migration of the VM has been asked for.
    pub open spec fn leaving(self, id: u32) -> bool {
        self.states.contains_key(id) && self.states[id].migration_requested()
    }

    /// A VM that takes part and is not cooling down is measured.
    pub open spec fn due(self, id: u32) -> bool {
        !(self.states.contains_key(id) && cooling(
            self.states[id].vcpus_changed_at,
            self.cycle,
            self.config.vcpu_change_cooldown_cycles,
        ))
    }

    /// What is to be known to measure a VM.
    pub open spec fn probe_of(self, id: u32) -> Probe {
        Probe {
            vmid: id,
            known: self.known_of(id),
            min: self.limits[id].min,
        }
    }

    /// Those of `ids` that are to be measured.
    pub open spec fn probes_of(self, ids: Seq<u32>) -> Seq<Probe>
        decreases ids.len(),
    {
        if ids.len() == 0 {
            Seq::empty()
        } else {
            let p = self.probes_of(ids.drop_last());
            if self.due(ids.last()) {
                p.push(self.probe_of(ids.last()))
            } else {
                p
            }
        }
    }

    /// The vCPUs of the cycle, with those of VMs that were not measured as last known.
    pub open spec fn filled(self) -> Map<u32, u32> {
        Map::new(
            |id: u32|
                self.vcpus.contains_key(id) || (self.active.contains(id) && self.known.contains_key(
                    id,
                )),
            |id: u32|
                if self.vcpus.contains_key(id) {
                    self.vcpus[id]
                } else {
                    self.known[id]
                },
        )
    }

    /// The VM needs a vCPU: it has been in distress for long enough, by enough of its measures, is
    /// not leaving and owes nothing.
    pub open spec fn in_need(self, id: u32) -> bool {
        &&& self.averages.contains_key(id)
        &&& self.config.seuil_detresse.le(self.averages[id])
        &&& measures_over(self.states[id].history, self.config.seuil_detresse)
            >= self.config.min_samples_before_action
        &&& self.distress_of(id) >= self.config.duree_avant_action
        &&& !self.leaving(id)
        &&& !self.loans.contains_key(id)
    }

    /// The VM may borrow: it needs a vCPU and has room for it.
    pub open spec fn may_borrow(self, id: u32) -> bool {
        &&& self.in_need(id)
        &&& entry_or(self.vcpus, id, self.limits[id].min) < self.limits[id].max
        &&& entry_or(self.vcpus, id, self.limits[id].min) < self.cores_of(id)
    }

    /// The VMs that may borrow.
    pub open spec fn borrowers(self) -> Set<u32> {
        Set::new(|id: u32| self.may_borrow(id))
    }

    /// `a` is in more distress than `b`: its load is higher, or the same and its number is lower.
    pub open spec fn before(self, a: u32, b: u32) -> bool {
        self.averages[b].lt(self.averages[a]) || (self.averages[a] == self.averages[b] && a < b)
    }

    /// The queue goes from the VM in most distress to the one in least.
    pub open spec fn by_distress(self, q: Seq<u32>) -> bool {
        forall|i: int, j: int| 0 <= i < j < q.len() ==> self.before(#[trigger] q[i], #[trigger] q[j])
    }

    /// The VM may lend to `vmid`: it owes nothing, is neither leaving nor cooling down, has more than
    /// its least and has been at rest for long enough.
    pub open spec fn may_lend(self, vmid: u32, id: u32) -> bool {
        &&& id != vmid
        &&& self.vcpus.contains_key(id)
        &&& self.limits.contains_key(id)
        &&& !self.loans.contains_key(id)
        &&& !self.leaving(id)
        &&& self.averages.contains_key(id) || self.due(id)
        &&& self.vcpus[id] > self.limits[id].min
        &&& self.load_or_full(id).le(self.config.seuil_donneuse)
        &&& self.low_of(id) >= self.config.duree_avant_action
    }

    /// The VM may lend and no other that may has a lower load, or the same and a lower number.
    pub open spec fn best_donor(self, vmid: u32, id: u32) -> bool {
        &&& self.may_lend(vmid, id)
        &&& forall|other: u32|
            self.may_lend(vmid, other) ==> self.load_or_full(id).lt(self.load_or_full(other)) || (
            self.load_or_full(id) == self.load_or_full(other) && id <= other)
    }

    /// The VM is to be asked to migrate: it has been in distress for long enough and has not been
    /// asked lately.
    pub open spec fn must_migrate(self, id: u32) -> bool {
        &&& self.averages.contains_key(id)
        &&& self.states.contains_key(id)
        &&& self.states[id].distress_counter >= self.config.distress_before_migration
        &&& match self.states[id].migration {
            MigrationStatus::Requested { since } => cooled_down(
                since,
                self.now_secs(),
                self.config.migration_cooldown_seconds,
            ),
            MigrationStatus::Unasked => true,
            MigrationStatus::Confirmed => false,
        }
    }

    /// The VMs that are to be asked to migrate.
    pub open spec fn migrants(self) -> Set<u32> {
        Set::new(|id: u32| self.must_migrate(id))
    }

    /// The VM stays in distress.
    pub open spec fn in_lasting_distress(self, id: u32) -> bool {
        &&& self.averages.contains_key(id)
        &&& self.config.seuil_detresse.le(self.averages[id])
        &&& self.states.contains_key(id)
        &&& self.states[id].distress_counter >= self.config.distress_before_migration
    }

    /// How many VMs stay in distress.
    pub open spec fn lasting_distress(self) -> nat {
        self.averages.dom().filter(|id: u32| self.in_lasting_distress(id)).len()
    }

    /// The line that shows a VM that has an average.
    pub open spec fn line_of(self, id: u32, cpu: Seq<char>) -> Seq<char> {
        line_text(
            id,
            self.averages[id],
            cpu,
            entry_or(self.vcpus, id, self.limits[id].min),
            self.limits[id],
            self.states[id],
            if self.loans.contains_key(id) {
                Some(self.loans[id])
            } else {
                None
            },
            self.config.seuil_detresse,
            self.config.seuil_donneuse,
        )
    }

    /// What is shown of the node: a line for each VM that has an average, in ascending order, and the
    /// separator; `cpus` are the loads in percent, in the same order.
    pub open spec fn shown(self, cpus: Seq<Seq<char>>) -> Seq<Seq<char>> {
        let ids = in_order(self.averages.dom());
        Seq::new(ids.len(), |i: int| self.line_of(ids[i], cpus[i])).push(separator())
    }

    /// A new cycle begins.
    pub open spec fn on_clock(self, now_ms: u64) -> BalancerView {
        BalancerView {
            cycle: low64(self.cycle + 1),
            start_ms: now_ms,
            averages: Map::empty(),
            phase: Phase::Listing,
            ..self
        }
    }

    /// The running VMs are known.
    pub open spec fn on_vms(self, all: Seq<u32>) -> BalancerView {
        if all.len() == 0 {
            BalancerView { phase: Phase::Resting { seconds: 5, cause: Cause::NoVms }, ..self }
        } else {
            BalancerView {
                present: all.to_set(),
                opted_out: self.opted_out.intersect(all.to_set()),
                limits: Map::empty(),
                active: Seq::empty(),
                vcpus: Map::empty(),
                averages: Map::empty(),
                queue: all,
                at: 0,
                phase: Phase::Profiling,
                ..self
            }
        }
    }

    /// It is known how a VM stands to the balance. A VM that could not be read has opted out where it
    /// had when it was last read; one that takes part has not.
    pub open spec fn with_standing(self, standing: Standing) -> BalancerView {
        let id = self.queue[self.at as int];
        let next = BalancerView { at: self.at + 1, ..self };
        match standing {
            Standing::Unread => next,
            Standing::OptedOut => BalancerView {
                opted_out: if self.limits.contains_key(id) {
                    self.opted_out
                } else {
                    self.opted_out.insert(id)
                },
                ..next
            },
            Standing::NoProfile => BalancerView { opted_out: self.opted_out.remove(id), ..next },
            Standing::Active { limits } => BalancerView {
                opted_out: self.opted_out.remove(id),
                limits: self.limits.insert(id, limits),
                active: self.active.push(id),
                ..next
            },
        }
    }

    /// It is known how a VM stands to the balance; behind the last VM the loans of the VMs that are
    /// gone are unwound.
    pub open spec fn on_profile(self, standing: Standing, post: BalancerView) -> bool {
        let s = self.with_standing(standing);
        if s.at < s.queue.len() {
            post == s
        } else if s.active.len() == 0 {
            post == BalancerView {
                phase: Phase::Resting {
                    seconds: s.config.check_interval,
                    cause: Cause::NoProfiles,
                },
                ..s
            }
        } else {
            &&& is_listing(post.queue, s.loans.dom().difference(s.present))
            &&& post == BalancerView {
                known: s.known.restrict(s.present),
                queue: post.queue,
                at: 0,
                phase: Phase::Vanished,
                ..s
            }
        }
    }

    /// A borrower has given everything back.
    pub open spec fn resumed(self, vmid: u32, resume: Resume) -> BalancerView {
        BalancerView {
            phase: match resume {
                Resume::Vanished => Phase::Vanished,
                Resume::Migrating { ticks } => Phase::Signalling { vmid, ticks },
            },
            ..self
        }
    }

    /// A borrower is to give everything back: its loan ends, and it goes back to what it had.
    pub open spec fn unwinding(self, vmid: u32, resume: Resume) -> BalancerView {
        if !self.loans.contains_key(vmid) {
            self.resumed(vmid, resume)
        } else {
            let loan = self.loans[vmid];
            BalancerView {
                loans: self.loans.remove(vmid),
                returning: loan,
                phase: if entry_or(self.known, vmid, 0) != loan.vcpus_initial {
                    Phase::ReturnBorrower { vmid, resume }
                } else {
                    Phase::ReturnSegment { vmid, segment: 0, resume }
                },
                ..self
            }
        }
    }

    /// The next VM that is gone gives back what it borrowed; behind the last one what is known of
    /// VMs that are gone is forgotten.
    pub open spec fn on_vanished(self) -> BalancerView {
        if self.at < self.queue.len() {
            BalancerView { at: self.at + 1, ..self }.unwinding(
                self.queue[self.at as int],
                Resume::Vanished,
            )
        } else {
            BalancerView {
                states: self.states.restrict(self.present),
                phase: Phase::Measuring,
                ..self
            }
        }
    }

    /// The vCPUs of a VM were set outside the balance of the cycle.
    pub open spec fn known_set(self, id: u32, vcpus: u32) -> BalancerView {
        BalancerView {
            known: self.known.insert(id, vcpus),
            states: touched(self.states, id, self.cycle),
            ..self
        }
    }

    /// The vCPUs of a VM were set.
    pub open spec fn vcpus_set(self, id: u32, vcpus: u32) -> BalancerView {
        BalancerView {
            vcpus: self.vcpus.insert(id, vcpus),
            known: self.known.insert(id, vcpus),
            states: touched(self.states, id, self.cycle),
            ..self
        }
    }

    /// A borrower went back to what it had, or could not.
    pub open spec fn on_return_borrower(self, vmid: u32, resume: Resume, done: bool) -> BalancerView {
        let s = if done {
            self.known_set(vmid, self.returning.vcpus_initial)
        } else {
            self
        };
        BalancerView { phase: Phase::ReturnSegment { vmid, segment: 0, resume }, ..s }
    }

    /// The next lender gets back what it lent, where it can.
    pub open spec fn on_return_segment(self, vmid: u32, segment: usize, resume: Resume) -> BalancerView {
        if segment >= self.returning.segments.len() {
            self.resumed(vmid, resume)
        } else {
            let seg = self.returning.segments[segment as int];
            let count = self.known_of(seg.preteur_id);
            BalancerView {
                phase: if self.refundable(seg.preteur_id, count, seg.nb_empruntes) {
                    Phase::ReturnLender {
                        vmid,
                        segment,
                        vcpus: (count->0 + seg.nb_empruntes) as u32,
                        resume,
                    }
                } else {
                    Phase::ReturnSegment { vmid, segment: (segment + 1) as usize, resume }
                },
                ..self
            }
        }
    }

    /// A lender got back what it lent, or could not.
    pub open spec fn on_return_lender(
        self,
        vmid: u32,
        segment: usize,
        vcpus: u32,
        resume: Resume,
        done: bool,
    ) -> BalancerView {
        let s = if done {
            self.known_set(self.returning.segments[segment as int].preteur_id, vcpus)
        } else {
            self
        };
        BalancerView {
            phase: Phase::ReturnSegment { vmid, segment: (segment + 1) as usize, resume },
            ..s
        }
    }

    /// The measures are there.
    pub open spec fn on_measures(self, all: Seq<VMMetric>) -> BalancerView {
        BalancerView {
            metrics: all,
            at: 0,
            vcpus: Map::empty(),
            averages: Map::empty(),
            phase: Phase::Recording,
            ..self
        }
    }

    /// What is known of a VM after a measure; one taken before the cycle began is left out.
    pub open spec fn measured(self, m: VMMetric) -> VMStateView {
        let st = if self.states.contains_key(m.vmid) {
            self.states[m.vmid]
        } else {
            VMStateView {
                history: Seq::empty(),
                distress_counter: 0,
                low_counter: 0,
                migration: MigrationStatus::Unasked,
                vcpus_changed_at: 0,
                last_measure_ts: 0,
            }
        };
        if m.ts_ms < self.start_ms {
            st
        } else {
            VMStateView {
                history: slid(st.history, m.usage, self.config.window_size as nat),
                last_measure_ts: m.ts_ms,
                ..st
            }
        }
    }

    /// The next measure is taken in, unless its VM does not take part or is not due; behind the last
    /// one the VMs with an average are gone through.
    pub open spec fn on_record(self, post: BalancerView) -> bool {
        if self.at >= self.metrics.len() {
            if self.averages.dom() =~= Set::empty() {
                post == BalancerView {
                    vcpus: self.filled(),
                    phase: Phase::Resting {
                        seconds: self.config.check_interval,
                        cause: Cause::Accumulating,
                    },
                    ..self
                }
            } else {
                &&& is_listing(post.queue, self.averages.dom())
                &&& post == BalancerView {
                    vcpus: self.filled(),
                    queue: post.queue,
                    at: 0,
                    phase: Phase::Ticking,
                    ..self
                }
            }
        } else {
            let m = self.metrics[self.at as int];
            if !self.limits.contains_key(m.vmid) || !self.due(m.vmid) {
                post == BalancerView { at: self.at + 1, ..self }
            } else {
                let st = self.measured(m);
                let s = BalancerView {
                    known: self.known.insert(m.vmid, m.vcpus),
                    vcpus: self.vcpus.insert(m.vmid, m.vcpus),
                    states: self.states.insert(m.vmid, st),
                    ..self
                };
                if st.history.len() >= self.config.min_samples_before_action && st.history.len()
                    > 0 {
                    post == BalancerView { phase: Phase::Averaging { vmid: m.vmid }, ..s }
                } else {
                    post == BalancerView { at: self.at + 1, ..s }
                }
            }
        }
    }

    /// The average of a VM is known.
    pub open spec fn on_average(self, vmid: u32, load: Load) -> BalancerView {
        BalancerView {
            averages: self.averages.insert(vmid, load),
            at: self.at + 1,
            phase: Phase::Recording,
            ..self
        }
    }

    /// The counters of the next VM move on.
    pub open spec fn on_tick(self) -> BalancerView {
        if self.at >= self.queue.len() {
            BalancerView { phase: Phase::Showing, ..self }
        } else {
            let id = self.queue[self.at as int];
            BalancerView {
                states: self.states.insert(
                    id,
                    self.states[id].ticked(
                        self.averages[id],
                        entry_or(self.vcpus, id, self.limits[id].min),
                        self.limits[id],
                        self.loans.contains_key(id),
                        self.config,
                        self.now_secs(),
                    ),
                ),
                at: self.at + 1,
                ..self
            }
        }
    }

    /// The state has been shown; the loans are gone through.
    pub open spec fn on_show(self, post: BalancerView) -> bool {
        &&& is_listing(post.queue, self.loans.dom())
        &&& post == BalancerView { queue: post.queue, at: 0, phase: Phase::Repaying, ..self }
    }

    /// The next borrower gives one vCPU back if it has been at rest for long enough; a loan of a
    /// VM that has no more than before it borrowed ends.
    pub open spec fn on_repay(self) -> BalancerView {
        if self.at >= self.queue.len() {
            BalancerView { cores: Map::empty(), at: 0, phase: Phase::Cores, ..self }
        } else {
            let id = self.queue[self.at as int];
            let skip = BalancerView { at: self.at + 1, ..self };
            let vcpus = entry_or(self.vcpus, id, 0);
            if !self.loans.contains_key(id) {
                skip
            } else if owed(self.loans[id].segments) == 0 {
                BalancerView { loans: self.loans.remove(id), ..skip }
            } else if self.low_of(id) < self.config.duree_avant_action {
                skip
            } else if vcpus <= self.loans[id].vcpus_initial {
                BalancerView { loans: self.loans.remove(id), ..skip }
            } else {
                BalancerView {
                    phase: Phase::RepayBorrower {
                        vmid: id,
                        vcpus: (vcpus - 1) as u32,
                        lender: self.loans[id].segments.last().preteur_id,
                    },
                    ..self
                }
            }
        }
    }

    /// A repayment is over; where the borrower gave a vCPU back it owes one less.
    pub open spec fn settled(self, vmid: u32, taken: bool) -> BalancerView {
        let s = if taken {
            BalancerView {
                loans: redeemed(self.loans, vmid),
                states: if self.states.contains_key(vmid) {
                    self.states.insert(vmid, VMStateView { low_counter: 0, ..self.states[vmid] })
                } else {
                    self.states
                },
                ..self
            }
        } else {
            self
        };
        BalancerView { at: self.at + 1, phase: Phase::Repaying, ..s }
    }

    /// A borrower gave one vCPU back, or could not; the lender gets it where it can.
    pub open spec fn on_repay_borrower(self, vmid: u32, vcpus: u32, lender: u32, done: bool) -> BalancerView {
        let s = if done {
            self.vcpus_set(vmid, vcpus)
        } else {
            self
        };
        let count = s.count_of(lender);
        if s.refundable(lender, count, 1) {
            BalancerView {
                phase: Phase::RepayLender {
                    vmid,
                    taken: done,
                    lender,
                    vcpus: (count->0 + 1) as u32,
                },
                ..s
            }
        } else {
            s.settled(vmid, done)
        }
    }

    /// A lender got one vCPU back, or could not.
    pub open spec fn on_repay_lender(
        self,
        vmid: u32,
        taken: bool,
        lender: u32,
        vcpus: u32,
        done: bool,
    ) -> BalancerView {
        let s = if done {
            self.vcpus_set(lender, vcpus)
        } else {
            self
        };
        s.settled(vmid, taken)
    }

    /// The ceiling of a VM is known; behind the last one the VMs that may borrow are gone through.
    pub open spec fn on_cores(self, max: u32, post: BalancerView) -> bool {
        let s = BalancerView {
            cores: self.cores.insert(self.active[self.at as int], max),
            at: self.at + 1,
            ..self
        };
        if s.at < s.active.len() {
            post == s
        } else {
            &&& is_listing(post.queue, s.borrowers())
            &&& s.by_distress(post.queue)
            &&& post == BalancerView { queue: post.queue, at: 0, phase: Phase::Lending, ..s }
        }
    }

    /// The next VM of the queue.
    pub open spec fn lending_on(self) -> BalancerView {
        BalancerView { at: self.at + 1, phase: Phase::Lending, ..self }
    }

    /// A donor is sought for the next VM that may borrow, else the host is asked; behind the last
    /// one the VMs to migrate are gone through.
    pub open spec fn on_lend(self, post: BalancerView) -> bool {
        if self.at >= self.queue.len() {
            &&& is_listing(post.queue, self.migrants())
            &&& post == BalancerView { queue: post.queue, at: 0, phase: Phase::Migrating, ..self }
        } else {
            let vmid = self.queue[self.at as int];
            let vcpus = self.vcpus[vmid];
            if vcpus >= self.limits[vmid].max || vcpus >= self.cores_of(vmid) {
                post == self.lending_on()
            } else {
                match post.phase {
                    Phase::LendDonor { donor, .. } => {
                        &&& self.best_donor(vmid, donor)
                        &&& post == BalancerView {
                            phase: Phase::LendDonor {
                                vmid,
                                vcpus,
                                donor,
                                donor_vcpus: self.vcpus[donor],
                            },
                            ..self
                        }
                    },
                    _ => {
                        &&& forall|id: u32| !self.may_lend(vmid, id)
                        &&& post == BalancerView { phase: Phase::Hosting { vmid, vcpus }, ..self }
                    },
                }
            }
        }
    }

    /// A donor's vCPU went to a VM in distress.
    pub open spec fn lent(self, vmid: u32, vcpus: u32, donor: u32, donor_vcpus: u32) -> BalancerView {
        let given = (donor_vcpus - 1) as u32;
        let got = (vcpus + 1) as u32;
        let rested = if self.states.contains_key(donor) {
            self.states.insert(
                donor,
                VMStateView {
                    vcpus_changed_at: self.cycle,
                    low_counter: 0,
                    ..self.states[donor]
                },
            )
        } else {
            self.states
        };
        BalancerView {
            vcpus: self.vcpus.insert(donor, given).insert(vmid, got),
            known: self.known.insert(donor, given).insert(vmid, got),
            states: if rested.contains_key(vmid) {
                rested.insert(
                    vmid,
                    VMStateView {
                        vcpus_changed_at: self.cycle,
                        distress_counter: 0,
                        ..rested[vmid]
                    },
                )
            } else {
                rested
            },
            loans: borrowed(self.loans, vmid, vcpus, donor),
            ..self
        }
    }

    /// The host's vCPU went to a VM in distress.
    pub open spec fn lent_by_host(self, vmid: u32, vcpus: u32) -> BalancerView {
        let got = (vcpus + 1) as u32;
        BalancerView {
            vcpus: self.vcpus.insert(vmid, got),
            known: self.known.insert(vmid, got),
            states: if self.states.contains_key(vmid) {
                self.states.insert(
                    vmid,
                    VMStateView {
                        vcpus_changed_at: self.cycle,
                        distress_counter: 0,
                        ..self.states[vmid]
                    },
                )
            } else {
                self.states
            },
            loans: borrowed(self.loans, vmid, vcpus, 0),
            ..self
        }
    }

    /// A donor gave one vCPU away, or could not.
    pub open spec fn on_lend_donor(
        self,
        vmid: u32,
        vcpus: u32,
        donor: u32,
        donor_vcpus: u32,
        done: bool,
    ) -> BalancerView {
        if done {
            BalancerView {
                phase: Phase::LendBorrower { vmid, vcpus, donor, donor_vcpus },
                ..self
            }
        } else {
            self.lending_on()
        }
    }

    /// A VM in distress got a donor's vCPU, or could not and the donor takes it back.
    pub open spec fn on_lend_borrower(
        self,
        vmid: u32,
        vcpus: u32,
        donor: u32,
        donor_vcpus: u32,
        done: bool,
    ) -> BalancerView {
        if done {
            self.lent(vmid, vcpus, donor, donor_vcpus).lending_on()
        } else {
            BalancerView { phase: Phase::LendUndo { vmid, vcpus, donor, donor_vcpus }, ..self }
        }
    }

    /// It is known what the host can give.
    pub open spec fn on_host(self, vmid: u32, vcpus: u32, overcommit: bool, max: u32) -> BalancerView {
        if overcommit && low32(sum_of(self.vcpus) as int) < max {
            BalancerView { phase: Phase::LendHost { vmid, vcpus }, ..self }
        } else {
            self.lending_on()
        }
    }

    /// A VM in distress got a vCPU of the host, or could not.
    pub open spec fn on_lend_host(self, vmid: u32, vcpus: u32, done: bool) -> BalancerView {
        if done {
            self.lent_by_host(vmid, vcpus).lending_on()
        } else {
            self.lending_on()
        }
    }

    /// The next VM to migrate first gives back what it borrowed.
    pub open spec fn on_migrate(self) -> BalancerView {
        if self.at >= self.queue.len() {
            BalancerView { phase: Phase::Pressure, ..self }
        } else {
            let vmid = self.queue[self.at as int];
            BalancerView { at: self.at + 1, ..self }.unwinding(
                vmid,
                Resume::Migrating { ticks: self.distress_of(vmid) },
            )
        }
    }

    /// A migration was asked for, or could not be.
    pub open spec fn on_signal(self, vmid: u32, done: bool) -> BalancerView {
        BalancerView {
            states: if done && self.states.contains_key(vmid) {
                self.states.insert(
                    vmid,
                    VMStateView {
                        distress_counter: 0,
                        migration: MigrationStatus::Requested { since: self.now_secs() },
                        ..self.states[vmid]
                    },
                )
            } else {
                self.states
            },
            phase: Phase::Migrating,
            ..self
        }
    }

    /// The node is to be lightened where more than one VM stays in distress.
    pub open spec fn on_pressure(self, post: BalancerView) -> bool {
        if self.lasting_distress() > 1 {
            &&& post.phase matches Phase::Lightening { count }
            &&& count == self.lasting_distress()
            &&& post == BalancerView { phase: post.phase, ..self }
        } else {
            post == BalancerView {
                phase: Phase::Resting {
                    seconds: self.config.check_interval,
                    cause: Cause::Balanced,
                },
                ..self
            }
        }
    }
}

/// The work that the machine waits for.
pub open spec fn pending(s: BalancerView) -> Action {
    match s.phase {
        Phase::Clock => Action::ReadClock,
        Phase::Listing => Action::ListVms,
        Phase::Profiling => Action::ReadProfile { vmid: s.queue[s.at as int] },
        Phase::Vanished => Action::Proceed,
        Phase::ReturnBorrower { vmid, .. } => Action::SetVcpus {
            vmid,
            vcpus: s.returning.vcpus_initial,
            purpose: Purpose::ReturnBorrower,
        },
        Phase::ReturnSegment { .. } => Action::Proceed,
        Phase::ReturnLender { segment, vcpus, .. } => Action::SetVcpus {
            vmid: s.returning.segments[segment as int].preteur_id,
            vcpus,
            purpose: Purpose::ReturnLender,
        },
        Phase::Measuring => Action::Measure,
        Phase::Recording => Action::Proceed,
        Phase::Averaging { vmid } => Action::Average { vmid },
        Phase::Ticking => Action::Proceed,
        Phase::Showing => Action::Show,
        Phase::Repaying => Action::Proceed,
        Phase::RepayBorrower { vmid, vcpus, .. } => Action::SetVcpus {
            vmid,
            vcpus,
            purpose: Purpose::RepayBorrower,
        },
        Phase::RepayLender { lender, vcpus, .. } => Action::SetVcpus {
            vmid: lender,
            vcpus,
            purpose: Purpose::RepayLender,
        },
        Phase::Cores => Action::ReadCores { vmid: s.active[s.at as int] },
        Phase::Lending => Action::Proceed,
        Phase::LendDonor { donor, donor_vcpus, .. } => Action::SetVcpus {
            vmid: donor,
            vcpus: (donor_vcpus - 1) as u32,
            purpose: Purpose::LendDonor,
        },
        Phase::LendBorrower { vmid, vcpus, .. } => Action::SetVcpus {
            vmid,
            vcpus: (vcpus + 1) as u32,
            purpose: Purpose::LendBorrower,
        },
        Phase::LendUndo { donor, donor_vcpus, .. } => Action::SetVcpus {
            vmid: donor,
            vcpus: donor_vcpus,
            purpose: Purpose::LendUndo,
        },
        Phase::Hosting { .. } => Action::ReadHost,
        Phase::LendHost { vmid, vcpus } => Action::SetVcpus {
            vmid,
            vcpus: (vcpus + 1) as u32,
            purpose: Purpose::LendHost,
        },
        Phase::Migrating => Action::Proceed,
        Phase::Signalling { vmid, ticks } => Action::SendMigrate {
            vmid,
            ticks,
            urgency: Urgency::High,
        },
        Phase::Pressure => Action::Proceed,
        Phase::Lightening { count } => Action::SendLighten { count, urgency: Urgency::High },
        Phase::Resting { seconds, .. } => Action::Rest { seconds },
    }
}

/// `post` follows on `pre` when `ev` comes; an event that does not answer the work that is waited
/// for changes nothing.
pub open spec fn follows(pre: BalancerView, ev: Event, post: BalancerView) -> bool {
    match (pre.phase, ev) {
        (Phase::Clock, Event::Clock { now_ms }) => post == pre.on_clock(now_ms),
        (Phase::Listing, Event::Vms { vmids }) => post == pre.on_vms(vmids@),
        (Phase::Profiling, Event::Profile { standing }) => pre.on_profile(standing, post),
        (Phase::Vanished, Event::Done) => post == pre.on_vanished(),
        (Phase::ReturnBorrower { vmid, resume }, Event::Applied { done }) => post
            == pre.on_return_borrower(vmid, resume, done),
        (Phase::ReturnSegment { vmid, segment, resume }, Event::Done) => post
            == pre.on_return_segment(vmid, segment, resume),
        (Phase::ReturnLender { vmid, segment, vcpus, resume }, Event::Applied { done }) => post
            == pre.on_return_lender(vmid, segment, vcpus, resume, done),
        (Phase::Measuring, Event::Measures { metrics }) => post == pre.on_measures(metrics@),
        (Phase::Recording, Event::Done) => pre.on_record(post),
        (Phase::Averaging { vmid }, Event::Average { load }) => post == pre.on_average(vmid, load),
        (Phase::Ticking, Event::Done) => post == pre.on_tick(),
        (Phase::Showing, Event::Done) => pre.on_show(post),
        (Phase::Repaying, Event::Done) => post == pre.on_repay(),
        (Phase::RepayBorrower { vmid, vcpus, lender }, Event::Applied { done }) => post
            == pre.on_repay_borrower(vmid, vcpus, lender, done),
        (Phase::RepayLender { vmid, taken, lender, vcpus }, Event::Applied { done }) => post
            == pre.on_repay_lender(vmid, taken, lender, vcpus, done),
        (Phase::Cores, Event::Cores { max }) => pre.on_cores(max, post),
        (Phase::Lending, Event::Done) => pre.on_lend(post),
        (Phase::LendDonor { vmid, vcpus, donor, donor_vcpus }, Event::Applied { done }) => post
            == pre.on_lend_donor(vmid, vcpus, donor, donor_vcpus, done),
        (Phase::LendBorrower { vmid, vcpus, donor, donor_vcpus }, Event::Applied { done }) => post
            == pre.on_lend_borrower(vmid, vcpus, donor, donor_vcpus, done),
        (Phase::LendUndo { .. }, Event::Applied { .. }) => post == pre.lending_on(),
        (Phase::Hosting { vmid, vcpus }, Event::Host { overcommit, max }) => post == pre.on_host(
            vmid,
            vcpus,
            overcommit,
            max,
        ),
        (Phase::LendHost { vmid, vcpus }, Event::Applied { done }) => post == pre.on_lend_host(
            vmid,
            vcpus,
            done,
        ),
        (Phase::Migrating, Event::Done) => post == pre.on_migrate(),
        (Phase::Signalling { vmid, .. }, Event::Sent { done }) => post == pre.on_signal(vmid, done),
        (Phase::Pressure, Event::Done) => pre.on_pressure(post),
        (Phase::Lightening { .. }, Event::Sent { .. }) => post == BalancerView {
            phase: Phase::Resting { seconds: pre.config.check_interval, cause: Cause::Balanced },
            ..pre
        },
        (Phase::Resting { .. }, Event::Done) => post == BalancerView { phase: Phase::Clock, ..pre },
        _ => post == pre,
    }
}

/// A loan of one vCPU from the host or from one other VM: a VM that owes does not borrow again.
pub open spec fn is_single(id: u32, loan: LoanView) -> bool {
    &&& loan.segments.len() == 1
    &&& loan.segments[0].nb_empruntes == 1
    &&& loan.segments[0].preteur_id != 0 ==> loan.segments[0].preteur_id != id
}

impl BalancerView {
    /// Every loan is a loan of one vCPU.
    pub open spec fn loans_wf(self) -> bool {
        forall|id: u32| self.loans.contains_key(id) ==> is_single(id, #[trigger] self.loans[id])
    }

    /// What holds of the tables in every phase.
    pub open spec fn tables_wf(self) -> bool {
        &&& self.loans_wf()
        &&& forall|id: u32| #[trigger]
            self.limits.contains_key(id) ==> self.present.contains(id)
        &&& forall|i: int|
            0 <= i < self.active.len() ==> self.limits.contains_key(#[trigger] self.active[i])
        &&& forall|id: u32| #[trigger]
            self.limits.contains_key(id) ==> self.active.contains(id)
        &&& forall|id: u32| #[trigger]
            self.averages.contains_key(id) ==> self.limits.contains_key(id)
                && self.states.contains_key(id) && self.vcpus.contains_key(id) && (
            self.states[id].vcpus_changed_at == self.cycle || self.due(id))
        &&& forall|id: u32| #[trigger]
            self.opted_out.contains(id) ==> !self.limits.contains_key(id)
                && !self.vcpus.contains_key(id)
        &&& self.vcpus.dom().finite()
    }

    /// The VMs that are gone are forgotten: no state and no loan is kept for them.
    pub open spec fn purged(self) -> bool {
        &&& forall|id: u32| #[trigger]
            self.states.contains_key(id) ==> self.present.contains(id)
        &&& forall|id: u32| #[trigger] self.loans.contains_key(id) ==> self.present.contains(id)
    }

    /// The vCPUs of every VM that takes part stand in the table of the cycle, where they are known.
    pub open spec fn counted(self) -> bool {
        forall|id: u32|
            self.limits.contains_key(id) && self.known.contains_key(id)
                ==> #[trigger] self.vcpus.contains_key(id)
    }

    /// A VM that is gone owes nothing, or its turn is still to come.
    pub open spec fn purging(self) -> bool {
        &&& self.at <= self.queue.len()
        &&& self.active.len() > 0
        &&& self.averages.dom() =~= Set::empty()
        &&& forall|i: int|
            0 <= i < self.queue.len() ==> !self.present.contains(#[trigger] self.queue[i])
        &&& forall|id: u32| #[trigger]
            self.loans.contains_key(id) ==> self.present.contains(id) || exists|i: int|
                self.at <= i < self.queue.len() && self.queue[i] == id
    }

    /// The VMs whose turn is still to come are to be asked to migrate.
    pub open spec fn emigrating(self) -> bool {
        &&& self.purged()
        &&& self.at <= self.queue.len()
        &&& self.queue.no_duplicates()
        &&& forall|i: int|
            self.at <= i < self.queue.len() ==> self.must_migrate(#[trigger] self.queue[i])
    }

    /// The VM at hand is to be asked to migrate and owes nothing any more.
    pub open spec fn departing(self, vmid: u32, ticks: u32) -> bool {
        &&& self.emigrating()
        &&& 0 < self.at
        &&& self.queue[self.at - 1] == vmid
        &&& self.must_migrate(vmid)
        &&& self.states[vmid].distress_counter == ticks
        &&& !self.loans.contains_key(vmid)
    }

    /// The loan at hand has ended and is being unwound.
    pub open spec fn returning_wf(self, vmid: u32, resume: Resume) -> bool {
        &&& is_single(vmid, self.returning)
        &&& match resume {
            Resume::Vanished => self.purging() && !self.loans.contains_key(vmid)
                && !self.present.contains(vmid),
            Resume::Migrating { ticks } => self.departing(vmid, ticks),
        }
    }

    /// The VMs whose turn is still to come need a vCPU.
    pub open spec fn lending_wf(self) -> bool {
        &&& self.purged()
        &&& self.at <= self.queue.len()
        &&& self.queue.no_duplicates()
        &&& forall|i: int|
            self.at <= i < self.queue.len() ==> self.in_need(#[trigger] self.queue[i])
    }

    /// The VM is there, did not opt out and may have so many vCPUs.
    pub open spec fn within_limits(self, id: u32, vcpus: u32) -> bool {
        &&& self.present.contains(id)
        &&& !self.opted_out.contains(id)
        &&& self.limits.contains_key(id) ==> self.limits[id].min <= vcpus <= self.limits[id].max
    }

    /// A VM is about to get a vCPU: it needs one and has room.
    pub open spec fn borrowing(self, vmid: u32, vcpus: u32) -> bool {
        &&& self.lending_wf()
        &&& self.at < self.queue.len()
        &&& self.queue[self.at as int] == vmid
        &&& self.vcpus[vmid] == vcpus
        &&& vcpus < self.limits[vmid].max
        &&& vcpus < self.cores_of(vmid)
    }

    /// A donor is about to give a vCPU.
    pub open spec fn giving(self, vmid: u32, vcpus: u32, donor: u32, donor_vcpus: u32) -> bool {
        &&& self.borrowing(vmid, vcpus)
        &&& self.may_lend(vmid, donor)
        &&& self.vcpus[donor] == donor_vcpus
    }

    /// What holds in the phase that the machine is in.
    pub open spec fn phase_wf(self) -> bool {
        match self.phase {
            Phase::Clock | Phase::Listing | Phase::Resting { .. } => true,
            Phase::Profiling => {
                &&& self.at < self.queue.len()
                &&& self.averages.dom() =~= Set::empty()
                &&& self.vcpus.dom() =~= Set::empty()
                &&& forall|i: int|
                    0 <= i < self.queue.len() ==> self.present.contains(#[trigger] self.queue[i])
            },
            Phase::Vanished => self.purging(),
            Phase::ReturnBorrower { vmid, resume } => self.returning_wf(vmid, resume),
            Phase::ReturnSegment { vmid, segment, resume } => {
                &&& self.returning_wf(vmid, resume)
                &&& segment <= self.returning.segments.len()
            },
            Phase::ReturnLender { vmid, segment, vcpus, resume } => {
                &&& self.returning_wf(vmid, resume)
                &&& segment < self.returning.segments.len()
                &&& self.within_limits(
                    self.returning.segments[segment as int].preteur_id,
                    vcpus,
                )
            },
            Phase::Measuring => self.purged() && self.active.len() > 0,
            Phase::Recording => {
                &&& self.purged()
                &&& self.active.len() > 0
                &&& self.at <= self.metrics.len()
            },
            Phase::Averaging { vmid } => {
                &&& self.purged()
                &&& self.active.len() > 0
                &&& self.at < self.metrics.len()
                &&& self.limits.contains_key(vmid)
                &&& self.states.contains_key(vmid)
                &&& self.vcpus.contains_key(vmid)
                &&& self.due(vmid)
            },
            Phase::Ticking => {
                &&& self.purged()
                &&& self.counted()
                &&& self.active.len() > 0
                &&& self.at <= self.queue.len()
                &&& forall|i: int|
                    0 <= i < self.queue.len() ==> self.averages.contains_key(
                        #[trigger] self.queue[i],
                    )
            },
            Phase::Showing => self.purged() && self.counted() && self.active.len() > 0,
            Phase::Repaying => {
                &&& self.purged()
                &&& self.counted()
                &&& self.active.len() > 0
                &&& self.at <= self.queue.len()
            },
            Phase::RepayBorrower { vmid, vcpus, lender } => {
                &&& self.purged()
                &&& self.counted()
                &&& self.active.len() > 0
                &&& self.at < self.queue.len()
                &&& self.loans.contains_key(vmid)
                &&& self.loans[vmid].segments.last().preteur_id == lender
                &&& self.loans[vmid].vcpus_initial <= vcpus
                &&& self.vcpus.contains_key(vmid)
                &&& self.vcpus[vmid] == vcpus + 1
            },
            Phase::RepayLender { vmid, taken, lender, vcpus } => {
                &&& self.purged()
                &&& self.counted()
                &&& self.active.len() > 0
                &&& self.at < self.queue.len()
                &&& self.loans.contains_key(vmid)
                &&& self.loans[vmid].segments.last().preteur_id == lender
                &&& self.within_limits(lender, vcpus)
            },
            Phase::Cores => self.purged() && self.at < self.active.len(),
            Phase::Lending => self.lending_wf(),
            Phase::LendDonor { vmid, vcpus, donor, donor_vcpus }
            | Phase::LendBorrower { vmid, vcpus, donor, donor_vcpus }
            | Phase::LendUndo { vmid, vcpus, donor, donor_vcpus } => self.giving(
                vmid,
                vcpus,
                donor,
                donor_vcpus,
            ),
            Phase::Hosting { vmid, vcpus } | Phase::LendHost { vmid, vcpus } => self.borrowing(
                vmid,
                vcpus,
            ),
            Phase::Migrating => self.emigrating(),
            Phase::Signalling { vmid, ticks } => self.departing(vmid, ticks),
            Phase::Pressure => self.purged(),
            Phase::Lightening { count } => self.purged() && count > 1,
        }
    }

    /// What holds between any two steps.
    pub open spec fn wf(self) -> bool {
        self.tables_wf() && self.phase_wf()
    }
}

/// Giving back a loan of one vCPU ends it.
pub proof fn lemma_single_is_redeemed(id: u32, loan: LoanView)
    requires
        is_single(id, loan),
    ensures
        owed(loan.segments) == 1,
        owed(repaid(loan.segments)) == 0,
{
    let s = loan.segments;
    assert(s.drop_last() =~= Seq::empty());
    assert(owed(s.drop_last()) == 0);
    assert(pruned(s) == s);
}

/// The first vCPU that a VM borrows makes a loan of one.
pub proof fn lemma_first_is_single(loans: Map<u32, LoanView>, vmid: u32, v: u32, lender: u32)
    requires
        !loans.contains_key(vmid),
    ensures
        borrowed(loans, vmid, v, lender) == loans.insert(
            vmid,
            LoanView {
                vcpus_initial: v,
                segments: seq![LoanSegment { preteur_id: lender, nb_empruntes: 1 }],
            },
        ),
{
    let none = Seq::<LoanSegment>::empty();
    assert(!exists|i: int| segment_of(none, lender, i));
    assert(added(none, lender, 1) =~= seq![LoanSegment { preteur_id: lender, nb_empruntes: 1 }]);
}

proof fn lemma_unwinding_keeps_wf(s: BalancerView, vmid: u32, resume: Resume)
    requires
        s.tables_wf(),
        resume is Vanished ==> s.at > 0 && s.queue[s.at - 1] == vmid && (BalancerView {
            at: (s.at - 1) as nat,
            ..s
        }).purging() && s.at <= s.queue.len(),
        resume matches Resume::Migrating { ticks } ==> (BalancerView {
            loans: s.loans.remove(vmid),
            ..s
        }).departing(vmid, ticks),
    ensures
        s.unwinding(vmid, resume).wf(),
{
    let r = s.unwinding(vmid, resume);
    let q = BalancerView { loans: s.loans.remove(vmid), ..s };
    match resume {
        Resume::Vanished => {
            assert forall|id: u32| #[trigger] r.loans.contains_key(id) implies r.present.contains(
                id,
            ) || exists|i: int| r.at <= i < r.queue.len() && r.queue[i] == id by {
                let p = BalancerView { at: (s.at - 1) as nat, ..s };
                assert(p.loans.contains_key(id));
                if !p.present.contains(id) {
                    let i = choose|i: int| p.at <= i < p.queue.len() && p.queue[i] == id;
                    assert(r.at <= i < r.queue.len() && r.queue[i] == id);
                }
            }
        },
        Resume::Migrating { ticks } => {
            if !s.loans.contains_key(vmid) {
                assert(s.loans.remove(vmid) =~= s.loans);
            }
            assert(r.must_migrate(vmid));
            assert forall|i: int| r.at <= i < r.queue.len() implies r.must_migrate(
                #[trigger] r.queue[i],
            ) by {
                assert(q.must_migrate(q.queue[i]));
            }
        },
    }
}

proof fn lemma_listing_keeps_wf(pre: BalancerView, ev: Event, post: BalancerView)
    requires
        pre.wf(),
        follows(pre, ev, post),
        pre.phase is Clock || pre.phase is Listing || pre.phase is Profiling
            || pre.phase is Vanished,
    ensures
        post.wf(),
{
    match (pre.phase, ev) {
        (Phase::Listing, Event::Vms { vmids }) => {
            assert forall|i: int| 0 <= i < vmids@.len() implies vmids@.to_set().contains(
                #[trigger] vmids@[i],
            ) by {}
        },
        (Phase::Profiling, Event::Profile { standing }) => {
            let s = pre.with_standing(standing);
            assert forall|id: u32| #[trigger] s.limits.contains_key(id) implies s.active.contains(
                id,
            ) by {
                if pre.limits.contains_key(id) {
                    let i = choose|i: int| 0 <= i < pre.active.len() && pre.active[i] == id;
                    assert(s.active[i] == id);
                } else {
                    assert(s.active[pre.active.len() as int] == id);
                }
            }
            assert(s.tables_wf());
            if s.at == s.queue.len() && s.active.len() > 0 {
                assert forall|id: u32| #[trigger] post.loans.contains_key(
                    id,
                ) implies post.present.contains(id) || exists|i: int|
                    post.at <= i < post.queue.len() && post.queue[i] == id by {
                    if !post.present.contains(id) {
                        assert(s.loans.dom().difference(s.present).contains(id));
                        assert(post.queue.contains(id));
                    }
                }
                assert forall|i: int| 0 <= i < post.queue.len() implies !post.present.contains(
                    #[trigger] post.queue[i],
                ) by {
                    assert(post.queue.contains(post.queue[i]));
                    assert(s.loans.dom().difference(s.present).contains(post.queue[i]));
                }
            }
        },
        (Phase::Vanished, Event::Done) => {
            if pre.at < pre.queue.len() {
                let s = BalancerView { at: pre.at + 1, ..pre };
                assert(BalancerView { at: (s.at - 1) as nat, ..s } == pre);
                lemma_unwinding_keeps_wf(s, pre.queue[pre.at as int], Resume::Vanished);
            }
        },
        _ => {},
    }
}

proof fn lemma_known_set_keeps_wf(s: BalancerView, vmid: u32, resume: Resume, id: u32, vcpus: u32)
    requires
        s.tables_wf(),
        s.returning_wf(vmid, resume),
    ensures
        s.known_set(id, vcpus).tables_wf(),
        s.known_set(id, vcpus).returning_wf(vmid, resume),
{
    let r = s.known_set(id, vcpus);
    if let Resume::Migrating { ticks } = resume {
        assert(r.must_migrate(vmid));
        assert forall|i: int| r.at <= i < r.queue.len() implies r.must_migrate(
            #[trigger] r.queue[i],
        ) by {
            assert(s.must_migrate(s.queue[i]));
        }
    }
}

proof fn lemma_return_keeps_wf(pre: BalancerView, ev: Event, post: BalancerView)
    requires
        pre.wf(),
        follows(pre, ev, post),
        pre.phase is ReturnBorrower || pre.phase is ReturnSegment || pre.phase is ReturnLender,
    ensures
        post.wf(),
{
    match (pre.phase, ev) {
        (Phase::ReturnBorrower { vmid, resume }, Event::Applied { done }) => {
            lemma_known_set_keeps_wf(pre, vmid, resume, vmid, pre.returning.vcpus_initial);
        },
        (Phase::ReturnLender { vmid, segment, vcpus, resume }, Event::Applied { done }) => {
            let lender = pre.returning.segments[segment as int].preteur_id;
            lemma_known_set_keeps_wf(pre, vmid, resume, lender, vcpus);
        },
        _ => {},
    }
}

proof fn lemma_measure_keeps_wf(pre: BalancerView, ev: Event, post: BalancerView)
    requires
        pre.wf(),
        follows(pre, ev, post),
        pre.phase is Measuring || pre.phase is Recording || pre.phase is Averaging
            || pre.phase is Ticking || pre.phase is Showing,
    ensures
        post.wf(),
{
    if pre.phase is Recording {
        let all = pre.vcpus.dom().union(pre.active.to_set());
        assert(pre.filled().dom().subset_of(all));
        vstd::set_lib::lemma_set_subset_finite(all, pre.filled().dom());
    }
}

proof fn lemma_repay_keeps_wf(pre: BalancerView, ev: Event, post: BalancerView)
    requires
        pre.wf(),
        follows(pre, ev, post),
        pre.phase is Repaying || pre.phase is RepayBorrower || pre.phase is RepayLender
            || pre.phase is Cores,
    ensures
        post.wf(),
{
    match (pre.phase, ev) {
        (Phase::RepayBorrower { vmid, .. }, Event::Applied { .. })
        | (Phase::RepayLender { vmid, .. }, Event::Applied { .. }) => {
            lemma_single_is_redeemed(vmid, pre.loans[vmid]);
        },
        (Phase::Cores, Event::Cores { max }) => {
            if post.phase is Lending {
                let s = BalancerView {
                    cores: pre.cores.insert(pre.active[pre.at as int], max),
                    at: pre.at + 1,
                    ..pre
                };
                assert forall|i: int| 0 <= i < post.queue.len() implies post.in_need(
                    #[trigger] post.queue[i],
                ) by {
                    assert(post.queue.contains(post.queue[i]));
                    assert(s.borrowers().contains(post.queue[i]));
                }
            }
        },
        _ => {},
    }
}

proof fn lemma_lend_keeps_wf(pre: BalancerView, ev: Event, post: BalancerView)
    requires
        pre.wf(),
        follows(pre, ev, post),
        pre.phase is Lending || pre.phase is LendDonor || pre.phase is LendBorrower
            || pre.phase is LendUndo || pre.phase is Hosting || pre.phase is LendHost,
    ensures
        post.wf(),
{
    match (pre.phase, ev) {
        (Phase::Lending, Event::Done) => {
            if pre.at >= pre.queue.len() {
                assert forall|i: int| 0 <= i < post.queue.len() implies post.must_migrate(
                    #[trigger] post.queue[i],
                ) by {
                    assert(post.queue.contains(post.queue[i]));
                    assert(pre.migrants().contains(post.queue[i]));
                }
            }
        },
        (Phase::LendBorrower { vmid, vcpus, donor, .. }, Event::Applied { .. }) => {
            lemma_first_is_single(pre.loans, vmid, vcpus, donor);
        },
        (Phase::LendHost { vmid, vcpus }, Event::Applied { .. }) => {
            lemma_first_is_single(pre.loans, vmid, vcpus, 0);
        },
        _ => {},
    }
}

proof fn lemma_migrate_keeps_wf(pre: BalancerView, ev: Event, post: BalancerView)
    requires
        pre.wf(),
        follows(pre, ev, post),
        pre.phase is Migrating || pre.phase is Signalling || pre.phase is Pressure
            || pre.phase is Lightening || pre.phase is Resting,
    ensures
        post.wf(),
{
    match (pre.phase, ev) {
        (Phase::Migrating, Event::Done) => {
            if pre.at < pre.queue.len() {
                let vmid = pre.queue[pre.at as int];
                let s = BalancerView { at: pre.at + 1, ..pre };
                let q = BalancerView { loans: s.loans.remove(vmid), ..s };
                assert(pre.must_migrate(vmid));
                assert(q.must_migrate(vmid));
                assert forall|i: int| q.at <= i < q.queue.len() implies q.must_migrate(
                    #[trigger] q.queue[i],
                ) by {
                    assert(pre.must_migrate(pre.queue[i]));
                }
                lemma_unwinding_keeps_wf(
                    s,
                    vmid,
                    Resume::Migrating { ticks: pre.distress_of(vmid) },
                );
            }
        },
        (Phase::Signalling { vmid, .. }, Event::Sent { .. }) => {
            assert forall|i: int| post.at <= i < post.queue.len() implies post.must_migrate(
                #[trigger] post.queue[i],
            ) by {
                assert(pre.must_migrate(pre.queue[i]));
                assert(pre.queue[i] != pre.queue[pre.at - 1]);
            }
        },
        _ => {},
    }
}

/// A step keeps what holds between steps.
pub proof fn lemma_step_keeps_wf(pre: BalancerView, ev: Event, post: BalancerView)
    requires
        pre.wf(),
        follows(pre, ev, post),
    ensures
        post.wf(),
{
    match pre.phase {
        Phase::Clock | Phase::Listing | Phase::Profiling | Phase::Vanished => {
            lemma_listing_keeps_wf(pre, ev, post);
        },
        Phase::ReturnBorrower { .. }
        | Phase::ReturnSegment { .. }
        | Phase::ReturnLender { .. } => {
            lemma_return_keeps_wf(pre, ev, post);
        },
        Phase::Measuring
        | Phase::Recording
        | Phase::Averaging { .. }
        | Phase::Ticking
        | Phase::Showing => {
            lemma_measure_keeps_wf(pre, ev, post);
        },
        Phase::Repaying
        | Phase::RepayBorrower { .. }
        | Phase::RepayLender { .. }
        | Phase::Cores => {
            lemma_repay_keeps_wf(pre, ev, post);
        },
        Phase::Lending
        | Phase::LendDonor { .. }
        | Phase::LendBorrower { .. }
        | Phase::LendUndo { .. }
        | Phase::Hosting { .. }
        | Phase::LendHost { .. } => {
            lemma_lend_keeps_wf(pre, ev, post);
        },
        Phase::Migrating
        | Phase::Signalling { .. }
        | Phase::Pressure
        | Phase::Lightening { .. }
        | Phase::Resting { .. } => {
            lemma_migrate_keeps_wf(pre, ev, post);
        },
    }
}

} // verus!
