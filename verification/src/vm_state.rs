//! What the agent remembers of each VM.

use vstd::prelude::*;
use std::collections::VecDeque;
use crate::config::AppConfig;
use crate::load::Load;
#[allow(unused_imports)]
use crate::load::{load_of, IDLE_BITS};

verus! {

/// Where a VM stands with its migration.
#[derive(Clone, Copy, Debug, PartialEq, Eq, Structural)]
pub enum MigrationStatus {
    /// Not asked for.
    Unasked,
    /// Asked for at that second.
    Requested { since: u64 },
    Confirmed,
}

/// The bounds that a profile sets.
#[derive(Clone, Copy, Debug, PartialEq, Eq, Structural)]
pub struct Limits {
    pub min: u32,
    pub max: u32,
}

/// What is known of a VM.
#[derive(Debug)]
pub struct VMState {
    /// The latest measures, each as the bits of a double, the oldest first.
    pub history: VecDeque<u64>,
    pub distress_counter: u32,
    pub low_counter: u32,
    pub migration: MigrationStatus,
    /// The cycle in which the vCPUs were last changed, 0 for never.
    pub vcpus_changed_at: u64,
    /// When, in milliseconds, the last accepted measure was taken.
    pub last_measure_ts: u64,
}

/// What a `VMState` holds.
pub struct VMStateView {
    pub history: Seq<u64>,
    pub distress_counter: u32,
    pub low_counter: u32,
    pub migration: MigrationStatus,
    pub vcpus_changed_at: u64,
    pub last_measure_ts: u64,
}

impl View for VMState {
    type V = VMStateView;

    open spec fn view(&self) -> VMStateView {
        VMStateView {
            history: self.history@,
            distress_counter: self.distress_counter,
            low_counter: self.low_counter,
            migration: self.migration,
            vcpus_changed_at: self.vcpus_changed_at,
            last_measure_ts: self.last_measure_ts,
        }
    }
}

/// A measure joined to the window: the oldest one leaves where the window is full.
pub open spec fn slid(history: Seq<u64>, v: u64, window_size: nat) -> Seq<u64> {
    if history.len() + 1 > window_size {
        history.push(v).drop_first()
    } else {
        history.push(v)
    }
}

/// How many of the measures reach a threshold.
pub open spec fn measures_over(history: Seq<u64>, threshold: Load) -> nat
    decreases history.len(),
{
    if history.len() == 0 {
        0
    } else {
        measures_over(history.drop_last(), threshold) + (if threshold.le(load_of(history.last())) {
            1nat
        } else {
            0
        })
    }
}

/// The number after `n` in 32 bits.
pub open spec fn next32(n: u32) -> u32 {
    if n == u32::MAX {
        0
    } else {
        (n + 1) as u32
    }
}

/// The number after `n` in 32 bits.
pub fn one_more(n: u32) -> (r: u32)
    ensures
        r == next32(n),
{
    if n == u32::MAX {
        0
    } else {
        n + 1
    }
}

/// The migration was asked for so long ago that it may be asked for again.
pub open spec fn cooled_down(since: u64, now_secs: u64, cooldown: u64) -> bool {
    now_secs - since > cooldown
}

/// What becomes of a request to migrate whose time is over.
pub open spec fn lapsed(m: MigrationStatus, now_secs: u64, cooldown: u64) -> MigrationStatus {
    match m {
        MigrationStatus::Requested { since } => if cooled_down(since, now_secs, cooldown) {
            MigrationStatus::Unasked
        } else {
            m
        },
        _ => m,
    }
}

/// Under this load a VM is at rest at once.
pub open spec fn idle() -> Load {
    load_of(IDLE_BITS)
}

impl VMStateView {
    /// A migration has been asked for.
    pub open spec fn migration_requested(self) -> bool {
        self.migration is Requested
    }

    /// The counters after one more cycle at a load.
    pub open spec fn ticked(
        self,
        avg: Load,
        vcpus: u32,
        limits: Limits,
        has_loan: bool,
        cfg: AppConfig,
        now_secs: u64,
    ) -> VMStateView {
        if avg.lt(idle()) {
            VMStateView {
                low_counter: (cfg.duree_avant_action as u64 % 0x1_0000_0000) as u32,
                distress_counter: 0,
                ..self
            }
        } else if cfg.seuil_detresse.le(avg) && vcpus < limits.max {
            VMStateView {
                distress_counter: next32(self.distress_counter),
                low_counter: 0,
                migration: lapsed(self.migration, now_secs, cfg.migration_cooldown_seconds),
                ..self
            }
        } else if avg.le(cfg.seuil_remboursement) && (has_loan || vcpus > limits.min) {
            VMStateView {
                low_counter: next32(self.low_counter),
                distress_counter: 0,
                ..self
            }
        } else {
            VMStateView {
                distress_counter: 0,
                low_counter: if self.low_counter > 0 {
                    (self.low_counter - 1) as u32
                } else {
                    0
                },
                migration: lapsed(self.migration, now_secs, cfg.migration_cooldown_seconds),
                ..self
            }
        }
    }
}

/// What becomes of a request to migrate whose time is over.
fn lapse(m: MigrationStatus, now_secs: u64, cooldown: u64) -> (r: MigrationStatus)
    ensures
        r == lapsed(m, now_secs, cooldown),
{
    match m {
        MigrationStatus::Requested { since } => {
            if now_secs.saturating_sub(since) > cooldown {
                MigrationStatus::Unasked
            } else {
                m
            }
        },
        _ => m,
    }
}

impl VMState {
    /// A VM of which nothing is known.
    pub fn new(window_size: usize) -> (r: VMState)
        ensures
            r@ == (VMStateView {
                history: Seq::empty(),
                distress_counter: 0,
                low_counter: 0,
                migration: MigrationStatus::Unasked,
                vcpus_changed_at: 0,
                last_measure_ts: 0,
            }),
    {
        let r: VMState = VMState {
            history: VecDeque::with_capacity(window_size),
            distress_counter: 0,
            low_counter: 0,
            migration: MigrationStatus::Unasked,
            vcpus_changed_at: 0,
            last_measure_ts: 0,
        };
        assert(r@.history =~= Seq::empty());
        r
    }

    /// Takes in a measure; one taken before the cycle began is left out. Tells whether it was
    /// taken in.
    pub fn push(&mut self, v: u64, ts_ms: u64, window_size: usize, cycle_start_ms: u64) -> (r: bool)
        ensures
            r == (ts_ms >= cycle_start_ms),
            final(self)@ == (if ts_ms < cycle_start_ms {
                old(self)@
            } else {
                VMStateView {
                    history: slid(old(self)@.history, v, window_size as nat),
                    last_measure_ts: ts_ms,
                    ..old(self)@
                }
            }),
    {
        if ts_ms < cycle_start_ms {
            return false;
        }
        self.last_measure_ts = ts_ms;
        self.history.push_back(v);
        if self.history.len() > window_size {
            let ghost full = self.history@;
            let _ = self.history.pop_front();
            assert(self.history@ =~= full.drop_first());
        }
        true
    }

    /// Tells whether there are enough measures.
    pub fn ready(&self, min_samples: usize) -> (r: bool)
        ensures
            r == (self@.history.len() >= min_samples),
    {
        self.history.len() >= min_samples
    }

    /// Counts the measures that reach a threshold.
    pub fn measures_over(&self, threshold: Load) -> (r: usize)
        ensures
            r == measures_over(self@.history, threshold),
    {
        let n: usize = self.history.len();
        let mut count: usize = 0;
        let mut i: usize = 0;
        assert(self.history@.take(0) =~= Seq::empty());
        while i < n
            invariant
                i <= n,
                n == self.history@.len(),
                count <= i,
                count == measures_over(self.history@.take(i as int), threshold),
            decreases n - i,
        {
            assert(self.history@.take(i + 1).drop_last() =~= self.history@.take(i as int));
            if threshold.at_most(Load::from_bits(self.history[i])) {
                count = count + 1;
            }
            i = i + 1;
        }
        assert(self.history@.take(i as int) =~= self.history@);
        count
    }

    /// Tells whether a migration has been asked for.
    pub fn migration_requested(&self) -> (r: bool)
        ensures
            r == self@.migration_requested(),
    {
        match self.migration {
            MigrationStatus::Requested { since: _ } => true,
            _ => false,
        }
    }

    /// Counts one more cycle at a load.
    pub fn tick(
        &mut self,
        avg: Load,
        vcpus: u32,
        limits: Limits,
        has_loan: bool,
        cfg: &AppConfig,
        now_secs: u64,
    )
        ensures
            final(self)@ == old(self)@.ticked(avg, vcpus, limits, has_loan, *cfg, now_secs),
    {
        if avg.below(Load::from_bits(IDLE_BITS)) {
            self.low_counter = (cfg.duree_avant_action as u64 % 0x1_0000_0000) as u32;
            self.distress_counter = 0;
        } else if cfg.seuil_detresse.at_most(avg) && vcpus < limits.max {
            self.distress_counter = one_more(self.distress_counter);
            self.low_counter = 0;
            self.migration = lapse(self.migration, now_secs, cfg.migration_cooldown_seconds);
        } else if avg.at_most(cfg.seuil_remboursement) && (has_loan || vcpus > limits.min) {
            self.low_counter = one_more(self.low_counter);
            self.distress_counter = 0;
        } else {
            self.distress_counter = 0;
            if self.low_counter > 0 {
                self.low_counter = self.low_counter - 1;
            }
            self.migration = lapse(self.migration, now_secs, cfg.migration_cooldown_seconds);
        }
    }
}

/// The window never holds more than its size.
pub proof fn law_window_stays_within_its_size(history: Seq<u64>, v: u64, window_size: nat)
    requires
        history.len() <= window_size,
    ensures
        slid(history, v, window_size).len() <= window_size,
        window_size > 0 ==> slid(history, v, window_size).last() == v,
{
}

/// No measures reach no threshold, and each further measure counts exactly where it reaches it.
pub proof fn law_measures_count_where_they_reach(history: Seq<u64>, v: u64, threshold: Load)
    ensures
        measures_over(Seq::empty(), threshold) == 0,
        threshold.le(load_of(v)) ==> measures_over(history.push(v), threshold) == measures_over(
            history,
            threshold,
        ) + 1,
        !threshold.le(load_of(v)) ==> measures_over(history.push(v), threshold) == measures_over(
            history,
            threshold,
        ),
{
    assert(history.push(v).drop_last() =~= history);
}

/// A measure joins the window at its end; the others keep their order, and at most the oldest one
/// leaves, where the window would hold more than its size.
pub proof fn law_the_oldest_measure_leaves(history: Seq<u64>, v: u64, window_size: nat, i: int)
    ensures
        history.len() < window_size ==> slid(history, v, window_size).len() == history.len() + 1 && (
        0 <= i < history.len() ==> slid(history, v, window_size)[i] == history[i]) && slid(
            history,
            v,
            window_size,
        ).last() == v,
        history.len() >= window_size && history.len() > 0 ==> slid(history, v, window_size).len()
            == history.len() && (0 <= i < history.len() - 1 ==> slid(history, v, window_size)[i]
            == history[i + 1]) && slid(history, v, window_size).last() == v,
        history.len() == 0 && window_size == 0 ==> slid(history, v, window_size).len() == 0,
{
}

} // verus!
