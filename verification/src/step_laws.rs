//! What each step of the cycle does, told from the tables alone.

use vstd::prelude::*;
#[allow(unused_imports)]
use crate::config::AppConfig;
#[allow(unused_imports)]
use crate::load::{load_of, Load, FULL_BITS, IDLE_BITS};
#[allow(unused_imports)]
use crate::loan::{owed, segment_of, LoanSegment, LoanView};
#[allow(unused_imports)]
use crate::tables::lemma_sum_with;
#[allow(unused_imports)]
use crate::machine::{
    borrowed, follows, lemma_single_is_redeemed, pending, sum_of, Action, BalancerView,
    Cause, Event, Phase, Probe, Purpose, Resume, VMMetric,
};
#[allow(unused_imports)]
use crate::signals::Urgency;
#[allow(unused_imports)]
use crate::vm_recognizer::Standing;
#[allow(unused_imports)]
use crate::vm_state::{measures_over, Limits, MigrationStatus, VMStateView};

verus! {

/// A cycle begins with the next number and the time that was read; nothing else is forgotten than
/// the averages.
pub proof fn law_cycle_begins(pre: BalancerView, now_ms: u64, post: BalancerView)
    requires
        pre.phase is Clock,
        follows(pre, Event::Clock { now_ms }, post),
    ensures
        post.cycle == (if pre.cycle == u64::MAX {
            0
        } else {
            pre.cycle + 1
        }),
        post.start_ms == now_ms,
        forall|id: u32| !post.averages.contains_key(id),
        post == (BalancerView {
            cycle: post.cycle,
            start_ms: post.start_ms,
            averages: post.averages,
            phase: Phase::Listing,
            ..pre
        }),
{
}

/// The VMs of a cycle are those listed; what was found out about VMs in an earlier cycle is gone,
/// but for the states, the loans, the counts and who opted out. Without VMs the agent rests for five
/// seconds.
pub proof fn law_cycle_takes_the_listed_vms(
    pre: BalancerView,
    vmids: Vec<u32>,
    post: BalancerView,
)
    requires
        pre.phase is Listing,
        follows(pre, Event::Vms { vmids }, post),
    ensures
        vmids@.len() == 0 ==> post == (BalancerView {
            phase: Phase::Resting { seconds: 5, cause: Cause::NoVms },
            ..pre
        }),
        vmids@.len() > 0 ==> {
            &&& forall|id: u32| post.present.contains(id) <==> vmids@.contains(id)
            &&& forall|id: u32|
                post.opted_out.contains(id) <==> pre.opted_out.contains(id) && vmids@.contains(id)
            &&& forall|id: u32| !post.limits.contains_key(id)
            &&& forall|id: u32| !post.vcpus.contains_key(id)
            &&& forall|id: u32| !post.averages.contains_key(id)
            &&& post.active.len() == 0
            &&& post == BalancerView {
                present: post.present,
                opted_out: post.opted_out,
                limits: post.limits,
                active: post.active,
                vcpus: post.vcpus,
                averages: post.averages,
                queue: vmids@,
                at: 0,
                phase: Phase::Profiling,
                ..pre
            }
        },
{
    assert forall|id: u32| vmids@.len() > 0 implies (post.present.contains(id)
        <==> vmids@.contains(id)) by {}
}

/// A VM takes part exactly where it is told to be active, with the limits told; it has opted out
/// exactly where that was told last, and does not take part.
pub proof fn law_standing_is_taken_in(pre: BalancerView, standing: Standing, post: BalancerView)
    requires
        pre.phase is Profiling,
        follows(pre, Event::Profile { standing }, post),
    ensures
        ({
            let id = pre.queue[pre.at as int];
            &&& forall|x: u32|
                post.limits.contains_key(x) <==> pre.limits.contains_key(x) || (standing is Active
                    && x == id)
            &&& forall|x: u32|
                pre.limits.contains_key(x) && !(standing is Active && x == id)
                    ==> #[trigger] post.limits[x] == pre.limits[x]
            &&& standing matches Standing::Active { limits } ==> post.limits[id] == limits
                && post.active == pre.active.push(id)
            &&& !(standing is Active) ==> post.active == pre.active
            &&& forall|x: u32| x != id ==> (post.opted_out.contains(x) <==> pre.opted_out.contains(x))
            &&& match standing {
                Standing::Unread => post.opted_out.contains(id) <==> pre.opted_out.contains(id),
                Standing::OptedOut => if pre.limits.contains_key(id) {
                    post.opted_out.contains(id) <==> pre.opted_out.contains(id)
                } else {
                    post.opted_out.contains(id)
                },
                _ => !post.opted_out.contains(id),
            }
            &&& post.states == pre.states
            &&& post.loans == pre.loans
        }),
{
}

/// Every VM of the list is asked about. Behind the last one the agent rests where none takes part;
/// else what is known of VMs that are gone is dropped, and exactly the VMs that owe and are gone are
/// gone through.
pub proof fn law_every_vm_is_asked_about(pre: BalancerView, standing: Standing, post: BalancerView)
    requires
        pre.phase is Profiling,
        follows(pre, Event::Profile { standing }, post),
    ensures
        post == (BalancerView {
            opted_out: post.opted_out,
            limits: post.limits,
            active: post.active,
            known: post.known,
            queue: post.queue,
            at: post.at,
            phase: post.phase,
            ..pre
        }),
        pre.at + 1 < pre.queue.len() ==> post.phase is Profiling && post.at == pre.at + 1
            && post.queue == pre.queue && post.known == pre.known,
        pre.at + 1 >= pre.queue.len() && post.active.len() == 0 ==> post.phase == (Phase::Resting {
            seconds: pre.config.check_interval,
            cause: Cause::NoProfiles,
        }) && post.known == pre.known,
        pre.at + 1 >= pre.queue.len() && post.active.len() > 0 ==> {
            &&& post.phase is Vanished
            &&& post.at == 0
            &&& post.queue.no_duplicates()
            &&& forall|x: u32| #[trigger]
                post.queue.contains(x) <==> pre.loans.contains_key(x) && !pre.present.contains(x)
            &&& forall|x: u32| #[trigger]
                post.known.contains_key(x) <==> pre.known.contains_key(x) && pre.present.contains(x)
            &&& forall|x: u32| post.known.contains_key(x) ==> #[trigger] post.known[x]
                == pre.known[x]
        },
{
    assert forall|x: u32| pre.at + 1 >= pre.queue.len() && post.active.len() > 0 implies (
    #[trigger] post.queue.contains(x) <==> pre.loans.contains_key(x) && !pre.present.contains(x)) by {
        assert(pre.loans.dom().difference(pre.present).contains(x) <==> pre.loans.contains_key(x)
            && !pre.present.contains(x));
    }
}

/// A VM that is gone or is to migrate gives up its loan at once. It is set back to what it had,
/// unless it is known to have just that; the lenders come next.
pub proof fn law_leaving_ends_the_loan(pre: BalancerView, post: BalancerView)
    requires
        pre.phase is Vanished || pre.phase is Migrating,
        pre.at < pre.queue.len(),
        follows(pre, Event::Done, post),
    ensures
        ({
            let id = pre.queue[pre.at as int];
            let resume = if pre.phase is Vanished {
                Resume::Vanished
            } else {
                Resume::Migrating {
                    ticks: if pre.states.contains_key(id) {
                        pre.states[id].distress_counter
                    } else {
                        0
                    },
                }
            };
            &&& post == BalancerView {
                at: pre.at + 1,
                loans: post.loans,
                returning: post.returning,
                phase: post.phase,
                ..pre
            }
            &&& forall|x: u32|
                post.loans.contains_key(x) <==> pre.loans.contains_key(x) && x != id
            &&& forall|x: u32| post.loans.contains_key(x) ==> #[trigger] post.loans[x] == pre.loans[x]
            &&& pre.loans.contains_key(id) ==> post.returning == pre.loans[id] && (if (if pre.known.contains_key(
                id,
            ) {
                pre.known[id]
            } else {
                0
            }) == pre.loans[id].vcpus_initial {
                post.phase == Phase::ReturnSegment { vmid: id, segment: 0, resume }
            } else {
                post.phase == Phase::ReturnBorrower { vmid: id, resume }
            })
            &&& !pre.loans.contains_key(id) ==> post.phase == (match resume {
                Resume::Vanished => Phase::Vanished,
                Resume::Migrating { ticks } => Phase::Signalling { vmid: id, ticks },
            })
        }),
{
}

/// Behind the last VM that is gone, exactly the states of the VMs that are there are kept, and the
/// measuring begins. Behind the last VM that is to migrate, the pressure on the node is looked at.
pub proof fn law_behind_the_last_vm_that_leaves(pre: BalancerView, post: BalancerView)
    requires
        pre.phase is Vanished || pre.phase is Migrating,
        pre.at >= pre.queue.len(),
        follows(pre, Event::Done, post),
    ensures
        pre.phase is Vanished ==> {
            &&& post == BalancerView { states: post.states, phase: Phase::Measuring, ..pre }
            &&& forall|x: u32| #[trigger]
                post.states.contains_key(x) <==> pre.states.contains_key(x) && pre.present.contains(x)
            &&& forall|x: u32| post.states.contains_key(x) ==> #[trigger] post.states[x]
                == pre.states[x]
        },
        pre.phase is Migrating ==> post == (BalancerView { phase: Phase::Pressure, ..pre }),
{
}

/// Whether the borrower could be set back or not, its lenders come next, from the first on. Only
/// where it could, its count and the cycle of the change are noted.
pub proof fn law_lenders_come_whether_the_borrower_could_be_set_or_not(
    pre: BalancerView,
    vmid: u32,
    resume: Resume,
    done: bool,
    post: BalancerView,
)
    requires
        pre.phase == (Phase::ReturnBorrower { vmid, resume }),
        follows(pre, Event::Applied { done }, post),
    ensures
        post == (BalancerView {
            known: if done {
                pre.known.insert(vmid, pre.returning.vcpus_initial)
            } else {
                pre.known
            },
            states: if done && pre.states.contains_key(vmid) {
                pre.states.insert(
                    vmid,
                    VMStateView { vcpus_changed_at: pre.cycle, ..pre.states[vmid] },
                )
            } else {
                pre.states
            },
            phase: Phase::ReturnSegment { vmid, segment: 0, resume },
            ..pre
        }),
{
}

/// A lender gets back what it lent exactly where it is a VM that is there, did not opt out, is known
/// to have a number of vCPUs, and stays within its limits, if it has any; it is set to what it has
/// and what it lent. Else the next lender comes, and behind the last one what was left off goes on.
pub proof fn law_lenders_get_back_what_they_lent(
    pre: BalancerView,
    vmid: u32,
    segment: usize,
    resume: Resume,
    post: BalancerView,
)
    requires
        pre.phase == (Phase::ReturnSegment { vmid, segment, resume }),
        pre.returning.segments.len() <= usize::MAX,
        follows(pre, Event::Done, post),
    ensures
        post == (BalancerView { phase: post.phase, ..pre }),
        segment >= pre.returning.segments.len() ==> post.phase == (match resume {
            Resume::Vanished => Phase::Vanished,
            Resume::Migrating { ticks } => Phase::Signalling { vmid, ticks },
        }),
        segment < pre.returning.segments.len() ==> {
            let lender = pre.returning.segments[segment as int].preteur_id;
            let nb = pre.returning.segments[segment as int].nb_empruntes;
            let has = pre.known[lender];
            if lender != 0 && nb != 0 && pre.present.contains(lender) && !pre.opted_out.contains(
                lender,
            ) && pre.known.contains_key(lender) && has + nb <= u32::MAX && (
            !pre.limits.contains_key(lender) || (pre.limits[lender].min <= has + nb && has + nb
                <= pre.limits[lender].max)) {
                &&& pending(post) matches Action::SetVcpus { vmid: target, vcpus, purpose }
                &&& target == lender
                &&& vcpus == has + nb
                &&& purpose == Purpose::ReturnLender
                &&& post.phase == Phase::ReturnLender { vmid, segment, vcpus, resume }
            } else {
                post.phase matches Phase::ReturnSegment { vmid: v, segment: next, resume: r } && v
                    == vmid && next == segment + 1 && r == resume
            }
        },
{
}

/// Behind a lender the next one comes, whether it could be set or not. Only where it could, its count
/// and the cycle of the change are noted.
pub proof fn law_each_lender_has_its_turn(
    pre: BalancerView,
    vmid: u32,
    segment: usize,
    vcpus: u32,
    resume: Resume,
    done: bool,
    post: BalancerView,
)
    requires
        pre.phase == (Phase::ReturnLender { vmid, segment, vcpus, resume }),
        segment < usize::MAX,
        follows(pre, Event::Applied { done }, post),
    ensures
        ({
            let lender = pre.returning.segments[segment as int].preteur_id;
            &&& post.phase matches Phase::ReturnSegment { vmid: v, segment: next, resume: r }
            &&& v == vmid && next == segment + 1 && r == resume
            &&& post == BalancerView {
                known: if done {
                    pre.known.insert(lender, vcpus)
                } else {
                    pre.known
                },
                states: if done && pre.states.contains_key(lender) {
                    pre.states.insert(
                        lender,
                        VMStateView { vcpus_changed_at: pre.cycle, ..pre.states[lender] },
                    )
                } else {
                    pre.states
                },
                phase: post.phase,
                ..pre
            }
        }),
{
}

/// An early return goes through with a borrower that could not be set back too: its lender is set to
/// what it has and the vCPU that it lent, where it is there, did not opt out, is known to have a
/// number of vCPUs and stays within its limits.
pub proof fn law_early_return_reaches_the_lender(
    s: BalancerView,
    vmid: u32,
    resume: Resume,
    done: bool,
    tried: BalancerView,
    next: BalancerView,
)
    requires
        s.wf(),
        s.phase == (Phase::ReturnBorrower { vmid, resume }),
        follows(s, Event::Applied { done }, tried),
        follows(tried, Event::Done, next),
    ensures
        ({
            let lender = s.returning.segments[0].preteur_id;
            let has = s.known[lender];
            lender != 0 && s.present.contains(lender) && !s.opted_out.contains(lender)
                && s.known.contains_key(lender) && has < u32::MAX && (s.limits.contains_key(lender)
                ==> s.limits[lender].min <= has + 1 && has + 1 <= s.limits[lender].max)
                ==> pending(next) == (Action::SetVcpus {
                vmid: lender,
                vcpus: (has + 1) as u32,
                purpose: Purpose::ReturnLender,
            })
        }),
{
}

/// Measuring begins with no counts and no averages of the cycle.
pub proof fn law_measures_are_gone_through(
    pre: BalancerView,
    metrics: Vec<VMMetric>,
    post: BalancerView,
)
    requires
        pre.phase is Measuring,
        follows(pre, Event::Measures { metrics }, post),
    ensures
        forall|id: u32| !post.vcpus.contains_key(id),
        forall|id: u32| !post.averages.contains_key(id),
        post == (BalancerView {
            metrics: metrics@,
            at: 0,
            vcpus: post.vcpus,
            averages: post.averages,
            phase: Phase::Recording,
            ..pre
        }),
{
}

/// A measure counts exactly where its VM takes part and its vCPUs did not change in this cycle, the
/// one before or as many before as the cooldown says. The count of vCPUs is noted; the load joins the
/// window, unless it was taken before the cycle began. An average is asked for exactly where there
/// are enough measures, and one at least.
pub proof fn law_measures_count_in_turn(pre: BalancerView, post: BalancerView)
    requires
        pre.phase is Recording,
        pre.at < pre.metrics.len(),
        follows(pre, Event::Done, post),
    ensures
        ({
            let m = pre.metrics[pre.at as int];
            let id = m.vmid;
            let cooling = pre.states.contains_key(id) && pre.states[id].vcpus_changed_at > 0 && (
            pre.cycle <= pre.states[id].vcpus_changed_at + 1 || pre.cycle
                <= pre.states[id].vcpus_changed_at + pre.config.vcpu_change_cooldown_cycles);
            if !pre.limits.contains_key(id) || cooling {
                post == BalancerView { at: pre.at + 1, ..pre }
            } else {
                let old = if pre.states.contains_key(id) {
                    pre.states[id].history
                } else {
                    Seq::empty()
                };
                let new = post.states[id].history;
                &&& post == BalancerView {
                    known: pre.known.insert(id, m.vcpus),
                    vcpus: pre.vcpus.insert(id, m.vcpus),
                    states: pre.states.insert(id, post.states[id]),
                    at: post.at,
                    phase: post.phase,
                    ..pre
                }
                &&& if m.ts_ms < pre.start_ms {
                    new == old
                } else if old.len() + 1 <= pre.config.window_size {
                    new == old.push(m.usage)
                } else {
                    new == old.push(m.usage).skip(1)
                }
                &&& post.states[id] == VMStateView {
                    history: new,
                    last_measure_ts: if m.ts_ms < pre.start_ms {
                        if pre.states.contains_key(id) {
                            pre.states[id].last_measure_ts
                        } else {
                            0
                        }
                    } else {
                        m.ts_ms
                    },
                    ..if pre.states.contains_key(id) {
                        pre.states[id]
                    } else {
                        VMStateView {
                            history: new,
                            distress_counter: 0,
                            low_counter: 0,
                            migration: MigrationStatus::Unasked,
                            vcpus_changed_at: 0,
                            last_measure_ts: 0,
                        }
                    }
                }
                &&& if new.len() > 0 && new.len() >= pre.config.min_samples_before_action {
                    post.phase == Phase::Averaging { vmid: id } && post.at == pre.at
                } else {
                    post.phase is Recording && post.at == pre.at + 1
                }
            }
        }),
{
    let m = pre.metrics[pre.at as int];
    let old = if pre.states.contains_key(m.vmid) {
        pre.states[m.vmid].history
    } else {
        Seq::empty()
    };
    assert(old.push(m.usage).skip(1) =~= old.push(m.usage).drop_first());
}

/// Behind the last measure, the count of a VM that takes part and was not measured is the last one
/// known. Without any average the agent rests; else exactly the VMs with an average are gone through.
pub proof fn law_counts_are_filled_in(pre: BalancerView, post: BalancerView)
    requires
        pre.phase is Recording,
        pre.at >= pre.metrics.len(),
        follows(pre, Event::Done, post),
    ensures
        forall|x: u32| #[trigger]
            post.vcpus.contains_key(x) <==> pre.vcpus.contains_key(x) || (pre.active.contains(x)
                && pre.known.contains_key(x)),
        forall|x: u32| #[trigger]
            post.vcpus.contains_key(x) ==> post.vcpus[x] == (if pre.vcpus.contains_key(x) {
                pre.vcpus[x]
            } else {
                pre.known[x]
            }),
        (forall|x: u32| !pre.averages.contains_key(x)) ==> post == (BalancerView {
            vcpus: post.vcpus,
            phase: Phase::Resting {
                seconds: pre.config.check_interval,
                cause: Cause::Accumulating,
            },
            ..pre
        }),
        (exists|x: u32| pre.averages.contains_key(x)) ==> {
            &&& post == BalancerView {
                vcpus: post.vcpus,
                queue: post.queue,
                at: 0,
                phase: Phase::Ticking,
                ..pre
            }
            &&& post.queue.no_duplicates()
            &&& forall|x: u32| #[trigger]
                post.queue.contains(x) <==> pre.averages.contains_key(x)
        },
{
    if forall|x: u32| !pre.averages.contains_key(x) {
        assert(pre.averages.dom() =~= Set::empty());
    }
    if exists|x: u32| pre.averages.contains_key(x) {
        let x = choose|x: u32| pre.averages.contains_key(x);
        assert(pre.averages.dom().contains(x));
        assert(!(pre.averages.dom() =~= Set::empty()));
    }
}

/// An average that was worked out counts for its VM in this cycle.
pub proof fn law_average_is_taken_in(pre: BalancerView, vmid: u32, load: Load, post: BalancerView)
    requires
        pre.phase == (Phase::Averaging { vmid }),
        follows(pre, Event::Average { load }, post),
    ensures
        post == (BalancerView {
            averages: pre.averages.insert(vmid, load),
            at: pre.at + 1,
            phase: Phase::Recording,
            ..pre
        }),
{
}

/// Under a fifth, a VM is at rest at once and not in distress.
pub proof fn law_idle_vms_are_at_rest(
    st: VMStateView,
    avg: Load,
    vcpus: u32,
    limits: Limits,
    has_loan: bool,
    cfg: AppConfig,
    now: u64,
)
    requires
        avg.lt(load_of(IDLE_BITS)),
    ensures
        ({
            let new = st.ticked(avg, vcpus, limits, has_loan, cfg, now);
            &&& new.low_counter == cfg.duree_avant_action as u64 % 0x1_0000_0000
            &&& new == VMStateView { low_counter: new.low_counter, distress_counter: 0, ..st }
        }),
{
}

/// The distress of a VM goes on exactly where its load is a fifth at least and at least the
/// threshold, and it could have more vCPUs; it has one cycle of distress more. In any other cycle it
/// has none.
pub proof fn law_distress_needs_a_high_load(
    st: VMStateView,
    avg: Load,
    vcpus: u32,
    limits: Limits,
    has_loan: bool,
    cfg: AppConfig,
    now: u64,
)
    ensures
        ({
            let new = st.ticked(avg, vcpus, limits, has_loan, cfg, now);
            if cfg.seuil_detresse.le(avg) && load_of(IDLE_BITS).le(avg) && vcpus < limits.max {
                &&& new.distress_counter == (st.distress_counter + 1) % 0x1_0000_0000
                &&& new.low_counter == 0
            } else {
                new.distress_counter == 0
            }
        }),
{
}

/// Away from idleness and distress, the rest of a VM lasts one cycle longer exactly where its load is
/// at most the threshold to pay back and it borrowed or has more than its least; else it is one cycle
/// shorter, and never below none.
pub proof fn law_rest_needs_a_low_load(
    st: VMStateView,
    avg: Load,
    vcpus: u32,
    limits: Limits,
    has_loan: bool,
    cfg: AppConfig,
    now: u64,
)
    requires
        !avg.lt(load_of(IDLE_BITS)),
        !(cfg.seuil_detresse.le(avg) && vcpus < limits.max),
    ensures
        ({
            let new = st.ticked(avg, vcpus, limits, has_loan, cfg, now);
            if avg.le(cfg.seuil_remboursement) && (has_loan || vcpus > limits.min) {
                new.low_counter == (st.low_counter + 1) % 0x1_0000_0000
            } else {
                new.low_counter + 1 == st.low_counter || (st.low_counter == 0 && new.low_counter
                    == 0)
            }
        }),
{
}

/// A cycle ends a request to migrate exactly where its time is over and the VM is neither idle nor
/// resting; it changes nothing but the request and the two counters.
pub proof fn law_requests_lapse(
    st: VMStateView,
    avg: Load,
    vcpus: u32,
    limits: Limits,
    has_loan: bool,
    cfg: AppConfig,
    now: u64,
)
    ensures
        ({
            let new = st.ticked(avg, vcpus, limits, has_loan, cfg, now);
            let busy = !avg.lt(load_of(IDLE_BITS)) && ((cfg.seuil_detresse.le(avg) && vcpus
                < limits.max) || !(avg.le(cfg.seuil_remboursement) && (has_loan || vcpus
                > limits.min)));
            &&& match st.migration {
                MigrationStatus::Requested { since } => if busy && now > since
                    + cfg.migration_cooldown_seconds {
                    new.migration is Unasked
                } else {
                    new.migration == st.migration
                },
                _ => new.migration == st.migration,
            }
            &&& new == VMStateView {
                distress_counter: new.distress_counter,
                low_counter: new.low_counter,
                migration: new.migration,
                ..st
            }
        }),
{
}

/// The counters of each VM with an average move on, by its average, its vCPUs, its limits and
/// whether it borrowed; behind the last one the state is shown.
pub proof fn law_counters_move_on(pre: BalancerView, post: BalancerView)
    requires
        pre.phase is Ticking,
        follows(pre, Event::Done, post),
    ensures
        pre.at >= pre.queue.len() ==> post == (BalancerView { phase: Phase::Showing, ..pre }),
        pre.at < pre.queue.len() ==> {
            let id = pre.queue[pre.at as int];
            let vcpus = if pre.vcpus.contains_key(id) {
                pre.vcpus[id]
            } else {
                pre.limits[id].min
            };
            post == BalancerView {
                states: pre.states.insert(
                    id,
                    pre.states[id].ticked(
                        pre.averages[id],
                        vcpus,
                        pre.limits[id],
                        pre.loans.contains_key(id),
                        pre.config,
                        pre.start_ms / 1000,
                    ),
                ),
                at: pre.at + 1,
                ..pre
            }
        },
{
}

/// After its turn a VM is in distress only at a load that reaches the threshold, with fewer vCPUs
/// than its most.
pub proof fn law_distress_is_counted_at_a_high_load(pre: BalancerView, post: BalancerView)
    requires
        pre.phase is Ticking,
        pre.at < pre.queue.len(),
        follows(pre, Event::Done, post),
        pre.vcpus.contains_key(pre.queue[pre.at as int]),
    ensures
        ({
            let id = pre.queue[pre.at as int];
            &&& post.states[id].distress_counter > 0 ==> pre.config.seuil_detresse.le(
                pre.averages[id],
            ) && load_of(IDLE_BITS).le(pre.averages[id]) && pre.vcpus[id] < pre.limits[id].max
            &&& pre.config.seuil_detresse.le(pre.averages[id]) && load_of(IDLE_BITS).le(
                pre.averages[id],
            ) && pre.vcpus[id] < pre.limits[id].max ==> post.states[id].distress_counter == (
            pre.states[id].distress_counter + 1) % 0x1_0000_0000
        }),
{
}

/// Once its counters have moved on, a VM is in distress only at a load that reaches the threshold.
pub open spec fn distress_is_told(s: BalancerView) -> bool {
    match s.phase {
        Phase::Ticking => forall|id: u32| #[trigger]
            s.averages.contains_key(id) ==> (s.states[id].distress_counter > 0
                ==> s.config.seuil_detresse.le(s.averages[id])) || exists|i: int|
                s.at <= i < s.queue.len() && s.queue[i] == id,
        Phase::Clock
        | Phase::Listing
        | Phase::Profiling
        | Phase::Vanished
        | Phase::ReturnBorrower { resume: Resume::Vanished, .. }
        | Phase::ReturnSegment { resume: Resume::Vanished, .. }
        | Phase::ReturnLender { resume: Resume::Vanished, .. }
        | Phase::Measuring
        | Phase::Recording
        | Phase::Averaging { .. }
        | Phase::Resting { .. } => true,
        _ => forall|id: u32| #[trigger]
            s.averages.contains_key(id) ==> (s.states[id].distress_counter > 0
                ==> s.config.seuil_detresse.le(s.averages[id])),
    }
}

/// A new balancer counts no distress, and every step keeps to it that distress is counted only at a
/// load that reaches the threshold.
pub proof fn law_distress_stays_told(config: AppConfig, pre: BalancerView, ev: Event, post: BalancerView)
    ensures
        distress_is_told(BalancerView::initial(config)),
        pre.wf() && distress_is_told(pre) && follows(pre, ev, post) ==> distress_is_told(post),
{
    if pre.wf() && distress_is_told(pre) && follows(pre, ev, post) {
        match (pre.phase, ev) {
            (Phase::Recording, Event::Done) => {
                if post.phase is Ticking {
                    assert forall|id: u32| #[trigger]
                        post.averages.contains_key(id) implies exists|i: int|
                        post.at <= i < post.queue.len() && post.queue[i] == id by {
                        assert(pre.averages.dom().contains(id));
                        assert(post.queue.contains(id));
                    }
                }
            },
            _ => {},
        }
    }
}

/// Where distress counts at all, a VM is asked to migrate only in a cycle in which its load reaches
/// the threshold, after as many cycles of distress as the settings say.
pub proof fn law_requests_come_in_distress(s: BalancerView, vmid: u32, ticks: u32, urgency: Urgency)
    requires
        s.wf(),
        distress_is_told(s),
        pending(s) == (Action::SendMigrate { vmid, ticks, urgency }),
    ensures
        s.averages.contains_key(vmid),
        s.states[vmid].distress_counter == ticks,
        ticks >= s.config.distress_before_migration,
        s.config.distress_before_migration > 0 ==> s.config.seuil_detresse.le(s.averages[vmid]),
        !s.loans.contains_key(vmid),
        urgency is High,
{
}

/// Once the state was shown, exactly the VMs that owe are gone through.
pub proof fn law_every_loan_has_its_turn(pre: BalancerView, post: BalancerView)
    requires
        pre.phase is Showing,
        follows(pre, Event::Done, post),
    ensures
        post.queue.no_duplicates(),
        forall|x: u32| #[trigger] post.queue.contains(x) <==> pre.loans.contains_key(x),
        post == (BalancerView { queue: post.queue, at: 0, phase: Phase::Repaying, ..pre }),
{
}

/// A borrower gives one vCPU back exactly where it has been at rest for long enough and has more
/// than before it borrowed. Where it has no more, or owes nothing, its loan ends without a change of
/// its vCPUs; behind the last borrower the ceilings are read.
pub proof fn law_rested_borrowers_pay_back(pre: BalancerView, post: BalancerView)
    requires
        pre.wf(),
        pre.phase is Repaying,
        follows(pre, Event::Done, post),
    ensures
        pre.at >= pre.queue.len() ==> (forall|x: u32| !post.cores.contains_key(x)) && post == (
        BalancerView { cores: post.cores, at: 0, phase: Phase::Cores, ..pre }),
        pre.at < pre.queue.len() ==> {
            let id = pre.queue[pre.at as int];
            let has = pre.vcpus[id];
            let rest = pre.states[id].low_counter;
            let least = pre.config.duree_avant_action;
            if !pre.loans.contains_key(id) {
                post == BalancerView { at: pre.at + 1, ..pre }
            } else if (pre.states.contains_key(id) && rest >= least) || least == 0 {
                if pre.vcpus.contains_key(id) && has > pre.loans[id].vcpus_initial {
                    &&& pending(post) matches Action::SetVcpus { vmid, vcpus, purpose }
                    &&& vmid == id
                    &&& vcpus == has - 1
                    &&& purpose == Purpose::RepayBorrower
                    &&& post == BalancerView {
                        phase: Phase::RepayBorrower {
                            vmid: id,
                            vcpus,
                            lender: pre.loans[id].segments[0].preteur_id,
                        },
                        ..pre
                    }
                } else {
                    post == BalancerView { loans: pre.loans.remove(id), at: pre.at + 1, ..pre }
                }
            } else {
                post == BalancerView { at: pre.at + 1, ..pre }
            }
        },
{
    if pre.at < pre.queue.len() && pre.loans.contains_key(pre.queue[pre.at as int]) {
        let id = pre.queue[pre.at as int];
        lemma_single_is_redeemed(id, pre.loans[id]);
        assert(owed(pre.loans[id].segments) == 1) by {
            reveal_with_fuel(owed, 2);
            assert(pre.loans[id].segments.drop_last() =~= Seq::empty());
        }
    }
}

/// When a borrower was to give one vCPU back, its lender gets one exactly where it is a VM that is
/// there, did not opt out, has a known number of vCPUs and stays within its limits with one more: the
/// next work is to set it to one more, whatever its load, its counters and its loans are.
pub proof fn law_lenders_get_one_back(
    pre: BalancerView,
    vmid: u32,
    vcpus: u32,
    lender: u32,
    done: bool,
    post: BalancerView,
)
    requires
        pre.phase == (Phase::RepayBorrower { vmid, vcpus, lender }),
        lender != vmid || lender == 0,
        follows(pre, Event::Applied { done }, post),
    ensures
        ({
            let counted = pre.vcpus.contains_key(lender) || pre.known.contains_key(lender);
            let has = if pre.vcpus.contains_key(lender) {
                pre.vcpus[lender]
            } else {
                pre.known[lender]
            };
            if lender != 0 && pre.present.contains(lender) && !pre.opted_out.contains(lender)
                && counted && has < u32::MAX && (!pre.limits.contains_key(lender) || (
            pre.limits[lender].min <= has + 1 && has + 1 <= pre.limits[lender].max)) {
                &&& pending(post) == Action::SetVcpus {
                    vmid: lender,
                    vcpus: (has + 1) as u32,
                    purpose: Purpose::RepayLender,
                }
                &&& post.phase == Phase::RepayLender {
                    vmid,
                    taken: done,
                    lender,
                    vcpus: (has + 1) as u32,
                }
                &&& post.loans == pre.loans
                &&& post.at == pre.at
            } else {
                post.phase is Repaying && post.at == pre.at + 1
            }
        }),
{
}

/// What a borrower that gave a vCPU back, or could not, changes in the tables: its count and the cycle
/// of the change where it could.
pub proof fn law_repayment_counts_the_borrower(
    pre: BalancerView,
    vmid: u32,
    vcpus: u32,
    lender: u32,
    done: bool,
    post: BalancerView,
)
    requires
        pre.phase == (Phase::RepayBorrower { vmid, vcpus, lender }),
        follows(pre, Event::Applied { done }, post),
    ensures
        post == (BalancerView {
            vcpus: if done {
                pre.vcpus.insert(vmid, vcpus)
            } else {
                pre.vcpus
            },
            known: if done {
                pre.known.insert(vmid, vcpus)
            } else {
                pre.known
            },
            states: post.states,
            loans: post.loans,
            at: post.at,
            phase: post.phase,
            ..pre
        }),
        forall|x: u32| #[trigger] post.states.contains_key(x) <==> pre.states.contains_key(x),
        forall|x: u32|
            pre.states.contains_key(x) && (x != vmid || !done) ==> #[trigger] post.states[x]
                == pre.states[x],
        done && pre.states.contains_key(vmid) ==> post.states[vmid] == (VMStateView {
            vcpus_changed_at: pre.cycle,
            low_counter: if post.phase is Repaying {
                0
            } else {
                pre.states[vmid].low_counter
            },
            ..pre.states[vmid]
        }),
        !done ==> post.loans == pre.loans,
{
}

/// A borrower that gave its vCPU back owes nothing any more, and its rest begins anew, whether the
/// lender could be set or not; one that could not owes as before. A lender that could be set has the
/// new count, and was changed in this cycle.
pub proof fn law_repayment_ends_the_loan(
    pre: BalancerView,
    vmid: u32,
    taken: bool,
    lender: u32,
    vcpus: u32,
    done: bool,
    post: BalancerView,
)
    requires
        pre.wf(),
        pre.phase == (Phase::RepayLender { vmid, taken, lender, vcpus }),
        lender != vmid,
        follows(pre, Event::Applied { done }, post),
    ensures
        post == (BalancerView {
            vcpus: if done {
                pre.vcpus.insert(lender, vcpus)
            } else {
                pre.vcpus
            },
            known: if done {
                pre.known.insert(lender, vcpus)
            } else {
                pre.known
            },
            loans: if taken {
                pre.loans.remove(vmid)
            } else {
                pre.loans
            },
            states: post.states,
            at: pre.at + 1,
            phase: Phase::Repaying,
            ..pre
        }),
        forall|x: u32| #[trigger] post.states.contains_key(x) <==> pre.states.contains_key(x),
        forall|x: u32|
            pre.states.contains_key(x) && (x != vmid || !taken) && (x != lender || !done)
                ==> #[trigger] post.states[x] == pre.states[x],
        taken && pre.states.contains_key(vmid) ==> post.states[vmid] == (VMStateView {
            low_counter: 0,
            ..pre.states[vmid]
        }),
        done && pre.states.contains_key(lender) ==> post.states[lender] == (VMStateView {
            vcpus_changed_at: pre.cycle,
            ..pre.states[lender]
        }),
{
    lemma_single_is_redeemed(vmid, pre.loans[vmid]);
}

/// A borrower that gave its vCPU back where no lender can be set owes nothing any more.
pub proof fn law_repayment_without_a_lender_ends_the_loan(
    pre: BalancerView,
    vmid: u32,
    vcpus: u32,
    lender: u32,
    post: BalancerView,
)
    requires
        pre.wf(),
        pre.phase == (Phase::RepayBorrower { vmid, vcpus, lender }),
        follows(pre, Event::Applied { done: true }, post),
        post.phase is Repaying,
    ensures
        post.loans == pre.loans.remove(vmid),
{
    lemma_single_is_redeemed(vmid, pre.loans[vmid]);
}

/// The ceiling of every VM that takes part is read, and noted.
pub proof fn law_every_ceiling_is_read(pre: BalancerView, max: u32, post: BalancerView)
    requires
        pre.phase is Cores,
        follows(pre, Event::Cores { max }, post),
    ensures
        pending(pre) == (Action::ReadCores { vmid: pre.active[pre.at as int] }),
        post.cores == pre.cores.insert(pre.active[pre.at as int], max),
        pre.at + 1 < pre.active.len() ==> post == (BalancerView {
            cores: post.cores,
            at: pre.at + 1,
            ..pre
        }),
        pre.at + 1 >= pre.active.len() ==> post == (BalancerView {
            cores: post.cores,
            queue: post.queue,
            at: 0,
            phase: Phase::Lending,
            ..pre
        }),
{
}

/// A VM is to borrow exactly where its load and enough of its measures reach the threshold, it has
/// been in distress for long enough, no migration of it was asked for, it owes nothing, and it has
/// less than its most and than its ceiling, which is one where none is known.
pub proof fn law_who_is_to_borrow(pre: BalancerView, max: u32, post: BalancerView, id: u32)
    requires
        pre.phase is Cores,
        pre.at + 1 >= pre.active.len(),
        follows(pre, Event::Cores { max }, post),
    ensures
        post.queue.contains(id) <==> {
            let has = if pre.vcpus.contains_key(id) {
                pre.vcpus[id]
            } else {
                pre.limits[id].min
            };
            &&& pre.averages.contains_key(id)
            &&& pre.config.seuil_detresse.le(pre.averages[id])
            &&& measures_over(pre.states[id].history, pre.config.seuil_detresse)
                >= pre.config.min_samples_before_action
            &&& if pre.states.contains_key(id) {
                &&& pre.states[id].distress_counter >= pre.config.duree_avant_action
                &&& !(pre.states[id].migration is Requested)
            } else {
                pre.config.duree_avant_action == 0
            }
            &&& !pre.loans.contains_key(id)
            &&& has < pre.limits[id].max
            &&& if id == pre.active[pre.at as int] {
                has < max
            } else if pre.cores.contains_key(id) {
                has < pre.cores[id]
            } else {
                has < 1
            }
        },
{
    let s = BalancerView {
        cores: pre.cores.insert(pre.active[pre.at as int], max),
        at: pre.at + 1,
        ..pre
    };
    assert(post.queue.contains(id) <==> s.borrowers().contains(id));
}

/// The VM at the higher load comes first; of two at the same load the one with the lower number. Each
/// comes once.
pub proof fn law_higher_loads_borrow_first(
    pre: BalancerView,
    max: u32,
    post: BalancerView,
    i: int,
    j: int,
)
    requires
        pre.phase is Cores,
        pre.at + 1 >= pre.active.len(),
        follows(pre, Event::Cores { max }, post),
        0 <= i < j < post.queue.len(),
    ensures
        ({
            let a = post.queue[i];
            let b = post.queue[j];
            &&& a != b
            &&& pre.averages[b].le(pre.averages[a])
            &&& pre.averages[a] == pre.averages[b] ==> a < b
        }),
{
    let s = BalancerView {
        cores: pre.cores.insert(pre.active[pre.at as int], max),
        at: pre.at + 1,
        ..pre
    };
    assert(s.before(post.queue[i], post.queue[j]));
    assert(post.queue.contains(post.queue[i]) && post.queue.contains(post.queue[j]));
    assert(s.may_borrow(post.queue[i]) && s.may_borrow(post.queue[j]));
}

/// A VM that is to borrow and has no room any more is passed over; else either a donor is to give a
/// vCPU or the host is asked, and nothing else changes.
pub proof fn law_a_vcpu_is_sought_for_who_has_room(pre: BalancerView, post: BalancerView)
    requires
        pre.phase is Lending,
        pre.at < pre.queue.len(),
        follows(pre, Event::Done, post),
    ensures
        ({
            let vmid = pre.queue[pre.at as int];
            let has = pre.vcpus[vmid];
            if has < pre.limits[vmid].max && (if pre.cores.contains_key(vmid) {
                has < pre.cores[vmid]
            } else {
                has < 1
            }) {
                &&& post == BalancerView { phase: post.phase, ..pre }
                &&& match post.phase {
                    Phase::LendDonor { vmid: v, vcpus, donor, donor_vcpus } => v == vmid && vcpus
                        == has && donor_vcpus == pre.vcpus[donor],
                    Phase::Hosting { vmid: v, vcpus } => v == vmid && vcpus == has,
                    _ => false,
                }
            } else {
                post == BalancerView { at: pre.at + 1, ..pre }
            }
        }),
{
}

/// If some other VM takes part, has more vCPUs than its least, owes nothing, is not leaving, was
/// averaged in this cycle at a load of at most the threshold to lend and has been at rest for long
/// enough, a donor gives a vCPU: one that has no higher load, and a lower number at the same load.
pub proof fn law_a_vm_at_rest_is_found(pre: BalancerView, post: BalancerView, id: u32)
    requires
        pre.phase is Lending,
        pre.at < pre.queue.len(),
        follows(pre, Event::Done, post),
        ({
            let vmid = pre.queue[pre.at as int];
            &&& pre.cores.contains_key(vmid)
            &&& pre.vcpus[vmid] < pre.limits[vmid].max
            &&& pre.vcpus[vmid] < pre.cores[vmid]
            &&& id != vmid
        }),
        pre.limits.contains_key(id),
        pre.vcpus.contains_key(id),
        pre.vcpus[id] > pre.limits[id].min,
        !pre.loans.contains_key(id),
        pre.averages.contains_key(id),
        pre.averages[id].le(pre.config.seuil_donneuse),
        pre.states.contains_key(id),
        !(pre.states[id].migration is Requested),
        pre.states[id].low_counter >= pre.config.duree_avant_action,
    ensures
        ({
            &&& post.phase matches Phase::LendDonor { vmid, vcpus, donor, donor_vcpus }
            &&& vmid == pre.queue[pre.at as int]
            &&& pending(post) matches Action::SetVcpus { vmid: target, vcpus: count, purpose }
            &&& target == donor
            &&& purpose == Purpose::LendDonor
            &&& pre.vcpus[donor] > 0 ==> count == pre.vcpus[donor] - 1
            &&& pre.averages.contains_key(donor) ==> pre.averages[donor].le(pre.averages[id]) && (
            pre.averages[donor] == pre.averages[id] ==> donor <= id)
            &&& !pre.averages.contains_key(donor) ==> load_of(FULL_BITS).le(pre.averages[id])
        }),
{
    assert(pre.may_lend(pre.queue[pre.at as int], id));
}

/// A VM that was not averaged counts as fully loaded: where the settings let such a VM lend, and it is
/// not cooling down, it is a donor as any other.
pub proof fn law_unmeasured_vms_count_as_full(pre: BalancerView, post: BalancerView, id: u32)
    requires
        pre.phase is Lending,
        pre.at < pre.queue.len(),
        follows(pre, Event::Done, post),
        ({
            let vmid = pre.queue[pre.at as int];
            &&& pre.cores.contains_key(vmid)
            &&& pre.vcpus[vmid] < pre.limits[vmid].max
            &&& pre.vcpus[vmid] < pre.cores[vmid]
            &&& id != vmid
        }),
        pre.limits.contains_key(id),
        pre.vcpus.contains_key(id),
        pre.vcpus[id] > pre.limits[id].min,
        !pre.loans.contains_key(id),
        !pre.averages.contains_key(id),
        load_of(FULL_BITS).le(pre.config.seuil_donneuse),
        pre.states.contains_key(id),
        !(pre.states[id].migration is Requested),
        pre.states[id].low_counter >= pre.config.duree_avant_action,
        pre.states[id].vcpus_changed_at == 0 || (pre.cycle > pre.states[id].vcpus_changed_at + 1
            && pre.cycle > pre.states[id].vcpus_changed_at
            + pre.config.vcpu_change_cooldown_cycles),
    ensures
        ({
            &&& post.phase matches Phase::LendDonor { vmid, vcpus, donor, donor_vcpus }
            &&& if pre.averages.contains_key(donor) {
                pre.averages[donor].le(load_of(FULL_BITS))
            } else {
                donor <= id
            }
        }),
{
    assert(pre.may_lend(pre.queue[pre.at as int], id));
}

/// A donor is another VM that takes part and has more vCPUs than its least; it owes nothing, is not
/// leaving, is at a load of at most the threshold to lend and has been at rest for long enough. One
/// that was not averaged is not cooling down.
pub proof fn law_donors_fit(
    pre: BalancerView,
    post: BalancerView,
    vmid: u32,
    vcpus: u32,
    donor: u32,
    donor_vcpus: u32,
)
    requires
        pre.phase is Lending,
        follows(pre, Event::Done, post),
        post.phase == (Phase::LendDonor { vmid, vcpus, donor, donor_vcpus }),
    ensures
        donor != vmid,
        pre.limits.contains_key(donor),
        pre.vcpus.contains_key(donor),
        pre.vcpus[donor] > pre.limits[donor].min,
        !pre.loans.contains_key(donor),
        pre.averages.contains_key(donor) ==> pre.averages[donor].le(pre.config.seuil_donneuse),
        !pre.averages.contains_key(donor) ==> load_of(FULL_BITS).le(pre.config.seuil_donneuse)
            && (pre.states.contains_key(donor) && pre.states[donor].vcpus_changed_at > 0
            ==> pre.cycle > pre.states[donor].vcpus_changed_at + 1 && pre.cycle
            > pre.states[donor].vcpus_changed_at + pre.config.vcpu_change_cooldown_cycles),
        pre.states.contains_key(donor) ==> !(pre.states[donor].migration is Requested)
            && pre.states[donor].low_counter >= pre.config.duree_avant_action,
        !pre.states.contains_key(donor) ==> pre.config.duree_avant_action == 0,
{
}

/// A donor that gave a vCPU passes it on to the VM that is to borrow; one that could not ends the
/// matter. Nothing is noted yet.
pub proof fn law_the_borrower_comes_after_the_donor(
    pre: BalancerView,
    vmid: u32,
    vcpus: u32,
    donor: u32,
    donor_vcpus: u32,
    done: bool,
    post: BalancerView,
)
    requires
        pre.phase == (Phase::LendDonor { vmid, vcpus, donor, donor_vcpus }),
        vcpus < u32::MAX,
        follows(pre, Event::Applied { done }, post),
    ensures
        !done ==> post == (BalancerView { at: pre.at + 1, phase: Phase::Lending, ..pre }),
        done ==> post == (BalancerView {
            phase: Phase::LendBorrower { vmid, vcpus, donor, donor_vcpus },
            ..pre
        }) && pending(post) == (Action::SetVcpus {
            vmid,
            vcpus: (vcpus + 1) as u32,
            purpose: Purpose::LendBorrower,
        }),
{
}

/// A VM that could not get the donor's vCPU leaves it to the donor, which is set back to what it had;
/// nothing is noted, whether that works or not.
pub proof fn law_donors_are_set_back(
    pre: BalancerView,
    vmid: u32,
    vcpus: u32,
    donor: u32,
    donor_vcpus: u32,
    undone: BalancerView,
    done: bool,
    post: BalancerView,
)
    requires
        pre.phase == (Phase::LendBorrower { vmid, vcpus, donor, donor_vcpus }),
        follows(pre, Event::Applied { done: false }, undone),
        follows(undone, Event::Applied { done }, post),
    ensures
        pending(undone) == (Action::SetVcpus {
            vmid: donor,
            vcpus: donor_vcpus,
            purpose: Purpose::LendUndo,
        }),
        post == (BalancerView { at: pre.at + 1, phase: Phase::Lending, ..pre }),
{
}

/// A loan between two VMs: one vCPU less here and one more there, as told to the VMs; the borrower
/// owes one vCPU to the donor and notes what it had; the distress of the borrower and the rest of the
/// donor begin anew, and both were changed in this cycle. Nothing else changes.
pub proof fn law_a_loan_is_noted(
    pre: BalancerView,
    vmid: u32,
    vcpus: u32,
    donor: u32,
    donor_vcpus: u32,
    post: BalancerView,
)
    requires
        pre.phase == (Phase::LendBorrower { vmid, vcpus, donor, donor_vcpus }),
        donor != vmid,
        vcpus < u32::MAX,
        0 < donor_vcpus,
        !pre.loans.contains_key(vmid),
        pre.states.contains_key(vmid),
        follows(pre, Event::Applied { done: true }, post),
    ensures
        post == (BalancerView {
            vcpus: post.vcpus,
            known: post.known,
            states: post.states,
            loans: post.loans,
            at: pre.at + 1,
            phase: Phase::Lending,
            ..pre
        }),
        post.vcpus == pre.vcpus.insert(donor, (donor_vcpus - 1) as u32).insert(
            vmid,
            (vcpus + 1) as u32,
        ),
        post.known == pre.known.insert(donor, (donor_vcpus - 1) as u32).insert(
            vmid,
            (vcpus + 1) as u32,
        ),
        post.loans.contains_key(vmid),
        post.loans[vmid].vcpus_initial == vcpus,
        post.loans[vmid].segments == seq![LoanSegment { preteur_id: donor, nb_empruntes: 1 }],
        post.loans.remove(vmid) == pre.loans,
        forall|x: u32| #[trigger] post.states.contains_key(x) <==> pre.states.contains_key(x),
        forall|x: u32|
            pre.states.contains_key(x) && x != vmid && x != donor ==> #[trigger] post.states[x]
                == pre.states[x],
        post.states[vmid] == (VMStateView {
            vcpus_changed_at: pre.cycle,
            distress_counter: 0,
            ..pre.states[vmid]
        }),
        pre.states.contains_key(donor) ==> post.states[donor] == (VMStateView {
            vcpus_changed_at: pre.cycle,
            low_counter: 0,
            ..pre.states[donor]
        }),
{
    lemma_first_loan(pre.loans, vmid, vcpus, donor);
}

proof fn lemma_first_loan(loans: Map<u32, LoanView>, vmid: u32, v: u32, lender: u32)
    requires
        !loans.contains_key(vmid),
    ensures
        borrowed(loans, vmid, v, lender)[vmid].segments == seq![
            LoanSegment { preteur_id: lender, nb_empruntes: 1 },
        ],
        borrowed(loans, vmid, v, lender)[vmid].vcpus_initial == v,
        borrowed(loans, vmid, v, lender).remove(vmid) == loans,
{
    assert(borrowed(loans, vmid, v, lender).remove(vmid) =~= loans);
    assert(Seq::<LoanSegment>::empty().push(LoanSegment { preteur_id: lender, nb_empruntes: 1 })
        =~= seq![LoanSegment { preteur_id: lender, nb_empruntes: 1 }]);
    assert forall|i: int| !segment_of(Seq::<LoanSegment>::empty(), lender, i) by {}
}

/// The host gives a vCPU exactly where it may give more than it has and all counts of the cycle
/// together, in 32 bits, stay below the bound; else the next VM comes.
pub proof fn law_the_host_gives_below_its_bound(
    pre: BalancerView,
    vmid: u32,
    vcpus: u32,
    overcommit: bool,
    max: u32,
    post: BalancerView,
)
    requires
        pre.phase == (Phase::Hosting { vmid, vcpus }),
        vcpus < u32::MAX,
        follows(pre, Event::Host { overcommit, max }, post),
    ensures
        if overcommit && sum_of(pre.vcpus) % 0x1_0000_0000 < max {
            post == (BalancerView { phase: Phase::LendHost { vmid, vcpus }, ..pre }) && pending(
                post,
            ) == (Action::SetVcpus {
                vmid,
                vcpus: (vcpus + 1) as u32,
                purpose: Purpose::LendHost,
            })
        } else {
            post == (BalancerView { at: pre.at + 1, phase: Phase::Lending, ..pre })
        },
{
}

/// The sum of all counts is nothing for no VM, and grows by the count of each VM that joins.
pub proof fn law_sum_is_made_of_its_entries(m: Map<u32, u32>, id: u32, v: u32)
    requires
        m.dom().finite(),
        !m.contains_key(id),
    ensures
        sum_of(Map::<u32, u32>::empty()) == 0,
        sum_of(m.insert(id, v)) == sum_of(m) + v,
{
    lemma_sum_with(m, id, v);
}

/// A loan of the host: the VM has one vCPU more and owes one to the host, its distress begins anew,
/// and it was changed in this cycle; nothing else changes. A VM that could not get the vCPU changes
/// nothing.
pub proof fn law_a_loan_of_the_host_is_noted(
    pre: BalancerView,
    vmid: u32,
    vcpus: u32,
    done: bool,
    post: BalancerView,
)
    requires
        pre.phase == (Phase::LendHost { vmid, vcpus }),
        vcpus < u32::MAX,
        !pre.loans.contains_key(vmid),
        pre.states.contains_key(vmid),
        follows(pre, Event::Applied { done }, post),
    ensures
        !done ==> post == (BalancerView { at: pre.at + 1, phase: Phase::Lending, ..pre }),
        done ==> {
            &&& post == BalancerView {
                vcpus: pre.vcpus.insert(vmid, (vcpus + 1) as u32),
                known: pre.known.insert(vmid, (vcpus + 1) as u32),
                states: pre.states.insert(
                    vmid,
                    VMStateView {
                        vcpus_changed_at: pre.cycle,
                        distress_counter: 0,
                        ..pre.states[vmid]
                    },
                ),
                loans: post.loans,
                at: pre.at + 1,
                phase: Phase::Lending,
                ..pre
            }
            &&& post.loans.contains_key(vmid)
            &&& post.loans[vmid].vcpus_initial == vcpus
            &&& post.loans[vmid].segments == seq![LoanSegment { preteur_id: 0, nb_empruntes: 1 }]
            &&& post.loans.remove(vmid) == pre.loans
        },
{
    lemma_first_loan(pre.loans, vmid, vcpus, 0);
}

/// A VM is to migrate exactly where it has an average, has been in distress for as many cycles as the
/// settings say, and was not asked or was asked longer ago than the cooldown.
pub proof fn law_who_is_to_migrate(pre: BalancerView, post: BalancerView, id: u32)
    requires
        pre.phase is Lending,
        pre.at >= pre.queue.len(),
        follows(pre, Event::Done, post),
    ensures
        post == (BalancerView { queue: post.queue, at: 0, phase: Phase::Migrating, ..pre }),
        post.queue.no_duplicates(),
        post.queue.contains(id) <==> {
            &&& pre.averages.contains_key(id)
            &&& pre.states.contains_key(id)
            &&& pre.states[id].distress_counter >= pre.config.distress_before_migration
            &&& pre.states[id].migration is Unasked || (
            pre.states[id].migration matches MigrationStatus::Requested { since }
                && pre.start_ms / 1000 > since + pre.config.migration_cooldown_seconds)
        },
{
    assert(post.queue.contains(id) <==> pre.migrants().contains(id));
}

/// A request that was sent is noted with its second and ends the distress; one that could not be sent
/// changes nothing. The next VM comes in either case.
pub proof fn law_a_request_is_noted(
    pre: BalancerView,
    vmid: u32,
    ticks: u32,
    done: bool,
    post: BalancerView,
)
    requires
        pre.phase == (Phase::Signalling { vmid, ticks }),
        follows(pre, Event::Sent { done }, post),
    ensures
        post == (BalancerView {
            states: if done && pre.states.contains_key(vmid) {
                pre.states.insert(
                    vmid,
                    VMStateView {
                        distress_counter: 0,
                        migration: MigrationStatus::Requested { since: pre.start_ms / 1000 },
                        ..pre.states[vmid]
                    },
                )
            } else {
                pre.states
            },
            phase: Phase::Migrating,
            ..pre
        }),
{
}

/// The node is to be lightened exactly where more than one VM has been in distress for as many cycles
/// as the settings say, at a load that reaches the threshold; the request tells how many. Else the
/// agent rests, for as long as the settings say.
pub proof fn law_pressure_is_told(pre: BalancerView, post: BalancerView)
    requires
        pre.phase is Pressure,
        pre.averages.dom().finite(),
        follows(pre, Event::Done, post),
    ensures
        ({
            let n = pre.averages.dom().filter(
                |id: u32|
                    pre.config.seuil_detresse.le(pre.averages[id]) && pre.states.contains_key(id)
                        && pre.states[id].distress_counter >= pre.config.distress_before_migration,
            ).len();
            if n > 1 {
                &&& post == BalancerView { phase: post.phase, ..pre }
                &&& post.phase matches Phase::Lightening { count }
                &&& count == n
                &&& pending(post) matches Action::SendLighten { count: told, urgency }
                &&& told == n
                &&& urgency is High
            } else {
                post == BalancerView {
                    phase: Phase::Resting {
                        seconds: pre.config.check_interval,
                        cause: Cause::Balanced,
                    },
                    ..pre
                }
            }
        }),
{
    let a = pre.averages.dom().filter(|id: u32| pre.in_lasting_distress(id));
    let b = pre.averages.dom().filter(
        |id: u32|
            pre.config.seuil_detresse.le(pre.averages[id]) && pre.states.contains_key(id)
                && pre.states[id].distress_counter >= pre.config.distress_before_migration,
    );
    assert(a =~= b);
}

/// A cycle ends with a rest of as many seconds as the settings say, and behind it the next one
/// begins; nothing else changes.
pub proof fn law_cycles_follow_each_other(
    pre: BalancerView,
    count: usize,
    done: bool,
    rest: BalancerView,
    post: BalancerView,
)
    requires
        pre.phase == (Phase::Lightening { count }),
        follows(pre, Event::Sent { done }, rest),
        follows(rest, Event::Done, post),
    ensures
        pending(rest) == (Action::Rest { seconds: pre.config.check_interval }),
        post == (BalancerView { phase: Phase::Clock, ..pre }),
        pending(post) is ReadClock,
{
}

/// A new balancer waits for the time and knows nothing.
pub proof fn law_a_new_balancer_knows_nothing(config: AppConfig, id: u32)
    ensures
        ({
            let s = BalancerView::initial(config);
            &&& s.config == config
            &&& s.phase is Clock
            &&& s.cycle == 0
            &&& s.start_ms == 0
            &&& s.active.len() == 0
            &&& s.queue.len() == 0
            &&& s.metrics.len() == 0
            &&& s.at == 0
            &&& !s.present.contains(id)
            &&& !s.opted_out.contains(id)
            &&& !s.limits.contains_key(id)
            &&& !s.states.contains_key(id)
            &&& !s.loans.contains_key(id)
            &&& !s.known.contains_key(id)
            &&& !s.vcpus.contains_key(id)
            &&& !s.averages.contains_key(id)
            &&& !s.cores.contains_key(id)
        }),
{
}

/// The balancer waits for exactly the work that its phase calls for, on the VM at hand.
pub proof fn law_phases_call_for_their_work(s: BalancerView)
    ensures
        s.phase is Clock <==> pending(s) is ReadClock,
        s.phase is Listing <==> pending(s) is ListVms,
        s.phase is Profiling <==> pending(s) is ReadProfile,
        s.phase is Profiling ==> pending(s)->ReadProfile_vmid == s.queue[s.at as int],
        s.phase is Measuring <==> pending(s) is Measure,
        s.phase is Averaging <==> pending(s) is Average,
        s.phase matches Phase::Averaging { vmid } ==> pending(s)->Average_vmid == vmid,
        s.phase is Showing <==> pending(s) is Show,
        s.phase is Cores <==> pending(s) is ReadCores,
        s.phase is Hosting <==> pending(s) is ReadHost,
        s.phase is Signalling <==> pending(s) is SendMigrate,
        s.phase is Lightening <==> pending(s) is SendLighten,
        s.phase is Resting <==> pending(s) is Rest,
        s.phase matches Phase::Resting { seconds, .. } ==> pending(s)->Rest_seconds == seconds,
        s.phase matches Phase::ReturnBorrower { vmid, .. } ==> pending(s) == (Action::SetVcpus {
            vmid,
            vcpus: s.returning.vcpus_initial,
            purpose: Purpose::ReturnBorrower,
        }),
        pending(s) is SetVcpus <==> s.phase is ReturnBorrower || s.phase is ReturnLender
            || s.phase is RepayBorrower || s.phase is RepayLender || s.phase is LendDonor
            || s.phase is LendBorrower || s.phase is LendUndo || s.phase is LendHost,
{
}

/// Exactly the VMs that take part and whose vCPUs did not change in this cycle, the one before or as
/// many before as the cooldown says are to be measured, in order; each with what is known of it.
pub proof fn law_who_is_measured(s: BalancerView, ids: Seq<u32>, id: u32)
    ensures
        s.probes_of(Seq::empty()).len() == 0,
        if s.states.contains_key(id) && s.states[id].vcpus_changed_at > 0 && (s.cycle
            <= s.states[id].vcpus_changed_at + 1 || s.cycle <= s.states[id].vcpus_changed_at
            + s.config.vcpu_change_cooldown_cycles) {
            s.probes_of(ids.push(id)) == s.probes_of(ids)
        } else {
            s.probes_of(ids.push(id)) == s.probes_of(ids).push(
                Probe {
                    vmid: id,
                    known: if s.known.contains_key(id) {
                        Some(s.known[id])
                    } else {
                        None
                    },
                    min: s.limits[id].min,
                },
            )
        },
{
    assert(ids.push(id).drop_last() =~= ids);
}

} // verus!
