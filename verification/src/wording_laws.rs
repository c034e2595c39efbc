//! What is told of the balance: signals, lines and remarks.

use vstd::prelude::*;
#[allow(unused_imports)]
use crate::clock::{layout_text, rfc3339_text, Moment};
#[allow(unused_imports)]
use crate::display::{counters_text, credit_text, credits_text, loan_text, status_word};
#[allow(unused_imports)]
use crate::load::{load_of, Load, IDLE_BITS};
#[allow(unused_imports)]
use crate::loan::{owed, LoanSegment, LoanView};
#[allow(unused_imports)]
use crate::logger::line_of;
#[allow(unused_imports)]
use crate::machine::{
    lemma_in_order, lemma_single_is_redeemed, sum_of, Action, BalancerView, Cause, Phase,
};
#[allow(unused_imports)]
use crate::proxmox::ascending;
#[allow(unused_imports)]
use crate::remarks::{
    are_most, distress_remark, intent_text, lemma_most_measures, outcome_text, refusal, remark_on,
    Remark,
};
#[allow(unused_imports)]
use crate::signals::{
    clean, contention_text, law_lighten_signal_reads_as_its_fields,
    law_migrate_signal_reads_as_its_fields, lighten_content, migrate_content, migration_text,
    signal_path, Urgency,
};
#[allow(unused_imports)]
use crate::text::{
    cut_at, decimal_of, lemma_decimal_digits, lemma_first_piece, lemma_whole, padded,
};
#[allow(unused_imports)]
use crate::vcpu_change::{ChangePhase, VcpuChange};
#[allow(unused_imports)]
use crate::vm_state::MigrationStatus;

verus! {

/// A reason stands in a signal sign by sign, a line end as a blank and an equals sign as a dash.
pub proof fn law_reasons_are_kept_sign_by_sign(reason: Seq<char>, i: int)
    requires
        0 <= i < reason.len(),
    ensures
        clean(reason).len() == reason.len(),
        clean(reason)[i] == (if reason[i] == '\n' {
            ' '
        } else if reason[i] == '=' {
            '-'
        } else {
            reason[i]
        }),
{
}

/// Each urgency has its own word.
pub proof fn law_urgencies_have_their_words(a: Urgency, b: Urgency)
    ensures
        Urgency::High.word() == "high"@,
        Urgency::Critical.word() == "critical"@,
        Urgency::Medium.word() == "medium"@,
        Urgency::Low.word() == "low"@,
        a != b ==> a.word() != b.word(),
{
    reveal_strlit("low");
    reveal_strlit("medium");
    reveal_strlit("high");
    reveal_strlit("critical");
    assert("medium"@[0] == 'm' && "high"@[0] == 'h' && "critical"@[0] == 'c' && "low"@[0] == 'l');
}

/// A request to migrate holds six lines: what is asked for, the VM, who asks, why, how urgently and
/// when.
pub proof fn law_a_request_to_migrate_holds_its_lines(
    vmid: u32,
    reason: Seq<char>,
    urgency: Urgency,
    timestamp: Seq<char>,
)
    requires
        !timestamp.contains('\n'),
    ensures
        cut_at(migrate_content(vmid, reason, urgency, timestamp), '\n') == seq![
            "type=MIGRATE_VM"@,
            "vmid="@ + decimal_of(vmid as nat),
            "source_agent=vcpu-agent"@,
            "reason="@ + clean(reason),
            "urgency="@ + urgency.word(),
            "timestamp="@ + timestamp,
            Seq::<char>::empty(),
        ],
{
    law_migrate_signal_reads_as_its_fields(vmid, reason, urgency, timestamp);
}

/// A request to lighten the node holds six lines: what is asked for, who asks, why, how urgently,
/// for which resource and when.
pub proof fn law_a_request_to_lighten_holds_its_lines(
    reason: Seq<char>,
    urgency: Urgency,
    timestamp: Seq<char>,
)
    requires
        !timestamp.contains('\n'),
    ensures
        cut_at(lighten_content(reason, urgency, timestamp), '\n') == seq![
            "type=LIGHTEN_NODE"@,
            "source_agent=vcpu-agent"@,
            "reason="@ + clean(reason),
            "urgency="@ + urgency.word(),
            "resource=cpu"@,
            "timestamp="@ + timestamp,
            Seq::<char>::empty(),
        ],
{
    law_lighten_signal_reads_as_its_fields(reason, urgency, timestamp);
}

/// A signal lies in the directory that is watched, under its second and its kind; signals of
/// different seconds or kinds never meet.
pub proof fn law_signals_have_their_own_paths(t: u64, u: u64, kind: Seq<char>)
    ensures
        signal_path(t, kind) == "/var/lib/live-migrator/signals/signal_"@ + decimal_of(t as nat)
            + kind,
        t != u ==> signal_path(t, "_migrate_vm.sig"@) != signal_path(u, "_migrate_vm.sig"@),
        t != u ==> signal_path(t, "_lighten_node.sig"@) != signal_path(u, "_lighten_node.sig"@),
        signal_path(t, "_migrate_vm.sig"@) != signal_path(u, "_lighten_node.sig"@),
{
    reveal_strlit("/var/lib/live-migrator/signals/signal_");
    reveal_strlit("/var/lib/live-migrator/signals");
    reveal_strlit("/signal_");
    let dir = "/var/lib/live-migrator/signals/signal_"@;
    assert("/var/lib/live-migrator/signals"@ + "/signal_"@ =~= dir);
    assert(signal_path(t, kind) == dir + decimal_of(t as nat) + kind);
    if t != u {
        lemma_other_decimal(dir, t as nat, u as nat, "_migrate_vm.sig"@);
        lemma_other_decimal(dir, t as nat, u as nat, "_lighten_node.sig"@);
    }
    reveal_strlit("_migrate_vm.sig");
    reveal_strlit("_lighten_node.sig");
    let a = signal_path(t, "_migrate_vm.sig"@);
    let b = signal_path(u, "_lighten_node.sig"@);
    assert(a[a.len() - 5] == 'm');
    assert(b[b.len() - 5] == 'e');
}

proof fn lemma_other_decimal(dir: Seq<char>, t: nat, u: nat, kind: Seq<char>)
    requires
        t != u,
    ensures
        dir + decimal_of(t) + kind != dir + decimal_of(u) + kind,
{
    let x = decimal_of(t);
    let y = decimal_of(u);
    lemma_decimal_digits(t);
    lemma_decimal_digits(u);
    let a = dir + x + kind;
    let b = dir + y + kind;
    assert(a.len() == dir.len() + x.len() + kind.len());
    assert(b.len() == dir.len() + y.len() + kind.len());
    if a == b {
        assert(x.len() == y.len());
        assert forall|i: int| 0 <= i < x.len() implies x[i] == y[i] by {
            assert(a[dir.len() + i] == x[i]);
            assert(b[dir.len() + i] == y[i]);
        }
        assert(x =~= y);
    }
}

proof fn lemma_no_bar(n: nat)
    ensures
        !decimal_of(n).contains('_'),
{
    lemma_decimal_digits(n);
}

/// Why a VM is to migrate reads, between the underscores, as its number, its load and for how many
/// cycles it has been in distress.
pub proof fn law_a_reason_to_migrate_holds_its_parts(vmid: u32, percent: Seq<char>, ticks: u32)
    requires
        !percent.contains('_'),
    ensures
        cut_at(migration_text(vmid, percent, ticks), '_') == seq![
            "vm"@,
            decimal_of(vmid as nat),
            "cpu"@,
            percent + "pct"@,
            "no"@,
            "local"@,
            "donor"@,
            decimal_of(ticks as nat) + "cycles"@,
        ],
{
    reveal_strlit("vm_");
    reveal_strlit("vm");
    reveal_strlit("_cpu_");
    reveal_strlit("cpu");
    reveal_strlit("pct_no_local_donor_");
    reveal_strlit("pct");
    reveal_strlit("no");
    reveal_strlit("local");
    reveal_strlit("donor");
    reveal_strlit("cycles");
    lemma_no_bar(vmid as nat);
    lemma_no_bar(ticks as nat);
    let bar = seq!['_'];
    let p = percent + "pct"@;
    let c = decimal_of(ticks as nat) + "cycles"@;
    lemma_joint(percent, "pct"@);
    lemma_joint(decimal_of(ticks as nat), "cycles"@);
    let s6 = "donor"@ + bar + c;
    let s5 = "local"@ + bar + s6;
    let s4 = "no"@ + bar + s5;
    let s3 = p + bar + s4;
    let s2 = "cpu"@ + bar + s3;
    let s1 = decimal_of(vmid as nat) + bar + s2;
    let s0 = "vm"@ + bar + s1;
    assert(migration_text(vmid, percent, ticks) =~= s0);
    lemma_whole(c, '_');
    lemma_first_piece("donor"@, '_', c);
    lemma_first_piece("local"@, '_', s6);
    lemma_first_piece("no"@, '_', s5);
    lemma_first_piece(p, '_', s4);
    lemma_first_piece("cpu"@, '_', s3);
    lemma_first_piece(decimal_of(vmid as nat), '_', s2);
    lemma_first_piece("vm"@, '_', s1);
    assert(cut_at(s0, '_') =~= seq![
        "vm"@,
        decimal_of(vmid as nat),
        "cpu"@,
        p,
        "no"@,
        "local"@,
        "donor"@,
        c,
    ]);
}

proof fn lemma_joint(a: Seq<char>, b: Seq<char>)
    requires
        !a.contains('_'),
        !b.contains('_'),
    ensures
        !(a + b).contains('_'),
{
    if (a + b).contains('_') {
        let i = choose|i: int| 0 <= i < (a + b).len() && (a + b)[i] == '_';
        if i < a.len() {
            assert(a[i] == '_');
        } else {
            assert(b[i - a.len()] == '_');
        }
    }
}

/// Why the node is to be lightened reads, between the underscores, as how many VMs stay in distress.
pub proof fn law_a_reason_to_lighten_holds_its_parts(count: nat)
    ensures
        cut_at(contention_text(count), '_') == seq![
            "cpu"@,
            "contention"@,
            decimal_of(count),
            "vms"@,
            "persistant"@,
            "distress"@,
        ],
{
    reveal_strlit("cpu_contention_");
    reveal_strlit("_vms_persistant_distress");
    reveal_strlit("cpu");
    reveal_strlit("contention");
    reveal_strlit("vms");
    reveal_strlit("persistant");
    reveal_strlit("distress");
    lemma_no_bar(count);
    let bar = seq!['_'];
    let s4 = "persistant"@ + bar + "distress"@;
    let s3 = "vms"@ + bar + s4;
    let s2 = decimal_of(count) + bar + s3;
    let s1 = "contention"@ + bar + s2;
    let s0 = "cpu"@ + bar + s1;
    assert(contention_text(count) =~= s0);
    lemma_whole("distress"@, '_');
    lemma_first_piece("persistant"@, '_', "distress"@);
    lemma_first_piece("vms"@, '_', s4);
    lemma_first_piece(decimal_of(count), '_', s3);
    lemma_first_piece("contention"@, '_', s2);
    lemma_first_piece("cpu"@, '_', s1);
    assert(cut_at(s0, '_') =~= seq![
        "cpu"@,
        "contention"@,
        decimal_of(count),
        "vms"@,
        "persistant"@,
        "distress"@,
    ]);
}

/// Signals have a reason and no other work has: a request to migrate tells of its VM, its load and its
/// cycles of distress, a request to lighten the node of its VMs.
pub proof fn law_signals_have_reasons(a: Action, percent: Seq<char>)
    ensures
        a matches Action::SendMigrate { vmid, ticks, urgency } ==> a.reason_text(percent) == Some(
            migration_text(vmid, percent, ticks),
        ),
        a matches Action::SendLighten { count, urgency } ==> a.reason_text(percent) == Some(
            contention_text(count as nat),
        ),
        a.reason_text(percent) is Some <==> a is SendMigrate || a is SendLighten,
{
}

/// A log line is the time, a dash, the message and a line end.
pub proof fn law_log_lines_hold_time_and_message(stamp: Seq<char>, msg: Seq<char>)
    ensures
        stamp.is_prefix_of(line_of(stamp, msg)),
        line_of(stamp, msg).skip(stamp.len() as int) == " - "@ + msg + "\n"@,
{
    assert(line_of(stamp, msg).skip(stamp.len() as int) =~= " - "@ + msg + "\n"@);
    assert(line_of(stamp, msg).subrange(0, stamp.len() as int) =~= stamp);
}

/// A load that reaches the threshold of distress is shown as such, apart for a VM that can have no
/// more; else a VM that owes is shown as paying back, one up to the threshold to lend as resting, and
/// any other as normal.
pub proof fn law_loads_are_shown_as_what_they_are(
    avg: Load,
    vcpus: u32,
    max: u32,
    owing: bool,
    distress: Load,
    rest: Load,
)
    ensures
        ({
            let word = status_word(avg, vcpus, max, owing, distress, rest);
            let high = distress.le(avg);
            &&& high && vcpus >= max ==> word == "🔴 SATURÉE "@
            &&& high && vcpus < max ==> word == "🔴 DÉTRESSE"@
            &&& !high && owing ==> word == "🟠 REMB.   "@
            &&& !high && !owing && avg.le(rest) ==> word == "🟢 REPOS   "@
            &&& !high && !owing && !avg.le(rest) ==> word == "🟡 NORMAL  "@
        }),
{
}

/// The cycles of distress are shown where there are any, else those of rest, else that there are
/// neither.
pub proof fn law_counters_are_shown(distress: u32, low: u32)
    ensures
        distress > 0 ==> counters_text(distress, low) == "détresse "@ + decimal_of(distress as nat)
            + "c"@,
        distress == 0 && low > 0 ==> counters_text(distress, low) == "repos "@ + decimal_of(
            low as nat,
        ) + "c"@,
        distress == 0 && low == 0 ==> counters_text(distress, low) == "stable"@,
{
}

/// Each lender is shown with its share, the host by its name, with a plus sign between any two.
pub proof fn law_lenders_are_shown(s: Seq<LoanSegment>, seg: LoanSegment)
    ensures
        seg.preteur_id == 0 ==> credit_text(seg) == decimal_of(seg.nb_empruntes as nat) + "×"@
            + "hôte"@,
        seg.preteur_id != 0 ==> credit_text(seg) == decimal_of(seg.nb_empruntes as nat) + "×"@ + (
        "VM"@ + decimal_of(seg.preteur_id as nat)),
        credits_text(Seq::empty()) == Seq::<char>::empty(),
        credits_text(seq![seg]) == credit_text(seg),
        s.len() > 0 ==> credits_text(s.push(seg)) == credits_text(s) + "+"@ + credit_text(seg),
{
    assert(s.push(seg).drop_last() =~= s);
}

/// What a VM owes is shown exactly where it owes anything: how much, to whom, and what it goes back
/// to.
pub proof fn law_debts_are_shown(loan: LoanView)
    ensures
        loan_text(None) == Seq::<char>::empty(),
        owed(loan.segments) == 0 ==> loan_text(Some(loan)) == Seq::<char>::empty(),
        owed(loan.segments) > 0 ==> loan_text(Some(loan)) == " [doit rendre "@ + decimal_of(
            owed(loan.segments),
        ) + " ("@ + credits_text(loan.segments) + ") | cible: "@ + decimal_of(
            loan.vcpus_initial as nat,
        ) + " vCPUs]"@,
{
}

/// A request to migrate is shown as long as it stands.
pub proof fn law_requests_are_shown(m: MigrationStatus)
    ensures
        m is Requested ==> crate::display::migration_text(m) == " [migration demandée]"@,
        m is Confirmed ==> crate::display::migration_text(m) == " [migration confirmée]"@,
        m is Unasked ==> crate::display::migration_text(m) == Seq::<char>::empty(),
{
}

/// A VM is shown with its status, its number over three places, its load, its vCPUs, its limits, what
/// it owes, where its migration stands and its counters, in this order.
pub proof fn law_a_line_shows_the_vm(s: BalancerView, id: u32, cpu: Seq<char>)
    requires
        s.wf(),
        s.averages.contains_key(id),
    ensures
        ({
            let loan = if s.loans.contains_key(id) {
                Some(s.loans[id])
            } else {
                None
            };
            s.line_of(id, cpu) == status_word(
                s.averages[id],
                s.vcpus[id],
                s.limits[id].max,
                s.loans.contains_key(id),
                s.config.seuil_detresse,
                s.config.seuil_donneuse,
            ) + " VM "@ + padded(decimal_of(id as nat), 3) + " | CPU="@ + cpu + "% | vCPUs="@
                + decimal_of(s.vcpus[id] as nat) + " [min="@ + decimal_of(s.limits[id].min as nat)
                + " max="@ + decimal_of(s.limits[id].max as nat) + "]"@ + loan_text(loan)
                + crate::display::migration_text(s.states[id].migration) + " | "@ + counters_text(
                s.states[id].distress_counter,
                s.states[id].low_counter,
            )
        }),
{
    if s.loans.contains_key(id) {
        let g = s.loans[id].segments;
        assert(owed(g) == 1) by {
            reveal_with_fuel(owed, 2);
            assert(g.drop_last() =~= Seq::empty());
        }
    }
}

/// Each VM that has an average is shown once, by ascending number, and the separator comes last.
pub proof fn law_every_averaged_vm_is_shown(s: BalancerView, cpus: Seq<Seq<char>>, ids: Seq<u32>)
    requires
        ids.no_duplicates(),
        forall|id: u32| #[trigger] ids.contains(id) <==> s.averages.contains_key(id),
        ascending(ids),
    ensures
        s.shown(cpus).len() == ids.len() + 1,
        forall|i: int| 0 <= i < ids.len() ==> #[trigger] s.shown(cpus)[i] == s.line_of(ids[i], cpus[i]),
        s.shown(cpus).last() == "─────────────────────────────────────────────────"@,
{
    assert forall|id: u32| ids.contains(id) <==> s.averages.dom().contains(id) by {}
    lemma_in_order(ids, s.averages.dom());
}

/// A creditor that is to get something back and does not is named with the reason: it is gone, it
/// opted out or what it has is not known, it would have less than its least, or more than its most.
pub proof fn law_refusals_have_their_reason(
    s: BalancerView,
    lender: u32,
    count: Option<u32>,
    nb: u32,
)
    ensures
        ({
            let why = refusal(s, lender, count, nb);
            let sum = count->0 + nb;
            if lender == 0 || nb == 0 {
                why is None
            } else if !s.present.contains(lender) {
                why == Some(Remark::CreditorAbsent { lender, nb })
            } else if s.opted_out.contains(lender) || count is None {
                why == Some(Remark::CreditorOut { lender, nb })
            } else if s.limits.contains_key(lender) {
                if sum < s.limits[lender].min {
                    why == Some(Remark::CreditorLow { lender, min: s.limits[lender].min, nb })
                } else if sum > s.limits[lender].max {
                    why == Some(Remark::CreditorFull { lender, max: s.limits[lender].max, nb })
                } else {
                    why is None
                }
            } else if sum > u32::MAX {
                why == Some(Remark::CreditorFull { lender, max: u32::MAX, nb })
            } else {
                why is None
            }
        }),
{
}

/// When a loan is unwound, the borrower that is gone is named, and each creditor that gets nothing
/// back with the reason.
pub proof fn law_remarks_on_unwinding(s: BalancerView)
    ensures
        s.phase is Vanished ==> remark_on(s) == (if s.at < s.queue.len() {
            Some(Remark::Vanished { vmid: s.queue[s.at as int] })
        } else {
            None
        }),
        s.phase matches Phase::ReturnSegment { vmid, segment, resume } ==> remark_on(s) == (if segment
            < s.returning.segments.len() {
            let seg = s.returning.segments[segment as int];
            refusal(
                s,
                seg.preteur_id,
                if s.known.contains_key(seg.preteur_id) {
                    Some(s.known[seg.preteur_id])
                } else {
                    None
                },
                seg.nb_empruntes,
            )
        } else {
            None
        }),
{
}

/// A measure that would count and was taken before the cycle began is named with both times.
pub proof fn law_remarks_on_stale_measures(s: BalancerView)
    requires
        s.phase is Recording,
    ensures
        s.at >= s.metrics.len() ==> remark_on(s) is None,
        s.at < s.metrics.len() ==> {
            let m = s.metrics[s.at as int];
            let cooling = s.states.contains_key(m.vmid) && s.states[m.vmid].vcpus_changed_at > 0 && (
            s.cycle <= s.states[m.vmid].vcpus_changed_at + 1 || s.cycle
                <= s.states[m.vmid].vcpus_changed_at + s.config.vcpu_change_cooldown_cycles);
            remark_on(s) == (if s.limits.contains_key(m.vmid) && !cooling && m.ts_ms < s.start_ms {
                Some(Remark::Stale { ts_ms: m.ts_ms, start_ms: s.start_ms })
            } else {
                None
            })
        },
{
}

/// A VM is named as back to normal exactly where the time of its request is over and it is neither
/// idle, nor resting, nor in distress with room for more.
pub proof fn law_remarks_on_dropped_requests(s: BalancerView)
    requires
        s.phase is Ticking,
        s.at < s.queue.len(),
        s.vcpus.contains_key(s.queue[s.at as int]),
    ensures
        ({
            let id = s.queue[s.at as int];
            let avg = s.averages[id];
            let has = s.vcpus[id];
            let limits = s.limits[id];
            let over = s.states[id].migration matches MigrationStatus::Requested { since }
                && s.start_ms / 1000 > since + s.config.migration_cooldown_seconds;
            remark_on(s) == (if over && !avg.lt(load_of(IDLE_BITS)) && !(s.config.seuil_detresse.le(
                avg,
            ) && has < limits.max) && !(avg.le(s.config.seuil_remboursement) && (
            s.loans.contains_key(id) || has > limits.min)) {
                Some(Remark::Annulled { vmid: id })
            } else {
                None
            })
        }),
{
}

/// A borrower that has been at rest for long enough and has no more than before it borrowed is named
/// with its count; a lender that is gone, opted out or is not known is named when a vCPU is paid
/// back.
pub proof fn law_remarks_on_paying_back(s: BalancerView)
    requires
        s.wf(),
    ensures
        s.phase is Repaying && s.at < s.queue.len() ==> {
            let id = s.queue[s.at as int];
            let has = if s.vcpus.contains_key(id) {
                s.vcpus[id]
            } else {
                0
            };
            let rested = if s.states.contains_key(id) {
                s.states[id].low_counter >= s.config.duree_avant_action
            } else {
                s.config.duree_avant_action == 0
            };
            remark_on(s) == (if s.loans.contains_key(id) && rested && has
                <= s.loans[id].vcpus_initial {
                Some(Remark::BackToInitial { vmid: id, vcpus: has })
            } else {
                None
            })
        },
        s.phase matches Phase::RepayBorrower { vmid, vcpus, lender } ==> remark_on(s) == (if lender
            == 0 {
            None
        } else if !s.present.contains(lender) {
            Some(Remark::LenderAbsent { lender })
        } else if s.opted_out.contains(lender) || !(s.vcpus.contains_key(lender)
            || s.known.contains_key(lender)) {
            Some(Remark::CreditorOut { lender, nb: 1 })
        } else {
            None
        }),
{
    if s.phase is Repaying && s.at < s.queue.len() {
        let id = s.queue[s.at as int];
        if s.loans.contains_key(id) {
            let g = s.loans[id].segments;
            assert(owed(g) == 1) by {
                reveal_with_fuel(owed, 2);
                assert(g.drop_last() =~= Seq::empty());
            }
        }
    }
}

/// A VM in distress that has no room is named when its turn comes; several at once are counted
/// before the first.
pub proof fn law_remarks_on_lending(s: BalancerView)
    requires
        s.phase is Lending,
    ensures
        s.at >= s.queue.len() ==> remark_on(s) is None,
        s.at < s.queue.len() ==> {
            let id = s.queue[s.at as int];
            remark_on(s) == (if s.vcpus[id] >= s.limits[id].max || s.vcpus[id] >= (
            if s.cores.contains_key(id) {
                s.cores[id]
            } else {
                1
            }) {
                Some(Remark::AtCeiling { vmid: id, vcpus: s.vcpus[id] })
            } else {
                None
            })
        },
        s.queue.len() <= usize::MAX ==> {
            &&& s.at == 0 && s.queue.len() > 1 ==> (distress_remark(s) matches Some(
                Remark::Together { count },
            ) && count == s.queue.len())
            &&& s.at > 0 || s.queue.len() <= 1 ==> distress_remark(s) is None
        },
{
}

/// A rest has its cause named, but for a cycle that was gone through.
pub proof fn law_remarks_on_resting(s: BalancerView, seconds: u64, cause: Cause)
    requires
        s.phase == (Phase::Resting { seconds, cause }),
    ensures
        cause is NoVms ==> remark_on(s) == Some(Remark::NoVms),
        cause is NoProfiles ==> remark_on(s) == Some(Remark::NoProfiles),
        cause is Balanced ==> remark_on(s) is None,
        cause is Accumulating ==> remark_on(s) is Some && remark_on(s)->0 is Accumulating,
        distress_remark(s) is None,
{
}

/// While measures accumulate, as many are told as the VM with most of them has, with the cycle and
/// how many there must be.
pub proof fn law_remarks_on_accumulating(s: BalancerView, seconds: u64, n: usize)
    requires
        s.phase == (Phase::Resting { seconds, cause: Cause::Accumulating }),
        forall|id: u32| #[trigger]
            s.states.contains_key(id) ==> s.states[id].history.len() <= n,
        n == 0 || exists|id: u32| #[trigger]
            s.states.contains_key(id) && s.states[id].history.len() == n,
    ensures
        remark_on(s) == Some(
            Remark::Accumulating {
                cycle: s.cycle,
                samples: n,
                min: s.config.min_samples_before_action,
            },
        ),
{
    assert(are_most(s, n));
    lemma_most_measures(s, n);
}

/// In the other phases nothing is remarked.
pub proof fn law_other_phases_go_without_remark(s: BalancerView)
    ensures
        remark_on(s) is Some ==> s.phase is Vanished || s.phase is ReturnSegment
            || s.phase is Recording || s.phase is Ticking || s.phase is Repaying
            || s.phase is RepayBorrower || s.phase is Resting || s.phase is Lending,
        remark_on(s) is Some && (s.phase is Ticking || s.phase is Repaying) ==> s.at < s.queue.len(),
        distress_remark(s) is Some ==> s.phase is Lending,
{
}

/// A remark names the VM that it is about and the counts that it was made with.
pub proof fn law_remarks_name_their_vm(r: Remark)
    ensures
        r matches Remark::Vanished { vmid } ==> r.text_view() == "🔍 VM "@ + decimal_of(vmid as nat)
            + " disparue — retour anticipé des prêts"@,
        r matches Remark::CreditorAbsent { lender, nb } ==> r.text_view() == "⚠️  Créancier VM "@
            + decimal_of(lender as nat) + " absent — "@ + decimal_of(nb as nat)
            + " vCPU(s) libérés sans retour"@,
        r matches Remark::LenderAbsent { lender } ==> r.text_view() == "⚠️  Créancier VM "@
            + decimal_of(lender as nat) + " absent — vCPU libéré sans retour"@,
        r matches Remark::CreditorOut { lender, nb } ==> r.text_view() == "⚠️  Créancier VM "@
            + decimal_of(lender as nat) + " hors équilibrage — "@ + decimal_of(nb as nat)
            + " vCPU(s) libérés sans retour"@,
        r matches Remark::CreditorLow { lender, min, nb } ==> r.text_view() == "⚠️  VM "@
            + decimal_of(lender as nat) + " sous son min ("@ + decimal_of(min as nat) + ") — "@
            + decimal_of(nb as nat) + " vCPU(s) libérés sans retour"@,
        r matches Remark::CreditorFull { lender, max, nb } ==> r.text_view() == "⚠️  VM "@
            + decimal_of(lender as nat) + " au max ("@ + decimal_of(max as nat) + ") — "@
            + decimal_of(nb as nat) + " vCPU(s) libérés sans retour"@,
        r matches Remark::Annulled { vmid } ==> r.text_view() == "🔄 VM "@ + decimal_of(vmid as nat)
            + " : migration annulée (revenue à la normale, cooldown expiré)"@,
        r matches Remark::BackToInitial { vmid, vcpus } ==> r.text_view() == "✅ VM "@ + decimal_of(
            vmid as nat,
        ) + " revenue à son état initial ("@ + decimal_of(vcpus as nat) + " vCPUs)"@,
        r matches Remark::AtCeiling { vmid, vcpus } ==> r.text_view() == "⚠️  VM "@ + decimal_of(
            vmid as nat,
        ) + " au plafond ("@ + decimal_of(vcpus as nat) + " vCPUs) — aucune action locale"@,
{
}

/// A remark on the node tells its counts and times.
pub proof fn law_remarks_tell_their_counts(r: Remark)
    ensures
        r matches Remark::Stale { ts_ms, start_ms } ==> r.text_view() == "⚠️  Mesure rejetée (ts="@
            + decimal_of(ts_ms as nat) + "ms < cycle_start="@ + decimal_of(start_ms as nat)
            + "ms)"@,
        r matches Remark::Together { count } ==> r.text_view() == "⚠️  "@ + decimal_of(count as nat)
            + " VMs en détresse simultanée"@,
        r matches Remark::Accumulating { cycle, samples, min } ==> r.text_view() == "⏳ Cycle "@
            + decimal_of(cycle as nat) + " — accumulation des mesures ("@ + decimal_of(
            samples as nat,
        ) + "/"@ + decimal_of(min as nat) + " min)"@,
        r is NoVms ==> r.text_view() == "⚠️  Aucune VM, retry dans 5s..."@,
        r is NoProfiles ==> r.text_view() == "⚠️ Aucune VM éligible (profils introuvables)"@,
{
}

/// Something is told of a change of vCPUs exactly where it succeeded, but for a donor's, an undone
/// loan's and a lender's, or where it failed, but for an early return's, an undone loan's and a
/// lender's whose borrower gave nothing.
pub proof fn law_outcomes_are_told(s: BalancerView, done: bool)
    ensures
        outcome_text(s, done) is Some <==> (match s.phase {
            Phase::ReturnBorrower { .. } | Phase::ReturnLender { .. } => done,
            Phase::RepayBorrower { .. }
            | Phase::LendBorrower { .. }
            | Phase::LendHost { .. } => true,
            Phase::RepayLender { taken, .. } => taken && !done,
            Phase::LendDonor { .. } => !done,
            _ => false,
        }),
{
}

/// An early return tells who goes back to what, and who got what back from whom.
pub proof fn law_early_returns_are_told(s: BalancerView)
    ensures
        s.phase matches Phase::ReturnBorrower { vmid, resume } ==> outcome_text(s, true) == Some(
            "↩️  RETOUR ANTICIPÉ : VM "@ + decimal_of(vmid as nat) + " → "@ + decimal_of(
                s.returning.vcpus_initial as nat,
            ) + " vCPUs (état initial)"@,
        ),
        s.phase matches Phase::ReturnLender { vmid, segment, vcpus, resume } ==> outcome_text(s, true)
            == Some(
            "↩️  RETOUR ANTICIPÉ : "@ + decimal_of(
                s.returning.segments[segment as int].nb_empruntes as nat,
            ) + " vCPU(s) rendus à VM "@ + decimal_of(
                s.returning.segments[segment as int].preteur_id as nat,
            ) + " (migration VM "@ + decimal_of(vmid as nat) + ")"@,
        ),
{
}

/// A repayment tells the borrower's counts before and after, its lender unless it is the host, and
/// that nothing is left to pay; a failure tells whose it was.
pub proof fn law_repayments_are_told(s: BalancerView, vmid: u32, vcpus: u32, lender: u32)
    requires
        s.wf(),
        s.phase == (Phase::RepayBorrower { vmid, vcpus, lender }),
    ensures
        lender == 0 ==> outcome_text(s, true) == Some(
            "↩️  RETOUR HÔTE : VM "@ + decimal_of(vmid as nat) + " "@ + decimal_of(
                s.vcpus[vmid] as nat,
            ) + " → "@ + decimal_of(vcpus as nat) + " vCPUs | reste: "@ + decimal_of(0),
        ),
        lender != 0 ==> outcome_text(s, true) == Some(
            "↩️  RETOUR OK : VM "@ + decimal_of(vmid as nat) + " "@ + decimal_of(
                s.vcpus[vmid] as nat,
            ) + " → "@ + decimal_of(vcpus as nat) + " vCPUs → VM "@ + decimal_of(lender as nat)
                + " | reste: "@ + decimal_of(0),
        ),
        outcome_text(s, false) == Some("❌ Échec retour VM "@ + decimal_of(vmid as nat)),
{
    lemma_single_is_redeemed(vmid, s.loans[vmid]);
}

/// A lender that could not be set after its borrower was is told as half a repayment.
pub proof fn law_half_repayments_are_told(
    s: BalancerView,
    vmid: u32,
    taken: bool,
    lender: u32,
    vcpus: u32,
)
    requires
        s.phase == (Phase::RepayLender { vmid, taken, lender, vcpus }),
    ensures
        outcome_text(s, true) is None,
        !taken ==> outcome_text(s, false) is None,
        taken ==> outcome_text(s, false) == Some(
            "⚠️  Retour partiel VM "@ + decimal_of(vmid as nat)
                + " : emprunteuse OK mais créancière KO"@,
        ),
{
}

/// A loan tells both VMs with their new counts and what the borrower goes back to; a failed one who
/// was to lend to whom.
pub proof fn law_loans_are_told(
    s: BalancerView,
    vmid: u32,
    vcpus: u32,
    donor: u32,
    donor_vcpus: u32,
)
    requires
        0 < donor_vcpus,
        vcpus < u32::MAX,
    ensures
        s.phase == (Phase::LendBorrower { vmid, vcpus, donor, donor_vcpus }) ==> outcome_text(
            s,
            true,
        ) == Some(
            "✅ PRÊT OK : VM "@ + decimal_of(donor as nat) + " → "@ + decimal_of(
                (donor_vcpus - 1) as nat,
            ) + " vCPUs | VM "@ + decimal_of(vmid as nat) + " → "@ + decimal_of((vcpus + 1) as nat)
                + " vCPUs | cible retour: "@ + decimal_of(vcpus as nat) + " vCPUs"@,
        ),
        s.phase == (Phase::LendBorrower { vmid, vcpus, donor, donor_vcpus }) || s.phase == (
        Phase::LendDonor { vmid, vcpus, donor, donor_vcpus }) ==> outcome_text(s, false) == Some(
            "❌ Échec prêt VM "@ + decimal_of(donor as nat) + " → VM "@ + decimal_of(vmid as nat),
        ),
        s.phase == (Phase::LendHost { vmid, vcpus }) ==> outcome_text(s, true) == Some(
            "✅ PRÊT HÔTE OK : VM "@ + decimal_of(vmid as nat) + " → "@ + decimal_of(
                (vcpus + 1) as nat,
            ) + " vCPUs | cible retour: "@ + decimal_of(vcpus as nat) + " vCPUs"@,
        ) && outcome_text(s, false) == Some("❌ Échec prêt hôte VM "@ + decimal_of(vmid as nat)),
{
}

/// A loan that is about to be made tells the VMs, their loads and their counts; one of the host also
/// how many vCPUs there will be of how many it bears. Nothing is told ahead of other work.
pub proof fn law_intents_are_told(
    s: BalancerView,
    percent: Seq<char>,
    donor_percent: Seq<char>,
    bound: u32,
)
    ensures
        intent_text(s, percent, donor_percent, bound) is Some <==> s.phase is LendDonor
            || s.phase is LendHost,
        s.phase matches Phase::LendDonor { vmid, vcpus, donor, donor_vcpus } ==> intent_text(
            s,
            percent,
            donor_percent,
            bound,
        ) == Some(
            "🔄 PRÊT : VM "@ + decimal_of(donor as nat) + " ("@ + donor_percent + "%, "@ + decimal_of(
                donor_vcpus as nat,
            ) + " vCPUs) → VM "@ + decimal_of(vmid as nat) + " ("@ + percent + "%, "@ + decimal_of(
                vcpus as nat,
            ) + " vCPUs)"@,
        ),
        s.phase matches Phase::LendHost { vmid, vcpus } ==> intent_text(
            s,
            percent,
            donor_percent,
            bound,
        ) == Some(
            "🔄 PRÊT HÔTE : VM "@ + decimal_of(vmid as nat) + " ("@ + percent + "%) "@ + decimal_of(
                vcpus as nat,
            ) + " → "@ + decimal_of((vcpus + 1) as nat) + " vCPUs ["@ + decimal_of(
                (sum_of(s.vcpus) + 1) % 0x1_0000_0000,
            ) + "/"@ + decimal_of(bound as nat) + "]"@,
        ),
{
    let n = sum_of(s.vcpus);
    assert((n % 0x1_0000_0000 == 0xffff_ffff && (n + 1) % 0x1_0000_0000 == 0) || (n + 1)
        % 0x1_0000_0000 == n % 0x1_0000_0000 + 1);
}

/// A change that is refused, or that brings the configuration in line first, tells so with its VM and
/// its counts; any other goes on in silence.
pub proof fn law_changes_tell_why_they_stop(c: VcpuChange)
    ensures
        c.notice_text() is Some <==> c.phase is TooMany || c.phase is Zero || c.phase is Resync,
        c.phase matches ChangePhase::TooMany { max } ==> c.notice_text() == Some(
            "❌ set_vm_vcpus VM "@ + decimal_of(c.vmid as nat) + " : "@ + decimal_of(c.vcpus as nat)
                + " > cores_max "@ + decimal_of(max as nat) + " — ignoré"@,
        ),
        c.phase is Zero ==> c.notice_text() == Some(
            "❌ set_vm_vcpus VM "@ + decimal_of(c.vmid as nat) + " : vcpus=0 invalide — ignoré"@,
        ),
        c.phase matches ChangePhase::Resync { config, running } ==> c.notice_text() == Some(
            "🔧 VM "@ + decimal_of(c.vmid as nat) + " désynchronisée (config="@ + decimal_of(
                config as nat,
            ) + " QEMU="@ + decimal_of(running as nat) + ") — resync avant set"@,
        ),
{
}

/// An instant is written with its own second, nanosecond and offset, in a log line as year, month and
/// day, hour, minute and second.
pub proof fn law_moments_are_written_as_they_are(m: Moment)
    ensures
        m.rfc3339_view() == rfc3339_text(m.secs, m.nanos, m.offset),
        m.log_view() == layout_text(m.secs, m.nanos, m.offset, "%Y-%m-%d %H:%M:%S"@),
{
}

} // verus!
