//! What is worth a word in the log when the balancer goes on.

use vstd::prelude::*;
#[allow(unused_imports)]
use crate::loan::{owed, repaid};
#[allow(unused_imports)]
use crate::machine::{entry_or, sum_of, BalancerView, Cause, Phase};
#[allow(unused_imports)]
use crate::proxmox::low32;
use crate::text::decimal;
#[allow(unused_imports)]
use crate::text::decimal_of;
#[allow(unused_imports)]
use crate::vm_state::next32;

verus! {

/// Something worth a word.
#[derive(Clone, Copy, Debug, PartialEq, Eq, Structural)]
pub enum Remark {
    /// A VM that owes is gone.
    Vanished { vmid: u32 },
    /// A creditor is gone, and gets nothing back.
    CreditorAbsent { lender: u32, nb: u32 },
    /// A lender is gone when a vCPU is paid back, and gets nothing.
    LenderAbsent { lender: u32 },
    /// A creditor opted out or it is not known what it has, and it gets nothing back.
    CreditorOut { lender: u32, nb: u32 },
    /// A creditor would have less than its least, and gets nothing back.
    CreditorLow { lender: u32, min: u32, nb: u32 },
    /// A creditor would have more than its most, and gets nothing back.
    CreditorFull { lender: u32, max: u32, nb: u32 },
    /// A measure was taken before the cycle began.
    Stale { ts_ms: u64, start_ms: u64 },
    /// A VM is back to normal and the request to migrate it is dropped.
    Annulled { vmid: u32 },
    /// A borrower has no more than before it borrowed.
    BackToInitial { vmid: u32, vcpus: u32 },
    /// Several VMs are in distress at once.
    Together { count: usize },
    /// A VM in distress can get no more.
    AtCeiling { vmid: u32, vcpus: u32 },
    /// No VM runs.
    NoVms,
    /// No VM takes part.
    NoProfiles,
    /// No VM has an average yet: so many measures are there of so many.
    Accumulating { cycle: u64, samples: usize, min: usize },
}

impl Remark {
    /// The words for it.
    pub open spec fn text_view(self) -> Seq<char> {
        match self {
            Remark::Vanished { vmid } => {
                "🔍 VM "@ + decimal_of(vmid as nat) + " disparue — retour anticipé des prêts"@
            },
            Remark::CreditorAbsent { lender, nb } => {
                "⚠️  Créancier VM "@ + decimal_of(lender as nat) + " absent — "@
                    + decimal_of(nb as nat) + " vCPU(s) libérés sans retour"@
            },
            Remark::LenderAbsent { lender } => {
                "⚠️  Créancier VM "@ + decimal_of(lender as nat)
                    + " absent — vCPU libéré sans retour"@
            },
            Remark::CreditorOut { lender, nb } => {
                "⚠️  Créancier VM "@ + decimal_of(lender as nat) + " hors équilibrage — "@
                    + decimal_of(nb as nat) + " vCPU(s) libérés sans retour"@
            },
            Remark::CreditorLow { lender, min, nb } => {
                "⚠️  VM "@ + decimal_of(lender as nat) + " sous son min ("@
                    + decimal_of(min as nat) + ") — "@ + decimal_of(nb as nat)
                    + " vCPU(s) libérés sans retour"@
            },
            Remark::CreditorFull { lender, max, nb } => {
                "⚠️  VM "@ + decimal_of(lender as nat) + " au max ("@ + decimal_of(max as nat)
                    + ") — "@ + decimal_of(nb as nat) + " vCPU(s) libérés sans retour"@
            },
            Remark::Stale { ts_ms, start_ms } => {
                "⚠️  Mesure rejetée (ts="@ + decimal_of(ts_ms as nat) + "ms < cycle_start="@
                    + decimal_of(start_ms as nat) + "ms)"@
            },
            Remark::Annulled { vmid } => {
                "🔄 VM "@ + decimal_of(vmid as nat)
                    + " : migration annulée (revenue à la normale, cooldown expiré)"@
            },
            Remark::BackToInitial { vmid, vcpus } => {
                "✅ VM "@ + decimal_of(vmid as nat) + " revenue à son état initial ("@
                    + decimal_of(vcpus as nat) + " vCPUs)"@
            },
            Remark::Together { count } => {
                "⚠️  "@ + decimal_of(count as nat) + " VMs en détresse simultanée"@
            },
            Remark::AtCeiling { vmid, vcpus } => {
                "⚠️  VM "@ + decimal_of(vmid as nat) + " au plafond ("@ + decimal_of(vcpus as nat)
                    + " vCPUs) — aucune action locale"@
            },
            Remark::NoVms => "⚠️  Aucune VM, retry dans 5s..."@,
            Remark::NoProfiles => "⚠️ Aucune VM éligible (profils introuvables)"@,
            Remark::Accumulating { cycle, samples, min } => {
                "⏳ Cycle "@ + decimal_of(cycle as nat) + " — accumulation des mesures ("@
                    + decimal_of(samples as nat) + "/"@ + decimal_of(min as nat) + " min)"@
            },
        }
    }

    /// Puts it into words.
    pub fn text(&self) -> (r: String)
        ensures
            r@ == self.text_view(),
    {
        match *self {
            Remark::Vanished { vmid } => {
                "🔍 VM ".to_owned().concat(decimal(vmid as u64).as_str())
                    .concat(" disparue — retour anticipé des prêts")
            },
            Remark::CreditorAbsent { lender, nb } => {
                "⚠️  Créancier VM ".to_owned().concat(decimal(lender as u64).as_str())
                    .concat(" absent — ").concat(decimal(nb as u64).as_str())
                    .concat(" vCPU(s) libérés sans retour")
            },
            Remark::LenderAbsent { lender } => {
                "⚠️  Créancier VM ".to_owned().concat(decimal(lender as u64).as_str())
                    .concat(" absent — vCPU libéré sans retour")
            },
            Remark::CreditorOut { lender, nb } => {
                "⚠️  Créancier VM ".to_owned().concat(decimal(lender as u64).as_str())
                    .concat(" hors équilibrage — ").concat(decimal(nb as u64).as_str())
                    .concat(" vCPU(s) libérés sans retour")
            },
            Remark::CreditorLow { lender, min, nb } => {
                "⚠️  VM ".to_owned().concat(decimal(lender as u64).as_str())
                    .concat(" sous son min (").concat(decimal(min as u64).as_str()).concat(") — ")
                    .concat(decimal(nb as u64).as_str()).concat(" vCPU(s) libérés sans retour")
            },
            Remark::CreditorFull { lender, max, nb } => {
                "⚠️  VM ".to_owned().concat(decimal(lender as u64).as_str()).concat(" au max (")
                    .concat(decimal(max as u64).as_str()).concat(") — ")
                    .concat(decimal(nb as u64).as_str()).concat(" vCPU(s) libérés sans retour")
            },
            Remark::Stale { ts_ms, start_ms } => {
                "⚠️  Mesure rejetée (ts=".to_owned().concat(decimal(ts_ms as u64).as_str())
                    .concat("ms < cycle_start=").concat(decimal(start_ms as u64).as_str())
                    .concat("ms)")
            },
            Remark::Annulled { vmid } => {
                "🔄 VM ".to_owned().concat(decimal(vmid as u64).as_str())
                    .concat(" : migration annulée (revenue à la normale, cooldown expiré)")
            },
            Remark::BackToInitial { vmid, vcpus } => {
                "✅ VM ".to_owned().concat(decimal(vmid as u64).as_str())
                    .concat(" revenue à son état initial (")
                    .concat(decimal(vcpus as u64).as_str()).concat(" vCPUs)")
            },
            Remark::Together { count } => {
                "⚠️  ".to_owned().concat(decimal(count as u64).as_str())
                    .concat(" VMs en détresse simultanée")
            },
            Remark::AtCeiling { vmid, vcpus } => {
                "⚠️  VM ".to_owned().concat(decimal(vmid as u64).as_str()).concat(" au plafond (")
                    .concat(decimal(vcpus as u64).as_str())
                    .concat(" vCPUs) — aucune action locale")
            },
            Remark::NoVms => "⚠️  Aucune VM, retry dans 5s...".to_owned(),
            Remark::NoProfiles => "⚠️ Aucune VM éligible (profils introuvables)".to_owned(),
            Remark::Accumulating { cycle, samples, min } => {
                "⏳ Cycle ".to_owned().concat(decimal(cycle as u64).as_str())
                    .concat(" — accumulation des mesures (")
                    .concat(decimal(samples as u64).as_str()).concat("/")
                    .concat(decimal(min as u64).as_str()).concat(" min)")
            },
        }
    }
}

/// Why a creditor with `count` vCPUs does not get `nb` back, if so.
pub open spec fn refusal(s: BalancerView, lender: u32, count: Option<u32>, nb: u32) -> Option<Remark> {
    if lender == 0 || nb == 0 || s.refundable(lender, count, nb) {
        None
    } else if !s.present.contains(lender) {
        Some(Remark::CreditorAbsent { lender, nb })
    } else if s.opted_out.contains(lender) || count is None {
        Some(Remark::CreditorOut { lender, nb })
    } else if s.limits.contains_key(lender) && count->0 + nb < s.limits[lender].min {
        Some(Remark::CreditorLow { lender, min: s.limits[lender].min, nb })
    } else {
        Some(
            Remark::CreditorFull {
                lender,
                max: if s.limits.contains_key(lender) {
                    s.limits[lender].max
                } else {
                    u32::MAX
                },
                nb,
            },
        )
    }
}

/// The next VM is back to normal and its request is dropped.
pub open spec fn annuls(s: BalancerView, id: u32) -> bool {
    let vcpus = entry_or(s.vcpus, id, s.limits[id].min);
    let avg = s.averages[id];
    &&& s.states[id].migration is Requested
    &&& s.states[id].ticked(
        avg,
        vcpus,
        s.limits[id],
        s.loans.contains_key(id),
        s.config,
        s.now_secs(),
    ).migration is Unasked
    &&& !(s.config.seuil_detresse.le(avg) && vcpus < s.limits[id].max)
}

/// Of no VM there are more than `n` measures, and of one there are so many unless there are none.
pub open spec fn are_most(s: BalancerView, n: usize) -> bool {
    &&& forall|id: u32| #[trigger]
        s.states.contains_key(id) ==> s.states[id].history.len() <= n
    &&& n > 0 ==> exists|id: u32| #[trigger]
        s.states.contains_key(id) && s.states[id].history.len() == n
}

/// The most measures that are kept of any VM.
pub open spec fn most_measures(s: BalancerView) -> usize {
    choose|n: usize| are_most(s, n)
}

/// There is one greatest number of measures.
pub proof fn lemma_most_measures(s: BalancerView, n: usize)
    requires
        are_most(s, n),
    ensures
        n == most_measures(s),
{
    let m = most_measures(s);
    assert(are_most(s, m));
}

/// What is worth a word before the machine goes on.
pub open spec fn remark_on(s: BalancerView) -> Option<Remark> {
    match s.phase {
        Phase::Vanished => if s.at < s.queue.len() {
            Some(Remark::Vanished { vmid: s.queue[s.at as int] })
        } else {
            None
        },
        Phase::ReturnSegment { segment, .. } => if segment < s.returning.segments.len() {
            let seg = s.returning.segments[segment as int];
            refusal(s, seg.preteur_id, s.known_of(seg.preteur_id), seg.nb_empruntes)
        } else {
            None
        },
        Phase::Recording => if s.at < s.metrics.len() {
            let m = s.metrics[s.at as int];
            if s.limits.contains_key(m.vmid) && s.due(m.vmid) && m.ts_ms < s.start_ms {
                Some(Remark::Stale { ts_ms: m.ts_ms, start_ms: s.start_ms })
            } else {
                None
            }
        } else {
            None
        },
        Phase::Ticking => if s.at < s.queue.len() && annuls(s, s.queue[s.at as int]) {
            Some(Remark::Annulled { vmid: s.queue[s.at as int] })
        } else {
            None
        },
        Phase::Repaying => if s.at < s.queue.len() {
            let id = s.queue[s.at as int];
            let vcpus = entry_or(s.vcpus, id, 0);
            if s.loans.contains_key(id) && owed(s.loans[id].segments) > 0 && s.low_of(id)
                >= s.config.duree_avant_action && vcpus <= s.loans[id].vcpus_initial {
                Some(Remark::BackToInitial { vmid: id, vcpus })
            } else {
                None
            }
        } else {
            None
        },
        Phase::RepayBorrower { lender, .. } => match refusal(s, lender, s.count_of(lender), 1) {
            Some(Remark::CreditorAbsent { .. }) => Some(Remark::LenderAbsent { lender }),
            Some(Remark::CreditorOut { nb, .. }) => Some(Remark::CreditorOut { lender, nb }),
            _ => None,
        },
        Phase::Resting { cause, .. } => match cause {
            Cause::NoVms => Some(Remark::NoVms),
            Cause::NoProfiles => Some(Remark::NoProfiles),
            Cause::Accumulating => Some(
                Remark::Accumulating {
                    cycle: s.cycle,
                    samples: most_measures(s),
                    min: s.config.min_samples_before_action,
                },
            ),
            Cause::Balanced => None,
        },
        Phase::Lending => if s.at < s.queue.len() {
            let id = s.queue[s.at as int];
            if s.vcpus[id] < s.limits[id].max && s.vcpus[id] < s.cores_of(id) {
                None
            } else {
                Some(Remark::AtCeiling { vmid: id, vcpus: s.vcpus[id] })
            }
        } else {
            None
        },
        _ => None,
    }
}

/// How many VMs are in distress at once when the lending begins, if more than one.
pub open spec fn distress_remark(s: BalancerView) -> Option<Remark> {
    if s.phase is Lending && s.at == 0 && s.queue.len() > 1 {
        Some(Remark::Together { count: s.queue.len() as usize })
    } else {
        None
    }
}

/// What is told of a change of vCPUs once it was made or failed.
pub open spec fn outcome_text(s: BalancerView, done: bool) -> Option<Seq<char>> {
    match (s.phase, done) {
        (Phase::ReturnBorrower { vmid, .. }, true) => Some(
            "↩️  RETOUR ANTICIPÉ : VM "@ + decimal_of(vmid as nat) + " → "@
                + decimal_of(s.returning.vcpus_initial as nat) + " vCPUs (état initial)"@,
        ),
        (Phase::ReturnLender { vmid, segment, .. }, true) => Some(
            "↩️  RETOUR ANTICIPÉ : "@
                + decimal_of(s.returning.segments[segment as int].nb_empruntes as nat)
                + " vCPU(s) rendus à VM "@
                + decimal_of(s.returning.segments[segment as int].preteur_id as nat)
                + " (migration VM "@ + decimal_of(vmid as nat) + ")"@,
        ),
        (Phase::RepayBorrower { vmid, vcpus, lender }, true) => Some(
            if lender == 0 {
                "↩️  RETOUR HÔTE : VM "@ + decimal_of(vmid as nat) + " "@
                    + decimal_of((vcpus + 1) as nat) + " → "@ + decimal_of(vcpus as nat)
                    + " vCPUs | reste: "@
                    + decimal_of(owed(repaid(s.loans[vmid].segments)) as nat)
            } else {
                "↩️  RETOUR OK : VM "@ + decimal_of(vmid as nat) + " "@
                    + decimal_of((vcpus + 1) as nat) + " → "@ + decimal_of(vcpus as nat)
                    + " vCPUs → VM "@ + decimal_of(lender as nat) + " | reste: "@
                    + decimal_of(owed(repaid(s.loans[vmid].segments)) as nat)
            },
        ),
        (Phase::RepayBorrower { vmid, .. }, false) => Some(
            "❌ Échec retour VM "@ + decimal_of(vmid as nat),
        ),
        (Phase::RepayLender { vmid, taken: true, .. }, false) => Some(
            "⚠️  Retour partiel VM "@ + decimal_of(vmid as nat)
                + " : emprunteuse OK mais créancière KO"@,
        ),
        (Phase::LendBorrower { vmid, vcpus, donor, donor_vcpus }, true) => Some(
            "✅ PRÊT OK : VM "@ + decimal_of(donor as nat) + " → "@
                + decimal_of((donor_vcpus - 1) as nat) + " vCPUs | VM "@ + decimal_of(vmid as nat)
                + " → "@ + decimal_of((vcpus + 1) as nat) + " vCPUs | cible retour: "@
                + decimal_of(vcpus as nat) + " vCPUs"@,
        ),
        (Phase::LendDonor { vmid, donor, .. }, false)
        | (Phase::LendBorrower { vmid, donor, .. }, false) => Some(
            "❌ Échec prêt VM "@ + decimal_of(donor as nat) + " → VM "@ + decimal_of(vmid as nat),
        ),
        (Phase::LendHost { vmid, vcpus }, true) => Some(
            "✅ PRÊT HÔTE OK : VM "@ + decimal_of(vmid as nat) + " → "@
                + decimal_of((vcpus + 1) as nat) + " vCPUs | cible retour: "@
                + decimal_of(vcpus as nat) + " vCPUs"@,
        ),
        (Phase::LendHost { vmid, .. }, false) => Some(
            "❌ Échec prêt hôte VM "@ + decimal_of(vmid as nat),
        ),
        _ => None,
    }
}

/// What is told of a loan that is about to be made; `percent` and `donor_percent` are the loads of
/// the VM in distress and of the donor in percent, `bound` is what the host bears.
pub open spec fn intent_text(
    s: BalancerView,
    percent: Seq<char>,
    donor_percent: Seq<char>,
    bound: u32,
) -> Option<Seq<char>> {
    match s.phase {
        Phase::LendDonor { vmid, vcpus, donor, donor_vcpus } => Some(
            "🔄 PRÊT : VM "@ + decimal_of(donor as nat) + " ("@ + donor_percent + "%, "@
                + decimal_of(donor_vcpus as nat) + " vCPUs) → VM "@ + decimal_of(vmid as nat)
                + " ("@ + percent + "%, "@ + decimal_of(vcpus as nat) + " vCPUs)"@,
        ),
        Phase::LendHost { vmid, vcpus } => Some(
            "🔄 PRÊT HÔTE : VM "@ + decimal_of(vmid as nat) + " ("@ + percent + "%) "@
                + decimal_of(vcpus as nat) + " → "@ + decimal_of((vcpus + 1) as nat) + " vCPUs ["@
                + decimal_of(next32(low32(sum_of(s.vcpus) as int)) as nat) + "/"@
                + decimal_of(bound as nat) + "]"@,
        ),
        _ => None,
    }
}

} // verus!
