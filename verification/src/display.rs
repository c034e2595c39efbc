//! How the state of the VMs is shown.

use vstd::prelude::*;
use crate::load::Load;
use crate::loan::Loan;
#[allow(unused_imports)]
use crate::loan::{owed, LoanSegment, LoanView};
use crate::text::{decimal, pad};
#[allow(unused_imports)]
use crate::text::{decimal_of, padded};
use crate::vm_state::{Limits, MigrationStatus, VMState};
#[allow(unused_imports)]
use crate::vm_state::VMStateView;

verus! {

/// What is shown of a VM's load.
pub open spec fn status_word(
    avg: Load,
    vcpus: u32,
    max: u32,
    owing: bool,
    distress: Load,
    rest: Load,
) -> Seq<char> {
    if distress.le(avg) && vcpus >= max {
        "🔴 SATURÉE "@
    } else if distress.le(avg) {
        "🔴 DÉTRESSE"@
    } else if owing {
        "🟠 REMB.   "@
    } else if avg.le(rest) {
        "🟢 REPOS   "@
    } else {
        "🟡 NORMAL  "@
    }
}

fn status(avg: Load, vcpus: u32, max: u32, owing: bool, distress: Load, rest: Load) -> (r:
    &'static str)
    ensures
        r@ == status_word(avg, vcpus, max, owing, distress, rest),
{
    if distress.at_most(avg) && vcpus >= max {
        "🔴 SATURÉE "
    } else if distress.at_most(avg) {
        "🔴 DÉTRESSE"
    } else if owing {
        "🟠 REMB.   "
    } else if avg.at_most(rest) {
        "🟢 REPOS   "
    } else {
        "🟡 NORMAL  "
    }
}

/// What is owed to one lender.
pub open spec fn credit_text(seg: LoanSegment) -> Seq<char> {
    decimal_of(seg.nb_empruntes as nat) + "×"@ + (if seg.preteur_id == 0 {
        "hôte"@
    } else {
        "VM"@ + decimal_of(seg.preteur_id as nat)
    })
}

/// What is owed, lender by lender.
pub open spec fn credits_text(s: Seq<LoanSegment>) -> Seq<char>
    decreases s.len(),
{
    if s.len() == 0 {
        Seq::empty()
    } else if s.len() == 1 {
        credit_text(s[0])
    } else {
        credits_text(s.drop_last()) + "+"@ + credit_text(s.last())
    }
}

/// What a VM owes; nothing where it owes nothing.
pub open spec fn loan_text(loan: Option<LoanView>) -> Seq<char> {
    match loan {
        Some(l) => if owed(l.segments) > 0 {
            " [doit rendre "@ + decimal_of(owed(l.segments)) + " ("@ + credits_text(l.segments)
                + ") | cible: "@ + decimal_of(l.vcpus_initial as nat) + " vCPUs]"@
        } else {
            Seq::empty()
        },
        None => Seq::empty(),
    }
}

/// Where the migration of a VM stands.
pub open spec fn migration_text(m: MigrationStatus) -> Seq<char> {
    match m {
        MigrationStatus::Requested { .. } => " [migration demandée]"@,
        MigrationStatus::Confirmed => " [migration confirmée]"@,
        MigrationStatus::Unasked => Seq::empty(),
    }
}

/// For how long a VM has been in distress or at rest.
pub open spec fn counters_text(distress: u32, low: u32) -> Seq<char> {
    if distress > 0 {
        "détresse "@ + decimal_of(distress as nat) + "c"@
    } else if low > 0 {
        "repos "@ + decimal_of(low as nat) + "c"@
    } else {
        "stable"@
    }
}

/// The line that shows a VM.
pub open spec fn line_text(
    vmid: u32,
    avg: Load,
    cpu: Seq<char>,
    vcpus: u32,
    limits: Limits,
    state: VMStateView,
    loan: Option<LoanView>,
    distress: Load,
    rest: Load,
) -> Seq<char> {
    status_word(
        avg,
        vcpus,
        limits.max,
        loan is Some && owed(loan->0.segments) > 0,
        distress,
        rest,
    ) + " VM "@ + padded(decimal_of(vmid as nat), 3) + " | CPU="@ + cpu + "% | vCPUs="@
        + decimal_of(vcpus as nat) + " [min="@ + decimal_of(limits.min as nat) + " max="@
        + decimal_of(limits.max as nat) + "]"@ + loan_text(loan) + migration_text(state.migration)
        + " | "@ + counters_text(state.distress_counter, state.low_counter)
}

fn credit(seg: &LoanSegment) -> (r: String)
    ensures
        r@ == credit_text(*seg),
{
    let head: String = decimal(seg.nb_empruntes as u64).concat("×");
    if seg.preteur_id == 0 {
        head.concat("hôte")
    } else {
        let name: String = "VM".to_owned().concat(decimal(seg.preteur_id as u64).as_str());
        head.concat(name.as_str())
    }
}

fn credits(loan: &Loan) -> (r: String)
    ensures
        r@ == credits_text(loan@.segments),
{
    let mut out: String = String::new();
    let mut i: usize = 0;
    assert(loan.segments@.take(0) =~= Seq::empty());
    while i < loan.segments.len()
        invariant
            i <= loan.segments@.len(),
            out@ == credits_text(loan.segments@.take(i as int)),
        decreases loan.segments@.len() - i,
    {
        proof {
            let t = loan.segments@.take(i + 1);
            assert(t.drop_last() =~= loan.segments@.take(i as int));
            assert(t.last() == loan.segments@[i as int]);
        }
        if i > 0 {
            out.append("+");
        }
        let text: String = credit(&loan.segments[i]);
        out.append(text.as_str());
        i = i + 1;
        assert(out@ =~= credits_text(loan.segments@.take(i as int)));
    }
    assert(loan.segments@.take(i as int) =~= loan.segments@);
    out
}

/// What an optional loan holds.
pub open spec fn opt_loan(loan: Option<&Loan>) -> Option<LoanView> {
    match loan {
        Some(l) => Some(l@),
        None => None,
    }
}

fn debt(loan: Option<&Loan>) -> (r: String)
    requires
        loan is Some ==> loan->0.wf(),
    ensures
        r@ == loan_text(opt_loan(loan)),
{
    match loan {
        Some(l) => {
            let n: u32 = l.total_empruntes();
            if n > 0 {
                " [doit rendre ".to_owned().concat(decimal(n as u64).as_str()).concat(" (").concat(
                    credits(l).as_str(),
                ).concat(") | cible: ").concat(decimal(l.vcpus_initial as u64).as_str()).concat(
                    " vCPUs]",
                )
            } else {
                String::new()
            }
        },
        None => String::new(),
    }
}

fn migration(m: MigrationStatus) -> (r: &'static str)
    ensures
        r@ == migration_text(m),
{
    match m {
        MigrationStatus::Requested { since: _ } => " [migration demandée]",
        MigrationStatus::Confirmed => " [migration confirmée]",
        MigrationStatus::Unasked => {
            proof {
                reveal_strlit("");
            }
            assert(""@ =~= Seq::empty());
            ""
        },
    }
}

fn counters(distress: u32, low: u32) -> (r: String)
    ensures
        r@ == counters_text(distress, low),
{
    if distress > 0 {
        "détresse ".to_owned().concat(decimal(distress as u64).as_str()).concat("c")
    } else if low > 0 {
        "repos ".to_owned().concat(decimal(low as u64).as_str()).concat("c")
    } else {
        "stable".to_owned()
    }
}

/// Writes the line that shows a VM; `cpu` is its load in percent.
pub fn vm_line(
    vmid: u32,
    avg: Load,
    cpu: &str,
    vcpus: u32,
    limits: Limits,
    state: &VMState,
    loan: Option<&Loan>,
    distress: Load,
    rest: Load,
) -> (r: String)
    requires
        loan is Some ==> loan->0.wf(),
    ensures
        r@ == line_text(vmid, avg, cpu@, vcpus, limits, state@, opt_loan(loan), distress, rest),
{
    let owing: bool = match loan {
        Some(l) => l.total_empruntes() > 0,
        None => false,
    };
    let word: &'static str = status(avg, vcpus, limits.max, owing, distress, rest);
    let id: String = pad(decimal(vmid as u64).as_str(), 3);
    let ticks: String = counters(state.distress_counter, state.low_counter);
    word.to_owned().concat(" VM ").concat(id.as_str()).concat(" | CPU=").concat(cpu).concat(
        "% | vCPUs=",
    ).concat(decimal(vcpus as u64).as_str()).concat(" [min=").concat(
        decimal(limits.min as u64).as_str(),
    ).concat(" max=").concat(decimal(limits.max as u64).as_str()).concat("]").concat(
        debt(loan).as_str(),
    ).concat(migration(state.migration)).concat(" | ").concat(ticks.as_str())
}

} // verus!
