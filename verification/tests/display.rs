use agent_vcpu::display::vm_line;
use agent_vcpu::load::Load;
use agent_vcpu::loan::Loan;
use agent_vcpu::vm_state::{Limits, MigrationStatus, VMState};

fn load(x: f64) -> Load {
    Load::from_bits(x.to_bits())
}

fn shown(avg: f64, vcpus: u32, state: &VMState, loan: Option<&Loan>) -> String {
    vm_line(
        7,
        load(avg),
        "  x.x",
        vcpus,
        Limits { min: 1, max: 4 },
        state,
        loan,
        load(0.9),
        load(0.3),
    )
}

#[test]
fn states_have_words() {
    let s = VMState::new(2);
    assert_eq!(
        shown(0.9, 4, &s, None),
        "🔴 SATURÉE  VM   7 | CPU=  x.x% | vCPUs=4 [min=1 max=4] | stable"
    );
    assert_eq!(
        shown(0.9, 3, &s, None),
        "🔴 DÉTRESSE VM   7 | CPU=  x.x% | vCPUs=3 [min=1 max=4] | stable"
    );
    assert_eq!(
        shown(0.3, 3, &s, None),
        "🟢 REPOS    VM   7 | CPU=  x.x% | vCPUs=3 [min=1 max=4] | stable"
    );
    assert_eq!(
        shown(0.5, 3, &s, None),
        "🟡 NORMAL   VM   7 | CPU=  x.x% | vCPUs=3 [min=1 max=4] | stable"
    );
}

#[test]
fn debts_are_listed_by_lender() {
    let mut s = VMState::new(2);
    s.low_counter = 2;
    s.migration = MigrationStatus::Confirmed;
    let mut loan = Loan::new(2);
    loan.ajouter(0, 1);
    loan.ajouter(102, 2);
    assert_eq!(
        shown(0.3, 5, &s, Some(&loan)),
        "🟠 REMB.    VM   7 | CPU=  x.x% | vCPUs=5 [min=1 max=4] [doit rendre 3 (1×hôte+2×VM102) | cible: 2 vCPUs] [migration confirmée] | repos 2c"
    );
}

#[test]
fn loan_of_nothing_is_not_shown() {
    let mut s = VMState::new(2);
    s.distress_counter = 12;
    s.low_counter = 2;
    s.migration = MigrationStatus::Requested { since: 5 };
    assert_eq!(
        shown(0.5, 2, &s, Some(&Loan::new(2))),
        "🟡 NORMAL   VM   7 | CPU=  x.x% | vCPUs=2 [min=1 max=4] [migration demandée] | détresse 12c"
    );
}
