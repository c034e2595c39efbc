use agent_vcpu::loan::{Loan, LoanSegment};

#[test]
fn new_loan_owes_nothing() {
    let mut loan = Loan::new(4);
    assert_eq!(loan.vcpus_initial, 4);
    assert_eq!(loan.total_empruntes(), 0);
    assert_eq!(loan.retirer_un(), None);
}

#[test]
fn loans_of_one_lender_add_up() {
    let mut loan = Loan::new(2);
    loan.ajouter(101, 1);
    loan.ajouter(0, 2);
    loan.ajouter(101, 3);
    assert_eq!(
        loan.segments,
        vec![
            LoanSegment { preteur_id: 101, nb_empruntes: 4 },
            LoanSegment { preteur_id: 0, nb_empruntes: 2 }
        ]
    );
    assert_eq!(loan.total_empruntes(), 6);
}

#[test]
fn latest_lender_is_paid_back_first() {
    let mut loan = Loan::new(2);
    loan.ajouter(101, 1);
    loan.ajouter(102, 2);
    assert_eq!(loan.retirer_un(), Some(102));
    assert_eq!(loan.retirer_un(), Some(102));
    assert_eq!(loan.retirer_un(), Some(101));
    assert_eq!(loan.retirer_un(), None);
    assert_eq!(loan.total_empruntes(), 0);
    assert_eq!(loan.vcpus_initial, 2);
}

#[test]
fn empty_segments_are_skipped() {
    let mut loan = Loan::new(2);
    loan.ajouter(101, 1);
    loan.ajouter(102, 0);
    assert_eq!(loan.retirer_un(), Some(101));
    assert!(loan.segments.is_empty());
}

#[test]
fn new_lender_is_paid_back_in_full_first() {
    let mut loan = Loan::new(2);
    loan.ajouter(101, 2);
    let before = loan.segments.clone();
    loan.ajouter(102, 3);
    for _ in 0..3 {
        assert_eq!(loan.retirer_un(), Some(102));
    }
    assert_eq!(loan.segments, before);
    assert_eq!(loan.vcpus_initial, 2);
}
