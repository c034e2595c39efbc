use agent_vcpu::config::AppConfig;
use agent_vcpu::load::Load;
use agent_vcpu::vm_state::{Limits, MigrationStatus, VMState};

fn load(x: f64) -> Load {
    Load::from_bits(x.to_bits())
}

fn config() -> AppConfig {
    AppConfig {
        profiles: Vec::new(),
        check_interval: 2,
        window_size: 2,
        min_samples_before_action: 1,
        seuil_detresse: load(0.90),
        seuil_donneuse: load(0.30),
        seuil_remboursement: load(0.30 + 0.10),
        duree_avant_action: 3,
        migration_cooldown_seconds: 100,
        distress_before_migration: 4,
        vcpu_change_cooldown_cycles: 2,
    }
}

const LIMITS: Limits = Limits { min: 1, max: 4 };

#[test]
fn window_slides() {
    let mut s = VMState::new(2);
    assert!(s.push(1, 10, 2, 10));
    assert!(s.push(2, 11, 2, 10));
    assert!(s.push(3, 12, 2, 10));
    assert_eq!(s.history, vec![2, 3]);
    assert_eq!(s.last_measure_ts, 12);
}

#[test]
fn stale_measure_is_left_out() {
    let mut s = VMState::new(2);
    assert!(!s.push(1, 9, 2, 10));
    assert!(s.history.is_empty());
    assert_eq!(s.last_measure_ts, 0);
}

#[test]
fn ready_from_the_number_of_measures_on() {
    let mut s = VMState::new(2);
    assert!(s.ready(0));
    assert!(!s.ready(1));
    s.push(1, 10, 2, 10);
    assert!(s.ready(1));
    assert!(!s.ready(2));
}

#[test]
fn idle_vm_is_at_rest_at_once() {
    let mut s = VMState::new(2);
    s.distress_counter = 5;
    s.tick(load(0.19), 2, LIMITS, false, &config(), 0);
    assert_eq!((s.distress_counter, s.low_counter), (0, 3));
}

#[test]
fn distress_counts_below_the_most_only() {
    let mut s = VMState::new(2);
    s.low_counter = 2;
    s.tick(load(0.90), 3, LIMITS, false, &config(), 0);
    assert_eq!((s.distress_counter, s.low_counter), (1, 0));
    s.tick(load(0.90), 4, LIMITS, false, &config(), 0);
    assert_eq!((s.distress_counter, s.low_counter), (0, 0));
}

#[test]
fn rest_counts_with_a_loan_or_spare_vcpus() {
    let mut s = VMState::new(2);
    s.tick(load(0.40), 1, LIMITS, true, &config(), 0);
    assert_eq!(s.low_counter, 1);
    s.tick(load(0.40), 2, LIMITS, false, &config(), 0);
    assert_eq!(s.low_counter, 2);
    s.tick(load(0.40), 1, LIMITS, false, &config(), 0);
    assert_eq!(s.low_counter, 1);
    s.tick(load(0.5), 2, LIMITS, true, &config(), 0);
    s.tick(load(0.5), 2, LIMITS, true, &config(), 0);
    assert_eq!(s.low_counter, 0);
}

#[test]
fn request_lapses_after_the_cooldown() {
    for avg in [0.95, 0.5] {
        let mut s = VMState::new(2);
        s.migration = MigrationStatus::Requested { since: 1_000 };
        assert!(s.migration_requested());
        s.tick(load(avg), 2, LIMITS, false, &config(), 1_100);
        assert!(s.migration_requested());
        s.tick(load(avg), 2, LIMITS, false, &config(), 1_101);
        assert_eq!(s.migration, MigrationStatus::Unasked);
    }
}

#[test]
fn request_of_an_idle_vm_stays() {
    let mut s = VMState::new(2);
    s.migration = MigrationStatus::Requested { since: 0 };
    s.tick(load(0.1), 2, LIMITS, false, &config(), 10_000);
    assert!(s.migration_requested());
    s.migration = MigrationStatus::Confirmed;
    s.tick(load(0.95), 2, LIMITS, false, &config(), 10_000);
    assert_eq!(s.migration, MigrationStatus::Confirmed);
}

#[test]
fn undefined_load_is_neither_distress_nor_rest() {
    let mut s = VMState::new(2);
    s.distress_counter = 2;
    s.low_counter = 2;
    s.tick(Load::Undefined, 2, LIMITS, true, &config(), 0);
    assert_eq!((s.distress_counter, s.low_counter), (0, 1));
}

#[test]
fn measures_over_a_threshold_are_counted() {
    let mut s = VMState::new(4);
    for x in [0.9, 0.89, 0.95, f64::NAN] {
        s.push(x.to_bits(), 10, 4, 10);
    }
    assert_eq!(s.measures_over(load(0.9)), 2);
    assert_eq!(s.measures_over(load(0.0)), 3);
    assert_eq!(s.measures_over(Load::Undefined), 0);
    assert_eq!(VMState::new(4).measures_over(load(0.0)), 0);
}
