use agent_vcpu::config::AppConfig;
use agent_vcpu::cpu_balancer::Balancer;
use agent_vcpu::load::Load;
use agent_vcpu::logger::log_sep;
use agent_vcpu::machine::{Action, Event, Phase, Probe, Purpose, VMMetric};
use agent_vcpu::remarks::Remark;
use agent_vcpu::signals::Urgency;
use agent_vcpu::vm_recognizer::Standing;
use agent_vcpu::vm_state::Limits;
use std::collections::{HashMap, HashSet};

fn load(x: f64) -> Load {
    Load::from_bits(x.to_bits())
}

fn config() -> AppConfig {
    AppConfig {
        profiles: Vec::new(),
        check_interval: 2,
        window_size: 1,
        min_samples_before_action: 1,
        seuil_detresse: load(0.78),
        seuil_donneuse: load(0.52),
        seuil_remboursement: load(0.52 + 0.10),
        duree_avant_action: 2,
        migration_cooldown_seconds: 300,
        distress_before_migration: 4,
        vcpu_change_cooldown_cycles: 1,
    }
}

fn migrate(vmid: u32, ticks: u32) -> Action {
    Action::SendMigrate { vmid, ticks, urgency: Urgency::High }
}

fn lighten(count: usize) -> Action {
    Action::SendLighten { count, urgency: Urgency::High }
}

/// A node that does what it is told, unless a change is to fail.
struct Node {
    now_ms: u64,
    vms: Vec<u32>,
    limits: HashMap<u32, Limits>,
    usage: HashMap<u32, f64>,
    vcpus: HashMap<u32, u32>,
    cores: HashMap<u32, u32>,
    overcommit: bool,
    host_max: u32,
    failing: HashSet<u32>,
    sent: bool,
    late_ms: u64,
    remarks: Vec<Remark>,
    others: HashMap<u32, Standing>,
    silent: HashSet<u32>,
}

impl Node {
    fn new() -> Node {
        Node {
            now_ms: 1_000_000,
            vms: Vec::new(),
            limits: HashMap::new(),
            usage: HashMap::new(),
            vcpus: HashMap::new(),
            cores: HashMap::new(),
            overcommit: false,
            host_max: 0,
            failing: HashSet::new(),
            sent: true,
            late_ms: 0,
            remarks: Vec::new(),
            others: HashMap::new(),
            silent: HashSet::new(),
        }
    }

    fn vm(&mut self, id: u32, usage: f64, vcpus: u32, min: u32, max: u32) {
        self.vms.push(id);
        self.limits.insert(id, Limits { min, max });
        self.usage.insert(id, usage);
        self.vcpus.insert(id, vcpus);
        self.cores.insert(id, 16);
    }

    fn average(measures: Vec<u64>) -> f64 {
        let n = measures.len() as f64;
        measures.into_iter().map(f64::from_bits).sum::<f64>() / n
    }

    /// Runs one cycle and tells what was asked for, up to the rest.
    fn cycle(&mut self, b: &mut Balancer) -> Vec<Action> {
        self.watch(b, &mut Vec::new(), &mut Vec::new())
    }

    /// Runs one cycle and collects what is told of changes and of loans to be made.
    fn watch(
        &mut self,
        b: &mut Balancer,
        told: &mut Vec<String>,
        intents: &mut Vec<String>,
    ) -> Vec<Action> {
        let mut asked = Vec::new();
        self.remarks.clear();
        loop {
            self.remarks.extend(b.distress());
            self.remarks.extend(b.remark());
            let action = b.action();
            if action != Action::Proceed {
                asked.push(action);
            }
            let event = match action {
                Action::ReadClock => {
                    self.now_ms += 2_000;
                    Event::Clock { now_ms: self.now_ms }
                }
                Action::ListVms => Event::Vms { vmids: self.vms.clone() },
                Action::ReadProfile { vmid } => {
                    let standing = match self.limits.get(&vmid) {
                        Some(limits) => Standing::Active { limits: *limits },
                        None => self.others.get(&vmid).copied().unwrap_or(Standing::OptedOut),
                    };
                    Event::Profile { standing }
                }
                Action::Measure => Event::Measures {
                    metrics: b
                        .mesurer_toutes_vms()
                        .into_iter()
                        .filter(|p| !self.silent.contains(&p.vmid))
                        .map(|p| VMMetric {
                            vmid: p.vmid,
                            usage: self.usage[&p.vmid].to_bits(),
                            ts_ms: self.now_ms - self.late_ms,
                            vcpus: p.vcpus(self.vcpus.get(&p.vmid).copied()),
                        })
                        .collect(),
                },
                Action::Average { vmid } => {
                    Event::Average { load: load(Node::average(b.measures(vmid))) }
                }
                Action::Show => Event::Done,
                Action::SetVcpus { vmid, vcpus, .. } => {
                    let done = !self.failing.contains(&vmid);
                    intents.extend(b.intent("95", "10", self.host_max));
                    told.extend(b.outcome(done));
                    if done {
                        self.vcpus.insert(vmid, vcpus);
                    }
                    Event::Applied { done }
                }
                Action::ReadCores { vmid } => Event::Cores { max: self.cores[&vmid] },
                Action::ReadHost => {
                    Event::Host { overcommit: self.overcommit, max: self.host_max }
                }
                Action::SendMigrate { .. } | Action::SendLighten { .. } => {
                    Event::Sent { done: self.sent }
                }
                Action::Rest { .. } => {
                    b.step(Event::Done);
                    return asked;
                }
                Action::Proceed => Event::Done,
            };
            b.step(event);
        }
    }

    fn cycles(&mut self, b: &mut Balancer, n: usize) {
        for _ in 0..n {
            self.cycle(b);
        }
    }
}

fn sets(asked: &[Action]) -> Vec<(u32, u32, Purpose)> {
    asked
        .iter()
        .filter_map(|a| match a {
            Action::SetVcpus { vmid, vcpus, purpose } => Some((*vmid, *vcpus, *purpose)),
            _ => None,
        })
        .collect()
}

/// One VM in distress, one at rest.
fn pair() -> Node {
    let mut n = Node::new();
    n.vm(101, 0.95, 2, 1, 4);
    n.vm(102, 0.10, 3, 1, 4);
    n
}

#[test]
fn starts_with_the_clock() {
    let b = Balancer::new(config());
    assert_eq!(b.action(), Action::ReadClock);
    assert_eq!(b.cycle(), 0);
    assert_eq!(b.phase(), Phase::Clock);
    assert_eq!(b.samples(), 0);
    assert!(b.mesurer_toutes_vms().is_empty());
    assert!(b.averaged().is_empty());
}

#[test]
fn empty_node_is_tried_again_after_five_seconds() {
    let mut b = Balancer::new(config());
    let asked = Node::new().cycle(&mut b);
    assert_eq!(
        asked,
        vec![Action::ReadClock, Action::ListVms, Action::Rest { seconds: 5 }]
    );
    assert_eq!(b.cycle(), 1);
}

#[test]
fn node_without_profiles_rests() {
    let mut n = pair();
    n.limits.clear();
    let mut b = Balancer::new(config());
    let asked = n.cycle(&mut b);
    assert_eq!(asked.last(), Some(&Action::Rest { seconds: 2 }));
    assert!(!asked.contains(&Action::Measure));
}

#[test]
fn other_events_change_nothing() {
    let mut b = Balancer::new(config());
    b.step(Event::Done);
    assert_eq!(b.action(), Action::ReadClock);
    b.step(Event::Clock { now_ms: 5 });
    b.step(Event::Applied { done: true });
    assert_eq!(b.action(), Action::ListVms);
    assert_eq!(b.cycle(), 1);
}

#[test]
fn donor_lends_after_two_cycles() {
    let mut n = pair();
    let mut b = Balancer::new(config());
    assert!(sets(&n.cycle(&mut b)).is_empty());
    assert_eq!(
        sets(&n.cycle(&mut b)),
        vec![(102, 2, Purpose::LendDonor), (101, 3, Purpose::LendBorrower)]
    );
    assert_eq!(n.vcpus[&101] + n.vcpus[&102], 5);
}

#[test]
fn changed_vms_are_not_measured_in_the_next_cycle() {
    let mut n = pair();
    let mut b = Balancer::new(config());
    n.cycles(&mut b, 2);
    let asked = n.cycle(&mut b);
    assert!(asked.contains(&Action::Measure));
    assert!(!asked.contains(&Action::Show));
    assert_eq!(asked.last(), Some(&Action::Rest { seconds: 2 }));
    let asked = n.cycle(&mut b);
    assert!(asked.contains(&Action::Show));
}

#[test]
fn longer_cooldown_leaves_out_more_cycles() {
    let mut n = pair();
    let mut b = Balancer::new(AppConfig { vcpu_change_cooldown_cycles: 4, ..config() });
    n.cycles(&mut b, 2);
    for _ in 0..4 {
        assert!(!n.cycle(&mut b).contains(&Action::Show));
    }
    assert!(n.cycle(&mut b).contains(&Action::Show));
}

#[test]
fn loan_is_paid_back_and_undone() {
    let mut n = pair();
    let mut b = Balancer::new(config());
    n.cycles(&mut b, 3);
    n.usage.insert(101, 0.10);
    assert_eq!(
        sets(&n.cycle(&mut b)),
        vec![(101, 2, Purpose::RepayBorrower), (102, 3, Purpose::RepayLender)]
    );
    assert_eq!(n.vcpus[&101], 2);
    assert_eq!(n.vcpus[&102], 3);
    n.cycles(&mut b, 1);
    assert!(sets(&n.cycle(&mut b)).is_empty());
}

#[test]
fn borrower_does_not_borrow_again() {
    let mut n = pair();
    let mut b = Balancer::new(AppConfig { distress_before_migration: 100, ..config() });
    n.cycles(&mut b, 2);
    for _ in 0..6 {
        assert!(sets(&n.cycle(&mut b)).is_empty());
    }
}

#[test]
fn failed_donor_leaves_no_trace() {
    let mut n = pair();
    n.failing.insert(102);
    let mut b = Balancer::new(config());
    n.cycles(&mut b, 1);
    assert_eq!(sets(&n.cycle(&mut b)), vec![(102, 2, Purpose::LendDonor)]);
    assert_eq!(sets(&n.cycle(&mut b)), vec![(102, 2, Purpose::LendDonor)]);
}

#[test]
fn failed_borrower_is_undone() {
    let mut n = pair();
    n.failing.insert(101);
    let mut b = Balancer::new(config());
    n.cycles(&mut b, 1);
    assert_eq!(
        sets(&n.cycle(&mut b)),
        vec![
            (102, 2, Purpose::LendDonor),
            (101, 3, Purpose::LendBorrower),
            (102, 3, Purpose::LendUndo)
        ]
    );
    assert_eq!(n.vcpus[&102], 3);
    n.failing.clear();
    assert_eq!(
        sets(&n.cycle(&mut b)),
        vec![(102, 2, Purpose::LendDonor), (101, 3, Purpose::LendBorrower)]
    );
}

#[test]
fn donor_keeps_its_least() {
    let mut n = Node::new();
    n.vm(101, 0.95, 2, 1, 4);
    n.vm(102, 0.10, 2, 2, 4);
    let mut b = Balancer::new(config());
    n.cycles(&mut b, 1);
    let asked = n.cycle(&mut b);
    assert!(sets(&asked).is_empty());
    assert!(asked.contains(&Action::ReadHost));
}

#[test]
fn borrower_stays_within_its_most_and_its_hardware() {
    let mut n = pair();
    n.limits.insert(101, Limits { min: 1, max: 2 });
    let mut b = Balancer::new(config());
    n.cycles(&mut b, 2);
    assert!(sets(&n.cycle(&mut b)).is_empty());

    let mut n = pair();
    n.cores.insert(101, 2);
    let mut b = Balancer::new(config());
    n.cycles(&mut b, 2);
    assert!(sets(&n.cycle(&mut b)).is_empty());
}

#[test]
fn highest_load_borrows_first_from_the_lowest() {
    let mut n = Node::new();
    n.vm(101, 0.90, 2, 1, 4);
    n.vm(102, 0.99, 2, 1, 4);
    n.vm(103, 0.15, 3, 1, 4);
    n.vm(104, 0.05, 3, 1, 4);
    let mut b = Balancer::new(config());
    n.cycles(&mut b, 1);
    assert_eq!(
        sets(&n.cycle(&mut b)),
        vec![
            (104, 2, Purpose::LendDonor),
            (102, 3, Purpose::LendBorrower),
            (103, 2, Purpose::LendDonor),
            (101, 3, Purpose::LendBorrower)
        ]
    );
}

#[test]
fn equal_loads_go_by_number() {
    let mut n = Node::new();
    n.vm(104, 0.05, 3, 1, 4);
    n.vm(103, 0.05, 3, 1, 4);
    n.vm(102, 0.99, 2, 1, 4);
    n.vm(101, 0.99, 2, 1, 4);
    let mut b = Balancer::new(config());
    n.cycles(&mut b, 1);
    assert_eq!(
        sets(&n.cycle(&mut b)),
        vec![
            (103, 2, Purpose::LendDonor),
            (101, 3, Purpose::LendBorrower),
            (104, 2, Purpose::LendDonor),
            (102, 3, Purpose::LendBorrower)
        ]
    );
}

#[test]
fn host_lends_below_its_bound_only() {
    let mut n = Node::new();
    n.vm(101, 0.95, 2, 1, 4);
    n.overcommit = true;
    n.host_max = 2;
    let mut b = Balancer::new(config());
    n.cycles(&mut b, 1);
    assert!(sets(&n.cycle(&mut b)).is_empty());
    n.host_max = 3;
    assert_eq!(sets(&n.cycle(&mut b)), vec![(101, 3, Purpose::LendHost)]);

    let mut n = Node::new();
    n.vm(101, 0.95, 2, 1, 4);
    n.host_max = 100;
    let mut b = Balancer::new(config());
    n.cycles(&mut b, 1);
    assert!(sets(&n.cycle(&mut b)).is_empty());
}

#[test]
fn host_gets_back_without_a_lender() {
    let mut n = Node::new();
    n.vm(101, 0.95, 2, 1, 4);
    n.overcommit = true;
    n.host_max = 8;
    let mut b = Balancer::new(config());
    n.cycles(&mut b, 3);
    n.usage.insert(101, 0.10);
    assert_eq!(sets(&n.cycle(&mut b)), vec![(101, 2, Purpose::RepayBorrower)]);
}

#[test]
fn failed_host_loan_is_tried_again() {
    let mut n = Node::new();
    n.vm(101, 0.95, 2, 1, 4);
    n.overcommit = true;
    n.host_max = 8;
    n.failing.insert(101);
    let mut b = Balancer::new(config());
    n.cycles(&mut b, 2);
    n.failing.clear();
    assert_eq!(sets(&n.cycle(&mut b)), vec![(101, 3, Purpose::LendHost)]);
}

#[test]
fn lender_that_is_gone_gets_nothing_back() {
    let mut n = pair();
    let mut b = Balancer::new(config());
    n.cycles(&mut b, 2);
    n.vms.retain(|id| *id != 102);
    n.usage.insert(101, 0.10);
    n.cycles(&mut b, 1);
    assert_eq!(sets(&n.cycle(&mut b)), vec![(101, 2, Purpose::RepayBorrower)]);
}

#[test]
fn lender_at_its_most_gets_nothing_back() {
    let mut n = pair();
    let mut b = Balancer::new(config());
    n.cycles(&mut b, 2);
    n.limits.insert(102, Limits { min: 1, max: 2 });
    n.usage.insert(101, 0.10);
    n.cycles(&mut b, 1);
    assert_eq!(sets(&n.cycle(&mut b)), vec![(101, 2, Purpose::RepayBorrower)]);
    assert!(n.remarks.is_empty());
}

#[test]
fn lender_below_its_least_gets_nothing_back() {
    let mut n = pair();
    let mut b = Balancer::new(config());
    n.cycles(&mut b, 2);
    n.limits.insert(102, Limits { min: 5, max: 8 });
    n.usage.insert(101, 0.10);
    n.cycles(&mut b, 1);
    assert_eq!(sets(&n.cycle(&mut b)), vec![(101, 2, Purpose::RepayBorrower)]);
}

#[test]
fn lender_that_opted_out_is_not_touched() {
    let mut n = pair();
    let mut b = Balancer::new(config());
    n.cycles(&mut b, 2);
    n.limits.remove(&102);
    n.usage.insert(101, 0.10);
    n.cycles(&mut b, 1);
    assert_eq!(sets(&n.cycle(&mut b)), vec![(101, 2, Purpose::RepayBorrower)]);
    assert_eq!(n.remarks, vec![Remark::CreditorOut { lender: 102, nb: 1 }]);
}

#[test]
fn lender_without_a_profile_is_paid_back() {
    let mut n = pair();
    let mut b = Balancer::new(config());
    n.cycles(&mut b, 2);
    n.limits.remove(&102);
    n.others.insert(102, Standing::NoProfile);
    n.usage.insert(101, 0.10);
    n.cycles(&mut b, 1);
    assert_eq!(
        sets(&n.cycle(&mut b)),
        vec![(101, 2, Purpose::RepayBorrower), (102, 3, Purpose::RepayLender)]
    );
}

#[test]
fn lender_without_a_profile_gets_an_early_return() {
    for standing in [Standing::NoProfile, Standing::Unread] {
        let mut n = pair();
        n.vm(103, 0.60, 2, 1, 4);
        let mut b = Balancer::new(config());
        n.cycles(&mut b, 2);
        n.limits.remove(&102);
        n.others.insert(102, standing);
        n.vms = vec![102, 103];
        assert_eq!(
            sets(&n.cycle(&mut b)),
            vec![(101, 2, Purpose::ReturnBorrower), (102, 3, Purpose::ReturnLender)]
        );
    }
}

#[test]
fn vm_that_opted_out_stays_so_while_it_cannot_be_read() {
    let mut n = pair();
    n.vm(103, 0.60, 2, 1, 4);
    let mut b = Balancer::new(config());
    n.cycles(&mut b, 2);
    n.limits.remove(&102);
    n.others.insert(102, Standing::OptedOut);
    n.cycles(&mut b, 1);
    n.others.insert(102, Standing::Unread);
    n.vms = vec![102, 103];
    assert_eq!(sets(&n.cycle(&mut b)), vec![(101, 2, Purpose::ReturnBorrower)]);
}

#[test]
fn unmeasured_vm_counts_as_fully_loaded() {
    for (threshold, lends) in [(0.99, false), (1.0, true)] {
        let mut n = pair();
        let mut b = Balancer::new(AppConfig { seuil_donneuse: load(threshold), ..config() });
        n.cycles(&mut b, 1);
        n.silent.insert(102);
        let asked = n.cycle(&mut b);
        if lends {
            assert_eq!(
                sets(&asked),
                vec![(102, 2, Purpose::LendDonor), (101, 3, Purpose::LendBorrower)]
            );
        } else {
            assert!(sets(&asked).is_empty());
            assert!(asked.contains(&Action::ReadHost));
        }
    }
}

#[test]
fn measured_donor_comes_before_an_unmeasured_one() {
    let mut n = pair();
    n.vm(103, 0.15, 3, 1, 4);
    let mut b = Balancer::new(AppConfig { seuil_donneuse: load(1.0), ..config() });
    n.cycles(&mut b, 1);
    n.silent.insert(102);
    assert_eq!(
        sets(&n.cycle(&mut b)),
        vec![(103, 2, Purpose::LendDonor), (101, 3, Purpose::LendBorrower)]
    );
}

#[test]
fn outcomes_are_put_into_words() {
    let mut n = pair();
    let mut b = Balancer::new(config());
    n.cycles(&mut b, 1);
    assert!(b.outcome(true).is_none());
    let mut told = Vec::new();
    let mut intents = Vec::new();
    for cycle in 0..3 {
        if cycle == 1 {
            n.usage.insert(101, 0.10);
        }
        n.watch(&mut b, &mut told, &mut intents);
    }
    assert_eq!(
        told,
        vec![
            "✅ PRÊT OK : VM 102 → 2 vCPUs | VM 101 → 3 vCPUs | cible retour: 2 vCPUs",
            "↩️  RETOUR OK : VM 101 3 → 2 vCPUs → VM 102 | reste: 0",
        ]
    );
    assert_eq!(
        intents,
        vec!["🔄 PRÊT : VM 102 (10%, 3 vCPUs) → VM 101 (95%, 2 vCPUs)"]
    );
}

#[test]
fn failures_and_host_loans_are_put_into_words() {
    let mut n = pair();
    n.failing.insert(101);
    let mut b = Balancer::new(config());
    n.cycles(&mut b, 1);
    let (mut told, mut intents) = (Vec::new(), Vec::new());
    n.watch(&mut b, &mut told, &mut intents);
    assert_eq!(told, vec!["❌ Échec prêt VM 102 → VM 101"]);

    let mut n = Node::new();
    n.vm(101, 0.95, 2, 1, 4);
    n.overcommit = true;
    n.host_max = 8;
    let mut b = Balancer::new(config());
    n.cycles(&mut b, 1);
    let (mut told, mut intents) = (Vec::new(), Vec::new());
    n.watch(&mut b, &mut told, &mut intents);
    n.cycles(&mut b, 1);
    n.usage.insert(101, 0.10);
    n.watch(&mut b, &mut told, &mut intents);
    assert_eq!(intents, vec!["🔄 PRÊT HÔTE : VM 101 (95%) 2 → 3 vCPUs [3/8]"]);
    assert_eq!(
        told,
        vec![
            "✅ PRÊT HÔTE OK : VM 101 → 3 vCPUs | cible retour: 2 vCPUs",
            "↩️  RETOUR HÔTE : VM 101 3 → 2 vCPUs | reste: 0",
        ]
    );
}

#[test]
fn early_returns_are_put_into_words() {
    let mut n = pair();
    let mut b = Balancer::new(config());
    n.cycles(&mut b, 2);
    n.vms.retain(|id| *id != 101);
    let (mut told, mut intents) = (Vec::new(), Vec::new());
    n.watch(&mut b, &mut told, &mut intents);
    assert_eq!(
        told,
        vec![
            "↩️  RETOUR ANTICIPÉ : VM 101 → 2 vCPUs (état initial)",
            "↩️  RETOUR ANTICIPÉ : 1 vCPU(s) rendus à VM 102 (migration VM 101)",
        ]
    );
}

#[test]
fn failed_repayments_are_put_into_words() {
    let mut n = pair();
    let mut b = Balancer::new(config());
    n.cycles(&mut b, 3);
    n.usage.insert(101, 0.10);
    n.failing.insert(101);
    let (mut told, mut intents) = (Vec::new(), Vec::new());
    n.watch(&mut b, &mut told, &mut intents);
    assert_eq!(told, vec!["❌ Échec retour VM 101"]);
    let mut n = pair();
    let mut b = Balancer::new(config());
    n.cycles(&mut b, 3);
    n.usage.insert(101, 0.10);
    n.failing.insert(102);
    told.clear();
    n.watch(&mut b, &mut told, &mut intents);
    assert_eq!(
        told,
        vec![
            "↩️  RETOUR OK : VM 101 3 → 2 vCPUs → VM 102 | reste: 0",
            "⚠️  Retour partiel VM 101 : emprunteuse OK mais créancière KO",
        ]
    );
}

#[test]
fn short_cycles_are_explained() {
    let mut n = Node::new();
    let mut b = Balancer::new(config());
    n.cycle(&mut b);
    assert_eq!(n.remarks, vec![Remark::NoVms]);
    let mut n = pair();
    n.limits.clear();
    n.cycle(&mut b);
    assert_eq!(n.remarks, vec![Remark::NoProfiles]);
    let mut n = pair();
    n.late_ms = 1;
    let mut b = Balancer::new(config());
    n.cycle(&mut b);
    assert_eq!(
        n.remarks.last(),
        Some(&Remark::Accumulating { cycle: 1, samples: 0, min: 1 })
    );
}

#[test]
fn remarks_are_put_into_words() {
    let words = [
        (Remark::Vanished { vmid: 1 }, "🔍 VM 1 disparue — retour anticipé des prêts"),
        (
            Remark::CreditorAbsent { lender: 1, nb: 2 },
            "⚠️  Créancier VM 1 absent — 2 vCPU(s) libérés sans retour",
        ),
        (
            Remark::LenderAbsent { lender: 1 },
            "⚠️  Créancier VM 1 absent — vCPU libéré sans retour",
        ),
        (
            Remark::CreditorOut { lender: 1, nb: 2 },
            "⚠️  Créancier VM 1 hors équilibrage — 2 vCPU(s) libérés sans retour",
        ),
        (
            Remark::CreditorLow { lender: 1, min: 3, nb: 2 },
            "⚠️  VM 1 sous son min (3) — 2 vCPU(s) libérés sans retour",
        ),
        (
            Remark::CreditorFull { lender: 1, max: 3, nb: 2 },
            "⚠️  VM 1 au max (3) — 2 vCPU(s) libérés sans retour",
        ),
        (
            Remark::Stale { ts_ms: 1, start_ms: 2 },
            "⚠️  Mesure rejetée (ts=1ms < cycle_start=2ms)",
        ),
        (
            Remark::Annulled { vmid: 1 },
            "🔄 VM 1 : migration annulée (revenue à la normale, cooldown expiré)",
        ),
        (
            Remark::BackToInitial { vmid: 1, vcpus: 2 },
            "✅ VM 1 revenue à son état initial (2 vCPUs)",
        ),
        (Remark::Together { count: 2 }, "⚠️  2 VMs en détresse simultanée"),
        (
            Remark::AtCeiling { vmid: 1, vcpus: 2 },
            "⚠️  VM 1 au plafond (2 vCPUs) — aucune action locale",
        ),
        (Remark::NoVms, "⚠️  Aucune VM, retry dans 5s..."),
        (Remark::NoProfiles, "⚠️ Aucune VM éligible (profils introuvables)"),
        (
            Remark::Accumulating { cycle: 3, samples: 1, min: 2 },
            "⏳ Cycle 3 — accumulation des mesures (1/2 min)",
        ),
    ];
    for (remark, text) in words {
        assert_eq!(remark.text(), text);
    }
}

#[test]
fn borrower_that_opted_out_is_not_touched() {
    let mut n = pair();
    let mut b = Balancer::new(config());
    n.cycles(&mut b, 2);
    n.limits.remove(&101);
    n.usage.insert(101, 0.10);
    for _ in 0..6 {
        assert!(sets(&n.cycle(&mut b)).iter().all(|(id, _, _)| *id != 101));
    }
}

#[test]
fn lender_whose_count_is_unknown_is_not_touched() {
    let mut n = pair();
    n.limits.insert(102, Limits { min: 2, max: 8 });
    n.vm(103, 0.60, 2, 1, 4);
    let mut b = Balancer::new(config());
    n.cycles(&mut b, 2);
    assert_eq!(n.vcpus[&102], 2);
    n.vms = vec![101, 103];
    n.cycles(&mut b, 1);
    n.vms = vec![102, 103];
    assert_eq!(sets(&n.cycle(&mut b)), vec![(101, 2, Purpose::ReturnBorrower)]);
    assert_eq!(
        n.remarks,
        vec![
            Remark::Vanished { vmid: 101 },
            Remark::CreditorOut { lender: 102, nb: 1 }
        ]
    );
}

#[test]
fn one_peak_does_not_make_a_borrower_where_two_are_asked_for() {
    let mut n = pair();
    let mut b = Balancer::new(AppConfig {
        window_size: 2,
        min_samples_before_action: 2,
        duree_avant_action: 1,
        ..config()
    });
    n.usage.insert(101, 0.60);
    n.cycle(&mut b);
    n.usage.insert(101, 1.0);
    let asked = n.cycle(&mut b);
    assert!(asked.contains(&Action::Show));
    assert!(sets(&asked).is_empty());
    assert_eq!(
        sets(&n.cycle(&mut b)),
        vec![(102, 2, Purpose::LendDonor), (101, 3, Purpose::LendBorrower)]
    );
}

#[test]
fn next_cycle_is_left_out_whatever_the_cooldown() {
    for (cooldown, left_out) in [(0, 1), (1, 1), (2, 2), (5, 5)] {
        let mut n = pair();
        let mut b = Balancer::new(AppConfig { vcpu_change_cooldown_cycles: cooldown, ..config() });
        n.cycles(&mut b, 2);
        for _ in 0..left_out {
            assert!(!n.cycle(&mut b).contains(&Action::Show));
        }
        assert!(n.cycle(&mut b).contains(&Action::Show));
    }
}

#[test]
fn cooling_vm_does_not_lend() {
    let mut n = pair();
    let mut b = Balancer::new(AppConfig {
        vcpu_change_cooldown_cycles: 5,
        seuil_donneuse: load(2.0),
        duree_avant_action: 0,
        ..config()
    });
    assert_eq!(
        sets(&n.cycle(&mut b)),
        vec![(102, 2, Purpose::LendDonor), (101, 3, Purpose::LendBorrower)]
    );
    n.vm(103, 0.99, 2, 1, 4);
    for _ in 0..5 {
        assert!(sets(&n.cycle(&mut b)).iter().all(|(_, _, p)| *p != Purpose::LendDonor));
    }
}

#[test]
fn measures_out_of_turn_do_not_count() {
    let mut n = pair();
    let mut b = Balancer::new(config());
    n.cycles(&mut b, 2);
    b.step(Event::Clock { now_ms: n.now_ms + 2_000 });
    b.step(Event::Vms { vmids: vec![101, 102] });
    b.step(Event::Profile { standing: Standing::Active { limits: Limits { min: 1, max: 4 } } });
    b.step(Event::Profile { standing: Standing::Active { limits: Limits { min: 1, max: 4 } } });
    while b.action() == Action::Proceed {
        b.step(Event::Done);
    }
    assert!(b.mesurer_toutes_vms().is_empty());
    b.step(Event::Measures {
        metrics: vec![VMMetric { vmid: 101, usage: 0, ts_ms: u64::MAX, vcpus: 9 }],
    });
    while b.action() == Action::Proceed {
        b.step(Event::Done);
    }
    assert_eq!(b.action(), Action::Rest { seconds: 2 });
    assert_eq!(b.measures(101), vec![0.95f64.to_bits()]);
}

#[test]
fn signals_give_their_reasons() {
    assert_eq!(
        migrate(101, 4).reason("95").unwrap(),
        "vm_101_cpu_95pct_no_local_donor_4cycles"
    );
    assert_eq!(
        lighten(2).reason("").unwrap(),
        "cpu_contention_2_vms_persistant_distress"
    );
    assert!(Action::Measure.reason("95").is_none());
}

#[test]
fn remarks_go_with_the_cycle() {
    let mut n = Node::new();
    n.vm(101, 0.95, 2, 1, 4);
    n.vm(102, 0.95, 2, 1, 4);
    let mut b = Balancer::new(AppConfig { migration_cooldown_seconds: 1, ..config() });
    n.cycles(&mut b, 1);
    n.cycle(&mut b);
    assert_eq!(n.remarks, vec![Remark::Together { count: 2 }]);
    assert_eq!(b.total_vcpus(), 4);
    n.cycles(&mut b, 2);
    n.usage.insert(101, 0.70);
    n.late_ms = 1;
    n.cycle(&mut b);
    assert_eq!(
        n.remarks[0],
        Remark::Stale { ts_ms: n.now_ms - 1, start_ms: n.now_ms }
    );
    let mut n2 = Node::new();
    n2.vm(101, 0.95, 2, 1, 4);
    let mut b = Balancer::new(AppConfig { migration_cooldown_seconds: 1, ..config() });
    n2.cycles(&mut b, 4);
    n2.usage.insert(101, 0.70);
    n2.cycle(&mut b);
    assert_eq!(n2.remarks, vec![Remark::Annulled { vmid: 101 }]);
}

#[test]
fn failed_repayment_keeps_the_loan() {
    let mut n = pair();
    let mut b = Balancer::new(config());
    n.cycles(&mut b, 3);
    n.usage.insert(101, 0.10);
    n.failing.insert(101);
    n.failing.insert(102);
    let both = vec![(101, 2, Purpose::RepayBorrower), (102, 3, Purpose::RepayLender)];
    assert_eq!(sets(&n.cycle(&mut b)), both);
    assert_eq!(sets(&n.cycle(&mut b)), both);
    n.failing.clear();
    assert_eq!(sets(&n.cycle(&mut b)), both);
    n.cycles(&mut b, 1);
    assert!(sets(&n.cycle(&mut b)).is_empty());
}

#[test]
fn borrower_that_vanishes_is_settled_and_forgotten() {
    let mut n = pair();
    let mut b = Balancer::new(config());
    n.cycles(&mut b, 2);
    assert_eq!(b.measures(101).len(), 1);
    n.vms.retain(|id| *id != 101);
    assert_eq!(
        sets(&n.cycle(&mut b)),
        vec![(101, 2, Purpose::ReturnBorrower), (102, 3, Purpose::ReturnLender)]
    );
    assert_eq!(n.vcpus[&102], 3);
    assert!(b.measures(101).is_empty());
    assert_eq!(b.measures(102).len(), 1);
    assert!(sets(&n.cycle(&mut b)).is_empty());
}

#[test]
fn lasting_distress_asks_for_migration_once() {
    let mut n = Node::new();
    n.vm(101, 0.95, 2, 1, 4);
    let mut b = Balancer::new(config());
    n.cycles(&mut b, 3);
    let asked = n.cycle(&mut b);
    assert!(asked.contains(&migrate(101, 4)));
    for _ in 0..20 {
        let asked = n.cycle(&mut b);
        assert!(!asked.iter().any(|a| matches!(a, Action::SendMigrate { .. })));
        assert!(!asked.contains(&Action::ReadHost));
    }
}

#[test]
fn migration_is_asked_for_again_after_the_cooldown() {
    let mut n = Node::new();
    n.vm(101, 0.95, 2, 1, 4);
    let mut b = Balancer::new(AppConfig { migration_cooldown_seconds: 9, ..config() });
    n.cycles(&mut b, 4);
    for _ in 0..4 {
        assert!(!n.cycle(&mut b).iter().any(|a| matches!(a, Action::SendMigrate { .. })));
    }
    assert!(n.cycle(&mut b).contains(&migrate(101, 5)));
}

#[test]
fn failed_signal_is_sent_again() {
    let mut n = Node::new();
    n.vm(101, 0.95, 2, 1, 4);
    n.sent = false;
    let mut b = Balancer::new(config());
    n.cycles(&mut b, 3);
    assert!(n.cycle(&mut b).contains(&migrate(101, 4)));
    assert!(n.cycle(&mut b).contains(&migrate(101, 5)));
}

#[test]
fn loans_are_returned_before_migration() {
    let mut n = pair();
    let mut b = Balancer::new(config());
    n.cycles(&mut b, 6);
    let asked = n.cycle(&mut b);
    let at = |a: Action| asked.iter().position(|x| *x == a).unwrap();
    let own = at(Action::SetVcpus { vmid: 101, vcpus: 2, purpose: Purpose::ReturnBorrower });
    let other = at(Action::SetVcpus { vmid: 102, vcpus: 3, purpose: Purpose::ReturnLender });
    let signal = at(migrate(101, 4));
    assert!(own < other);
    assert!(other < signal);
}

#[test]
fn two_vms_in_lasting_distress_lighten_the_node() {
    let mut n = Node::new();
    n.vm(101, 0.95, 2, 1, 4);
    n.vm(102, 0.95, 2, 1, 4);
    let mut b = Balancer::new(config());
    n.cycles(&mut b, 3);
    let asked = n.cycle(&mut b);
    assert!(asked.contains(&migrate(101, 4)));
    assert!(asked.contains(&migrate(102, 4)));
    assert!(!asked.contains(&lighten(2)));
    n.cycles(&mut b, 3);
    assert!(n.cycle(&mut b).contains(&lighten(2)));
}

#[test]
fn one_vm_in_lasting_distress_does_not() {
    let mut n = Node::new();
    n.vm(101, 0.95, 2, 1, 4);
    let mut b = Balancer::new(config());
    for _ in 0..12 {
        let asked = n.cycle(&mut b);
        assert!(!asked.iter().any(|a| matches!(a, Action::SendLighten { .. })));
    }
}

#[test]
fn stale_measures_do_not_count() {
    let mut n = pair();
    n.late_ms = 1;
    let mut b = Balancer::new(config());
    let asked = n.cycle(&mut b);
    assert!(asked.contains(&Action::Measure));
    assert!(!asked.contains(&Action::Show));
    assert!(b.measures(101).is_empty());
}

#[test]
fn averages_wait_for_enough_measures() {
    let mut n = pair();
    let mut b = Balancer::new(AppConfig {
        window_size: 3,
        min_samples_before_action: 2,
        ..config()
    });
    assert!(!n.cycle(&mut b).contains(&Action::Show));
    assert_eq!(b.samples(), 1);
    assert!(n.cycle(&mut b).contains(&Action::Show));
    assert_eq!(b.samples(), 2);
}

#[test]
fn measures_of_strangers_are_left_out() {
    let mut b = Balancer::new(config());
    b.step(Event::Clock { now_ms: 1_000 });
    b.step(Event::Vms { vmids: vec![7] });
    b.step(Event::Profile { standing: Standing::Active { limits: Limits { min: 1, max: 2 } } });
    while b.action() == Action::Proceed {
        b.step(Event::Done);
    }
    assert_eq!(b.action(), Action::Measure);
    assert_eq!(b.mesurer_toutes_vms(), vec![Probe { vmid: 7, known: None, min: 1 }]);
    b.step(Event::Measures {
        metrics: vec![VMMetric { vmid: 8, usage: 0, ts_ms: 2_000, vcpus: 1 }],
    });
    while b.action() == Action::Proceed {
        b.step(Event::Done);
    }
    assert_eq!(b.action(), Action::Rest { seconds: 2 });
    assert!(b.measures(8).is_empty());
}

#[test]
fn probe_falls_back_to_the_least() {
    let fresh = Probe { vmid: 7, known: None, min: 3 };
    assert_eq!(fresh.vcpus(Some(5)), 5);
    assert_eq!(fresh.vcpus(None), 3);
    let known = Probe { vmid: 7, known: Some(4), min: 3 };
    assert_eq!(known.vcpus(Some(5)), 4);
}

#[test]
fn lines_show_the_state_of_each_vm() {
    let mut n = pair();
    let mut b = Balancer::new(config());
    n.cycles(&mut b, 4);
    let ids = b.averaged();
    assert_eq!(ids, vec![101, 102]);
    assert_eq!(
        b.line(101, " 95.0").unwrap(),
        "🔴 DÉTRESSE VM 101 | CPU= 95.0% | vCPUs=3 [min=1 max=4] [doit rendre 1 (1×VM102) | cible: 2 vCPUs] | détresse 1c"
    );
    assert_eq!(
        b.line(102, " 10.0").unwrap(),
        "🟢 REPOS    VM 102 | CPU= 10.0% | vCPUs=2 [min=1 max=4] | repos 2c"
    );
    assert!(b.line(103, "  0.0").is_none());
    let lines = b.log_etat(&vec![" 95.0".to_string(), " 10.0".to_string()]);
    assert_eq!(lines.len(), 3);
    assert_eq!(lines[0], b.line(101, " 95.0").unwrap());
    assert_eq!(lines[1], b.line(102, " 10.0").unwrap());
    assert_eq!(lines[2], log_sep());
}
