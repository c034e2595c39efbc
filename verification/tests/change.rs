use agent_vcpu::proxmox::command_output;
use agent_vcpu::vcpu_change::{set_vm_vcpus, ChangeAction, ChangePhase};

#[test]
fn plain_change_takes_three_commands() {
    let c = set_vm_vcpus(101, 3);
    assert_eq!(c.action(), ChangeAction::ReadConfig);
    let c = c.step(Some(r#"{"cores":4}"#));
    assert_eq!(c.action(), ChangeAction::ReadConfig);
    let c = c.step(Some(r#"{"cores":4}"#));
    assert_eq!(c.action(), ChangeAction::QmSet { vcpus: 3 });
    let c = c.step(Some(""));
    assert_eq!(c.action(), ChangeAction::Stop { done: true });
    assert_eq!(c.step(None), c);
}

#[test]
fn failed_command_is_told() {
    let c = set_vm_vcpus(101, 1).step(None).step(None);
    assert_eq!(c.action(), ChangeAction::QmSet { vcpus: 1 });
    assert_eq!(c.step(None).action(), ChangeAction::Stop { done: false });
}

#[test]
fn more_than_the_hardware_is_refused() {
    let c = set_vm_vcpus(101, 9).step(Some(r#"{"cores":4,"sockets":2}"#));
    assert_eq!(c.phase, ChangePhase::TooMany { max: 8 });
    assert_eq!(c.notice().unwrap(), "❌ set_vm_vcpus VM 101 : 9 > cores_max 8 — ignoré");
    assert_eq!(c.action(), ChangeAction::Stop { done: false });
    let c = set_vm_vcpus(101, 8).step(Some(r#"{"cores":4,"sockets":2}"#));
    assert_eq!(c.phase, ChangePhase::Config);
}

#[test]
fn unreadable_configuration_allows_one() {
    let c = set_vm_vcpus(101, 2).step(Some("not json"));
    assert_eq!(c.phase, ChangePhase::TooMany { max: 1 });
}

#[test]
fn nothing_is_refused() {
    let c = set_vm_vcpus(101, 0).step(Some(r#"{"cores":4}"#));
    assert_eq!(c.phase, ChangePhase::Zero);
    assert_eq!(c.notice().unwrap(), "❌ set_vm_vcpus VM 101 : vcpus=0 invalide — ignoré");
    assert_eq!(c.action(), ChangeAction::Stop { done: false });
}

#[test]
fn configured_vcpus_are_brought_in_line_first() {
    let cfg = r#"{"cores":4,"vcpus":2}"#;
    let c = set_vm_vcpus(101, 3).step(Some(cfg)).step(Some(cfg));
    assert_eq!(c.action(), ChangeAction::ReadStatus);
    let c = c.step(Some(r#"{"cpus":1}"#));
    assert_eq!(c.phase, ChangePhase::Resync { config: 2, running: 1 });
    assert_eq!(
        c.notice().unwrap(),
        "🔧 VM 101 désynchronisée (config=2 QEMU=1) — resync avant set"
    );
    assert_eq!(c.action(), ChangeAction::QmSet { vcpus: 1 });
    let c = c.step(None);
    assert_eq!(c.action(), ChangeAction::QmSet { vcpus: 3 });
}

#[test]
fn configuration_in_line_is_left_alone() {
    let cfg = r#"{"cores":4,"vcpus":2}"#;
    let c = set_vm_vcpus(101, 3).step(Some(cfg)).step(Some(cfg));
    for status in [r#"{"cpus":2}"#, r#"{"cpus":0}"#, "{}", "broken"] {
        assert_eq!(c.step(Some(status)).phase, ChangePhase::Apply);
    }
    assert_eq!(c.step(None).phase, ChangePhase::Apply);
    let c = set_vm_vcpus(101, 2).step(Some(cfg)).step(Some(cfg));
    assert_eq!(c.phase, ChangePhase::Apply);
}

#[test]
fn result_is_what_the_last_command_printed() {
    let cfg = r#"{"cores":4,"sockets":1,"vcpus":2}"#;
    let printed = command_output(true, "ok\n");
    let c = set_vm_vcpus(100, 3);
    assert!(c.result(Some(cfg)).is_none());
    let c = c.step(Some(cfg)).step(Some(cfg));
    let c = c.step(Some(r#"{"status":"running","cpus":4}"#));
    assert_eq!(c.action(), ChangeAction::QmSet { vcpus: 4 });
    assert!(c.result(printed.as_deref()).is_none());
    let c = c.step(printed.as_deref());
    assert_eq!(c.action(), ChangeAction::QmSet { vcpus: 3 });
    assert_eq!(c.result(printed.as_deref()), Some("ok".to_string()));
    assert!(c.result(command_output(false, "ok").as_deref()).is_none());
    let c = c.step(printed.as_deref());
    assert_eq!(c.action(), ChangeAction::Stop { done: true });
    assert!(c.result(printed.as_deref()).is_none());
}
