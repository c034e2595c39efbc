use agent_vcpu::clock::Moment;
use agent_vcpu::logger::{log_debug, log_line, log_message, log_sep};
use agent_vcpu::signals::{
    clean_reason, contention_reason, lighten_node_signal, lighten_text, migrate_text,
    migrate_vm_signal, migration_reason, signals_dir, Urgency,
};

const AT: Moment = Moment { secs: 1_700_000_000, nanos: 0, offset: 3_600 };

#[test]
fn urgencies_have_words() {
    assert_eq!(Urgency::Low.as_str(), "low");
    assert_eq!(Urgency::Medium.as_str(), "medium");
    assert_eq!(Urgency::High.as_str(), "high");
    assert_eq!(Urgency::Critical.as_str(), "critical");
}

#[test]
fn migrate_signal_is_written_beside_its_place() {
    let s = migrate_vm_signal(101, "too=busy\nnow", Urgency::High, 1_700_000_000, &AT).unwrap();
    assert_eq!(
        s.final_path,
        "/var/lib/live-migrator/signals/signal_1700000000_migrate_vm.sig"
    );
    assert_eq!(s.tmp_path, format!("{}.tmp", s.final_path));
    assert_eq!(
        s.content,
        "type=MIGRATE_VM\nvmid=101\nsource_agent=vcpu-agent\nreason=too-busy now\nurgency=high\ntimestamp=2023-11-14T23:13:20+01:00\n"
    );
    assert!(s.final_path.starts_with(signals_dir()));
}

#[test]
fn lighten_signal_names_the_resource() {
    let s = lighten_node_signal("r", Urgency::Critical, 7, &AT).unwrap();
    assert_eq!(s.final_path, "/var/lib/live-migrator/signals/signal_7_lighten_node.sig");
    assert_eq!(s.tmp_path, "/var/lib/live-migrator/signals/signal_7_lighten_node.sig.tmp");
    assert_eq!(
        s.content,
        "type=LIGHTEN_NODE\nsource_agent=vcpu-agent\nreason=r\nurgency=critical\nresource=cpu\ntimestamp=2023-11-14T23:13:20+01:00\n"
    );
}

#[test]
fn reason_cannot_add_fields() {
    let reason = "x\nvmid=999\ntype=LIGHTEN_NODE";
    assert_eq!(clean_reason(reason), "x vmid-999 type-LIGHTEN_NODE");
    let text = migrate_text(101, reason, Urgency::Low, "now");
    let lines: Vec<&str> = text.split('\n').collect();
    assert_eq!(
        lines,
        vec![
            "type=MIGRATE_VM",
            "vmid=101",
            "source_agent=vcpu-agent",
            "reason=x vmid-999 type-LIGHTEN_NODE",
            "urgency=low",
            "timestamp=now",
            ""
        ]
    );
    assert_eq!(lighten_text(reason, Urgency::Low, "now").lines().count(), 6);
}

#[test]
fn reasons_are_spelt_out() {
    assert_eq!(
        migration_reason(101, "95", 4),
        "vm_101_cpu_95pct_no_local_donor_4cycles"
    );
    assert_eq!(contention_reason(3), "cpu_contention_3_vms_persistant_distress");
}

#[test]
fn instants_that_cannot_be_written_give_no_signal() {
    let at = Moment { secs: i64::MAX, nanos: 0, offset: 0 };
    assert!(migrate_vm_signal(1, "r", Urgency::Low, 0, &at).is_none());
    assert!(lighten_node_signal("r", Urgency::Low, 0, &at).is_none());
    let at = Moment { secs: 0, nanos: 0, offset: 86_400 };
    assert!(migrate_vm_signal(1, "r", Urgency::Low, 0, &at).is_none());
    assert!(log_message(&at, "m").is_none());
}

#[test]
fn fractions_of_seconds_stand_in_signals_only() {
    let at = Moment { secs: 0, nanos: 500_000_000, offset: -1_800 };
    assert_eq!(at.rfc3339().unwrap(), "1969-12-31T23:30:00.500-00:30");
    assert_eq!(at.log_stamp().unwrap(), "1969-12-31 23:30:00");
}

#[test]
fn log_lines_begin_with_the_time() {
    assert_eq!(log_message(&AT, "hello").unwrap(), "2023-11-14 23:13:20 - hello\n");
    assert_eq!(log_line("now", "hello"), "now - hello\n");
    assert_eq!(log_debug("x"), "[DEBUG] x");
    assert_eq!(log_sep().chars().count(), 49);
}
