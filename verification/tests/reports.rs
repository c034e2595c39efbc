use agent_vcpu::proxmox::{
    config_path, current_vcpus, get_all_vms, get_current_vcpus, get_host_cpus, get_iso_filename,
    get_vm_config, get_vm_cores_max, get_vm_name, get_vm_ostype, get_vm_pid, is_running, list_path,
    node_name, read_thread_ticks, status_path, sum_thread_ticks, ticks_between, total_ticks, Ticks,
};

#[test]
fn paths_name_the_node_and_the_vm() {
    assert_eq!(list_path("pve"), "/nodes/pve/qemu");
    assert_eq!(config_path("pve", 101), "/nodes/pve/qemu/101/config");
    assert_eq!(status_path("pve", 101), "/nodes/pve/qemu/101/status/current");
    assert_eq!(node_name(Some(" pve1\n")), "pve1");
    assert_eq!(node_name(None), "localhost");
}

#[test]
fn running_vms_are_listed_in_order() {
    let out = r#"[
        {"vmid": 103, "status": "running"},
        {"vmid": 101, "status": "running", "template": 0},
        {"vmid": 104, "status": "stopped"},
        {"vmid": 105, "status": "running", "template": 1},
        {"vmid": "106", "status": "running"},
        {"status": "running"},
        17,
        {"vmid": 4294967398, "status": "running"}
    ]"#;
    assert_eq!(get_all_vms(Some(out)), vec![101, 102, 103]);
}

#[test]
fn no_list_gives_no_vms() {
    assert!(get_all_vms(None).is_empty());
    assert!(get_all_vms(Some("oops")).is_empty());
    assert!(get_all_vms(Some(r#"{"vmid": 1}"#)).is_empty());
    assert!(get_all_vms(Some("[]")).is_empty());
}

#[test]
fn vcpus_come_from_the_configuration() {
    assert_eq!(get_current_vcpus(Some(r#"{"vcpus":3,"cores":8}"#)), Some(3));
    assert_eq!(get_current_vcpus(Some(r#"{"cores":4,"sockets":2}"#)), Some(8));
    assert_eq!(get_current_vcpus(Some("{}")), Some(1));
    assert_eq!(get_current_vcpus(Some("[1]")), Some(1));
    assert_eq!(get_current_vcpus(Some("{")), None);
    assert_eq!(get_current_vcpus(None), None);
    let cfg = get_vm_config(Some(r#"{"vcpus":"3","cores":5}"#)).unwrap();
    assert_eq!(current_vcpus(&cfg), 5);
}

#[test]
fn ceiling_is_cores_times_sockets() {
    assert_eq!(get_vm_cores_max(Some(r#"{"cores":4,"sockets":2}"#)), 8);
    assert_eq!(get_vm_cores_max(Some(r#"{"sockets":2}"#)), 2);
    assert_eq!(get_vm_cores_max(Some(r#"{"cores":-4}"#)), 1);
    assert_eq!(get_vm_cores_max(Some(r#"{"cores":2.5}"#)), 1);
    assert_eq!(get_vm_cores_max(None), 1);
    assert_eq!(get_vm_cores_max(Some(r#"{"cores":65536,"sockets":65537}"#)), 65536);
}

#[test]
fn texts_come_from_the_configuration() {
    let cfg = r#"{"name":"web","ostype":"l26","ide2":"local:iso/debian-12.iso,media=cdrom"}"#;
    assert_eq!(get_vm_name(Some(cfg)).unwrap(), "web");
    assert_eq!(get_vm_ostype(Some(cfg)).unwrap(), "l26");
    assert_eq!(get_iso_filename(Some(cfg)).unwrap(), "debian-12.iso");
    assert!(get_vm_name(Some(r#"{"name":5}"#)).is_none());
    assert!(get_vm_ostype(None).is_none());
    assert!(get_iso_filename(Some(r#"{"name":"web"}"#)).is_none());
}

#[test]
fn later_of_two_equal_keys_counts() {
    assert_eq!(get_vm_name(Some(r#"{"name":"a","name":"b"}"#)).unwrap(), "b");
}

#[test]
fn pid_stands_behind_its_name() {
    assert_eq!(get_vm_pid(Some("status: running\n  pid: 4242 \nuptime: 5")), Some(4242));
    assert_eq!(get_vm_pid(Some("pid:+7")), Some(7));
    assert_eq!(get_vm_pid(Some("pid: x\npid: 5")), None);
    assert_eq!(get_vm_pid(Some("pid: 4294967296")), None);
    assert_eq!(get_vm_pid(Some("status: stopped")), None);
    assert_eq!(get_vm_pid(None), None);
}

#[test]
fn host_has_one_cpu_at_least() {
    assert_eq!(get_host_cpus(Some("16\n")), 16);
    assert_eq!(get_host_cpus(Some("many")), 1);
    assert_eq!(get_host_cpus(None), 1);
}

#[test]
fn thread_ticks_are_user_and_kernel_time() {
    let stat = "1 (kvm) S 1 1 1 0 -1 0 0 0 0 0 120 30 0 0";
    assert_eq!(read_thread_ticks(stat), Some(150));
    assert_eq!(read_thread_ticks("1 (kvm) S 1 1 1 0 -1 0 0 0 0 0 120"), None);
    assert_eq!(read_thread_ticks("1 (kvm) S 1 1 1 0 -1 0 0 0 0 0 x 30 0 0"), None);
    let stats = vec![stat.to_string(), "short".to_string(), stat.to_string()];
    assert_eq!(sum_thread_ticks(&stats), 300);
}

#[test]
fn machine_ticks_are_summed_on_the_first_line() {
    assert_eq!(total_ticks("cpu  10 20 x 30\ncpu0 1000\n"), Some(60));
    assert_eq!(total_ticks(""), None);
    assert_eq!(total_ticks("\ncpu0 5"), Some(0));
}

#[test]
fn ticks_between_readings() {
    let first = Ticks { process: 10, machine: 100 };
    let passed = ticks_between(first, Ticks { process: 15, machine: 140 }).unwrap();
    assert_eq!((passed.process, passed.machine), (5, 40));
    let passed = ticks_between(first, Ticks { process: 5, machine: 140 }).unwrap();
    assert_eq!((passed.process, passed.machine), (0, 40));
    assert!(ticks_between(first, Ticks { process: 15, machine: 100 }).is_none());
    assert!(ticks_between(first, Ticks { process: 15, machine: 90 }).is_none());
}

#[test]
fn running_is_told_by_the_status() {
    let status = |s: &str| is_running(&get_vm_config(Some(s)).unwrap());
    assert!(status(r#"{"status":"running"}"#));
    assert!(!status(r#"{"status":"stopped"}"#));
    assert!(!status("{}"));
}
