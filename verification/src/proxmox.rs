//! What the tools of a Proxmox node report.

use vstd::prelude::*;
use crate::json::{parse_list, parse_record, Record};
#[allow(unused_imports)]
use crate::json::{count_at, list_text, record_text, record_view, text_at, ScalarView};
use crate::text::{begins_with, decimal, parse_u32, parse_u64, same, split_at_char, trim, words};
#[allow(unused_imports)]
use crate::text::{
    cut_at, decimal_of, number_of, opt_string, opt_text, texts, trimmed, words_of,
};
use crate::vm_recognizer::iso_filename;
#[allow(unused_imports)]
use crate::vm_recognizer::iso_in;

verus! {

/// The name of the node in a report.
pub open spec fn node_in(out: Option<Seq<char>>) -> Seq<char> {
    match out {
        Some(s) => trimmed(s),
        None => "localhost"@,
    }
}

/// The name of the node that `hostname -s` reports, `localhost` where it reports none.
pub fn node_name(out: Option<&str>) -> (r: String)
    ensures
        r@ == node_in(opt_text(out)),
        r@ == (match out {
            Some(s) => trimmed(s@),
            None => "localhost"@,
        }),
{
    match out {
        Some(s) => trim(s).to_owned(),
        None => "localhost".to_owned(),
    }
}

/// What a command gives.
pub open spec fn output_of(success: bool, stdout: Seq<char>) -> Option<Seq<char>> {
    if success {
        Some(trimmed(stdout))
    } else {
        None
    }
}

/// What a command of the node gives: what it printed, trimmed, where it succeeded.
pub fn command_output(success: bool, stdout: &str) -> (r: Option<String>)
    ensures
        opt_string(r) == output_of(success, stdout@),
        opt_string(r) == (if success {
            Some(trimmed(stdout@))
        } else {
            None
        }),
{
    if success {
        Some(trim(stdout).to_owned())
    } else {
        None
    }
}

/// The path of the VMs of a node.
pub open spec fn vms_path(node: Seq<char>) -> Seq<char> {
    "/nodes/"@ + node + "/qemu"@
}

/// A path below a VM of a node.
pub open spec fn vm_path(node: Seq<char>, vmid: u32, leaf: Seq<char>) -> Seq<char> {
    "/nodes/"@ + node + "/qemu/"@ + decimal_of(vmid as nat) + leaf
}

/// The path under which the VMs of a node are listed.
pub fn list_path(node: &str) -> (r: String)
    ensures
        r@ == vms_path(node@),
        r@ == "/nodes/"@ + node@ + "/qemu"@,
{
    "/nodes/".to_owned().concat(node).concat("/qemu")
}

/// The path of the configuration of a VM.
pub fn config_path(node: &str, vmid: u32) -> (r: String)
    ensures
        r@ == vm_path(node@, vmid, "/config"@),
        r@ == "/nodes/"@ + node@ + "/qemu/"@ + decimal_of(vmid as nat) + "/config"@,
{
    "/nodes/".to_owned().concat(node).concat("/qemu/").concat(decimal(vmid as u64).as_str()).concat(
        "/config",
    )
}

/// The path of the current status of a VM.
pub fn status_path(node: &str, vmid: u32) -> (r: String)
    ensures
        r@ == vm_path(node@, vmid, "/status/current"@),
        r@ == "/nodes/"@ + node@ + "/qemu/"@ + decimal_of(vmid as nat) + "/status/current"@,
{
    "/nodes/".to_owned().concat(node).concat("/qemu/").concat(decimal(vmid as u64).as_str()).concat(
        "/status/current",
    )
}

/// The low 32 bits of a number.
pub open spec fn low32(n: int) -> u32 {
    (n % 0x1_0000_0000) as u32
}

/// Takes the low 32 bits of a number.
pub fn low_bits(n: u64) -> (r: u32)
    ensures
        r == low32(n as int),
{
    (n % 0x1_0000_0000) as u32
}

/// The id of a VM that runs and is no template.
pub open spec fn running_id(vm: Seq<(Seq<char>, ScalarView)>) -> Option<u32> {
    if (count_at(vm, "template"@) is Some && count_at(vm, "template"@)->0 != 0) || text_at(
        vm,
        "status"@,
    ) != Some("running"@) {
        None
    } else {
        match count_at(vm, "vmid"@) {
            Some(id) => Some(low32(id as int)),
            None => None,
        }
    }
}

/// Takes the id of a running VM.
pub open spec fn running_ids() -> spec_fn(Seq<(Seq<char>, ScalarView)>) -> Option<u32> {
    |vm: Seq<(Seq<char>, ScalarView)>| running_id(vm)
}

/// No number is smaller than one before it.
pub open spec fn ascending(s: Seq<u32>) -> bool {
    forall|i: int, j: int| 0 <= i <= j < s.len() ==> s[i] <= s[j]
}

/// What a list of records holds.
pub open spec fn records_view(v: Seq<Record>) -> Seq<Seq<(Seq<char>, ScalarView)>> {
    v.map_values(|rec: Record| rec@)
}

fn id_of(vm: &Record) -> (r: Option<u32>)
    requires
        vm.wf(),
    ensures
        r == running_id(vm@),
{
    match vm.count("template") {
        Some(n) => {
            if n != 0 {
                return None;
            }
        },
        None => {},
    }
    match vm.text("status") {
        Some(s) => {
            if !same(s, "running") {
                return None;
            }
        },
        None => {
            return None;
        },
    }
    match vm.count("vmid") {
        Some(id) => Some(low_bits(id)),
        None => None,
    }
}

/// Puts a number into an ascending list.
pub fn insert_sorted(v: &mut Vec<u32>, x: u32)
    requires
        ascending(old(v)@),
    ensures
        ascending(final(v)@),
        final(v)@.to_multiset() == old(v)@.to_multiset().insert(x),
{
    let mut i: usize = 0;
    while i < v.len() && v[i] <= x
        invariant
            i <= v@.len(),
            v@ == old(v)@,
            forall|j: int| 0 <= j < i ==> v@[j] <= x,
        decreases v@.len() - i,
    {
        i = i + 1;
    }
    proof {
        vstd::seq_lib::to_multiset_insert(v@, i as int, x);
    }
    assert(i < v@.len() ==> v@[i as int] > x);
    v.insert(i, x);
}

/// The ids of the VMs that run and are no templates, in ascending order.
pub fn running_vms(vms: &Vec<Record>) -> (r: Vec<u32>)
    requires
        forall|i: int| 0 <= i < vms@.len() ==> (#[trigger] vms@[i]).wf(),
    ensures
        ascending(r@),
        r@.to_multiset() == records_view(vms@).filter_map(running_ids()).to_multiset(),
{
    let mut out: Vec<u32> = Vec::new();
    let ghost model = records_view(vms@);
    let mut i: usize = 0;
    proof {
        assert(model.take(0) =~= Seq::empty());
        reveal(Seq::filter_map);
        assert(model.take(0).filter_map(running_ids()) =~= out@);
    }
    while i < vms.len()
        invariant
            i <= vms@.len(),
            model == records_view(vms@),
            forall|k: int| 0 <= k < vms@.len() ==> (#[trigger] vms@[k]).wf(),
            ascending(out@),
            out@.to_multiset() == model.take(i as int).filter_map(running_ids()).to_multiset(),
        decreases vms@.len() - i,
    {
        let id: Option<u32> = id_of(&vms[i]);
        proof {
            model.lemma_filter_map_take_succ(running_ids(), i as int);
            assert(model[i as int] == vms@[i as int]@);
        }
        match id {
            Some(x) => {
                proof {
                    let before = model.take(i as int).filter_map(running_ids());
                    assert(model.take(i + 1).filter_map(running_ids()) =~= before.push(x));
                    vstd::seq_lib::to_multiset_build(before, x);
                }
                insert_sorted(&mut out, x);
            },
            None => {
                proof {
                    assert(model.take(i + 1).filter_map(running_ids()) =~= model.take(
                        i as int,
                    ).filter_map(running_ids()));
                }
            },
        }
        i = i + 1;
    }
    assert(model.take(i as int) =~= model);
    out
}

/// The list of VMs that a report holds; none where there is no report or no list in it.
pub open spec fn listed(out: Option<Seq<char>>) -> Seq<Seq<(Seq<char>, ScalarView)>> {
    match out {
        Some(s) => match list_text(s) {
            Some(l) => l,
            None => Seq::empty(),
        },
        None => Seq::empty(),
    }
}

/// The ids of the VMs that a report of `pvesh` lists as running and that are no templates, in
/// ascending order.
pub fn get_all_vms(out: Option<&str>) -> (r: Vec<u32>)
    ensures
        ascending(r@),
        r@.to_multiset() == listed(opt_text(out)).filter_map(running_ids()).to_multiset(),
{
    let vms: Vec<Record> = match out {
        Some(s) => match parse_list(s) {
            Some(l) => l,
            None => Vec::new(),
        },
        None => Vec::new(),
    };
    assert(records_view(vms@) =~= listed(opt_text(out)));
    running_vms(&vms)
}

/// The configuration that a report holds.
pub open spec fn config_in(out: Option<Seq<char>>) -> Option<Seq<(Seq<char>, ScalarView)>> {
    match out {
        Some(s) => record_text(s),
        None => None,
    }
}

/// The configuration of a VM, from what `pvesh` reports.
pub fn get_vm_config(out: Option<&str>) -> (r: Option<Record>)
    ensures
        record_view(r) == config_in(opt_text(out)),
        r is Some ==> r->0.wf(),
{
    match out {
        Some(s) => parse_record(s),
        None => None,
    }
}

/// A count of the configuration, one where there is none.
pub open spec fn count_or_one(cfg: Seq<(Seq<char>, ScalarView)>, key: Seq<char>) -> u32 {
    match count_at(cfg, key) {
        Some(n) => low32(n as int),
        None => 1,
    }
}

/// The ceiling that the hardware sets: cores times sockets, in 32 bits.
pub open spec fn ceiling(cfg: Seq<(Seq<char>, ScalarView)>) -> u32 {
    low32(count_or_one(cfg, "cores"@) * count_or_one(cfg, "sockets"@))
}

/// The vCPUs of a configuration: those it names, else all that the hardware allows.
pub open spec fn vcpus_in(cfg: Seq<(Seq<char>, ScalarView)>) -> u32 {
    match count_at(cfg, "vcpus"@) {
        Some(n) => low32(n as int),
        None => ceiling(cfg),
    }
}

fn small_count(cfg: &Record, key: &str) -> (r: u32)
    requires
        cfg.wf(),
    ensures
        r == count_or_one(cfg@, key@),
{
    match cfg.count(key) {
        Some(n) => low_bits(n),
        None => 1,
    }
}

/// The ceiling that a VM's hardware sets.
pub fn cores_max(cfg: &Record) -> (r: u32)
    requires
        cfg.wf(),
    ensures
        r == ceiling(cfg@),
{
    let cores: u32 = small_count(cfg, "cores");
    let sockets: u32 = small_count(cfg, "sockets");
    assert(cores * sockets <= 0xffff_ffff * 0xffff_ffff) by (nonlinear_arith)
        requires
            cores <= 0xffff_ffff,
            sockets <= 0xffff_ffff,
    ;
    assert(0 <= cores * sockets) by (nonlinear_arith)
        requires
            cores >= 0,
            sockets >= 0,
    ;
    low_bits(cores as u64 * sockets as u64)
}

/// The vCPUs of a VM.
pub fn current_vcpus(cfg: &Record) -> (r: u32)
    requires
        cfg.wf(),
    ensures
        r == vcpus_in(cfg@),
{
    match cfg.count("vcpus") {
        Some(n) => low_bits(n),
        None => cores_max(cfg),
    }
}

/// The vCPUs that a report tells.
pub open spec fn vcpus_told(out: Option<Seq<char>>) -> Option<u32> {
    match config_in(out) {
        Some(cfg) => Some(vcpus_in(cfg)),
        None => None,
    }
}

/// The ceiling that a report tells.
pub open spec fn ceiling_told(out: Option<Seq<char>>) -> u32 {
    match config_in(out) {
        Some(cfg) => ceiling(cfg),
        None => 1,
    }
}

/// The vCPUs of a VM, from what `pvesh` reports of its configuration.
pub fn get_current_vcpus(out: Option<&str>) -> (r: Option<u32>)
    ensures
        r == vcpus_told(opt_text(out)),
        r == (match config_in(opt_text(out)) {
            Some(cfg) => Some(vcpus_in(cfg)),
            None => None,
        }),
{
    match get_vm_config(out) {
        Some(cfg) => Some(current_vcpus(&cfg)),
        None => None,
    }
}

/// The ceiling that a VM's hardware sets, from what `pvesh` reports; one where it reports none.
pub fn get_vm_cores_max(out: Option<&str>) -> (r: u32)
    ensures
        r == ceiling_told(opt_text(out)),
        r == (match config_in(opt_text(out)) {
            Some(cfg) => ceiling(cfg),
            None => 1,
        }),
{
    match get_vm_config(out) {
        Some(cfg) => cores_max(&cfg),
        None => 1,
    }
}

/// A text of the configuration in a report.
pub open spec fn config_text(out: Option<Seq<char>>, key: Seq<char>) -> Option<Seq<char>> {
    match config_in(out) {
        Some(cfg) => text_at(cfg, key),
        None => None,
    }
}

fn text_of(out: Option<&str>, key: &str) -> (r: Option<String>)
    ensures
        opt_string(r) == config_text(opt_text(out), key@),
{
    match get_vm_config(out) {
        Some(cfg) => match cfg.text(key) {
            Some(s) => Some(s.to_owned()),
            None => None,
        },
        None => None,
    }
}

/// The name of a VM.
pub fn get_vm_name(out: Option<&str>) -> (r: Option<String>)
    ensures
        opt_string(r) == config_text(opt_text(out), "name"@),
{
    text_of(out, "name")
}

/// The operating system of a VM.
pub fn get_vm_ostype(out: Option<&str>) -> (r: Option<String>)
    ensures
        opt_string(r) == config_text(opt_text(out), "ostype"@),
{
    text_of(out, "ostype")
}

/// The ISO file that a report tells.
pub open spec fn iso_told(out: Option<Seq<char>>) -> Option<Seq<char>> {
    match config_in(out) {
        Some(cfg) => iso_in(cfg),
        None => None,
    }
}

/// The name of the ISO file of a VM.
pub fn get_iso_filename(out: Option<&str>) -> (r: Option<String>)
    ensures
        opt_string(r) == iso_told(opt_text(out)),
        opt_string(r) == (match config_in(opt_text(out)) {
            Some(cfg) => iso_in(cfg),
            None => None,
        }),
{
    match get_vm_config(out) {
        Some(cfg) => iso_filename(&cfg),
        None => None,
    }
}

/// The number behind `pid:` on the first line that begins so.
pub open spec fn pid_in(lines: Seq<Seq<char>>) -> Option<nat>
    decreases lines.len(),
{
    if lines.len() == 0 {
        None
    } else if "pid:"@.is_prefix_of(trimmed(lines[0])) {
        number_of(trimmed(trimmed(lines[0]).skip(4)), u32::MAX as nat)
    } else {
        pid_in(lines.drop_first())
    }
}

/// The process of a VM, from what `qm status --verbose` reports.
pub fn get_vm_pid(out: Option<&str>) -> (r: Option<u32>)
    ensures
        match out {
            Some(s) => match r {
                Some(pid) => pid_in(cut_at(s@, '\n')) == Some(pid as nat),
                None => pid_in(cut_at(s@, '\n')) is None,
            },
            None => r is None,
        },
{
    match out {
        Some(s) => {
            let lines: Vec<String> = split_at_char(s, '\n');
            let ghost model = texts(lines@);
            let mut i: usize = 0;
            assert(model.skip(0) =~= model);
            while i < lines.len()
                invariant
                    i <= lines@.len(),
                    model == texts(lines@),
                    model == cut_at(s@, '\n'),
                    out == Some(s),
                    pid_in(model) == pid_in(model.skip(i as int)),
                decreases lines@.len() - i,
            {
                assert(model.skip(i as int)[0] == lines@[i as int]@);
                assert(model.skip(i as int).drop_first() =~= model.skip(i + 1));
                let line: &str = trim(lines[i].as_str());
                if begins_with(line, "pid:") {
                    proof {
                        reveal_strlit("pid:");
                    }
                    let n: usize = line.unicode_len();
                    let rest: &str = line.substring_char(4, n);
                    assert(rest@ =~= line@.skip(4));
                    return parse_u32(trim(rest));
                }
                i = i + 1;
            }
            None
        },
        None => None,
    }
}

/// The number of CPUs that a report tells.
pub open spec fn cpus_told(out: Option<Seq<char>>) -> u32 {
    match out {
        Some(s) => match number_of(trimmed(s), u32::MAX as nat) {
            Some(n) => n as u32,
            None => 1,
        },
        None => 1,
    }
}

/// The number of CPUs of the node, from what `nproc` reports; one where it reports none.
pub fn get_host_cpus(out: Option<&str>) -> (r: u32)
    ensures
        r == cpus_told(opt_text(out)),
        r == (match out {
            Some(s) => match number_of(trimmed(s@), u32::MAX as nat) {
                Some(n) => n as u32,
                None => 1,
            },
            None => 1,
        }),
{
    match out {
        Some(s) => match parse_u32(trim(s)) {
            Some(n) => n,
            None => 1,
        },
        None => 1,
    }
}

/// The low 64 bits of a number.
pub open spec fn low64(n: int) -> u64 {
    (n % 0x1_0000_0000_0000_0000) as u64
}

fn sum64(a: u64, b: u64) -> (r: u64)
    ensures
        r == low64(a + b),
{
    ((a as u128 + b as u128) % 0x1_0000_0000_0000_0000) as u64
}

/// The ticks of a thread: what its stat file counts in user mode and in the kernel.
pub open spec fn thread_ticks(stat: Seq<char>) -> Option<u64> {
    let f = words_of(stat);
    if f.len() < 15 {
        None
    } else {
        match (number_of(f[13], u64::MAX as nat), number_of(f[14], u64::MAX as nat)) {
            (Some(user), Some(kernel)) => Some(low64(user as int + kernel as int)),
            _ => None,
        }
    }
}

/// The ticks of a thread, from its stat file.
pub fn read_thread_ticks(stat: &str) -> (r: Option<u64>)
    ensures
        r == thread_ticks(stat@),
{
    let f: Vec<String> = words(stat);
    assert(texts(f@).len() == f@.len());
    if f.len() < 15 {
        return None;
    }
    assert(texts(f@)[13] == f@[13]@);
    assert(texts(f@)[14] == f@[14]@);
    match (parse_u64(f[13].as_str()), parse_u64(f[14].as_str())) {
        (Some(user), Some(kernel)) => Some(sum64(user, kernel)),
        _ => None,
    }
}

/// The ticks of all threads whose stat file could be read, in 64 bits.
pub open spec fn process_ticks(stats: Seq<Seq<char>>) -> u64
    decreases stats.len(),
{
    if stats.len() == 0 {
        0
    } else {
        match thread_ticks(stats.last()) {
            Some(t) => low64(process_ticks(stats.drop_last()) + t),
            None => process_ticks(stats.drop_last()),
        }
    }
}

/// The ticks of a process, from the stat files of its threads.
pub fn sum_thread_ticks(stats: &Vec<String>) -> (r: u64)
    ensures
        r == process_ticks(texts(stats@)),
{
    let ghost model = texts(stats@);
    let mut sum: u64 = 0;
    let mut i: usize = 0;
    while i < stats.len()
        invariant
            i <= stats@.len(),
            model == texts(stats@),
            sum == process_ticks(model.take(i as int)),
        decreases stats@.len() - i,
    {
        assert(model.take(i + 1).drop_last() =~= model.take(i as int));
        assert(model[i as int] == stats@[i as int]@);
        match read_thread_ticks(stats[i].as_str()) {
            Some(t) => {
                sum = sum64(sum, t);
            },
            None => {},
        }
        i = i + 1;
    }
    assert(model.take(i as int) =~= model);
    sum
}

/// The sum, in 64 bits, of those words that are numbers.
pub open spec fn numbers_sum(f: Seq<Seq<char>>) -> u64
    decreases f.len(),
{
    if f.len() == 0 {
        0
    } else {
        match number_of(f.last(), u64::MAX as nat) {
            Some(n) => low64(numbers_sum(f.drop_last()) + n),
            None => numbers_sum(f.drop_last()),
        }
    }
}

/// The ticks that `/proc/stat` counts on its first line, behind the first word.
pub open spec fn machine_ticks(stat: Seq<char>) -> Option<u64> {
    if stat.len() == 0 {
        None
    } else {
        let f = words_of(cut_at(stat, '\n')[0]);
        Some(
            numbers_sum(
                if f.len() == 0 {
                    f
                } else {
                    f.drop_first()
                },
            ),
        )
    }
}

/// The ticks of the whole machine, from `/proc/stat`.
pub fn total_ticks(stat: &str) -> (r: Option<u64>)
    ensures
        r == machine_ticks(stat@),
{
    if stat.is_empty() {
        return None;
    }
    let lines: Vec<String> = split_at_char(stat, '\n');
    assert(texts(lines@)[0] == lines@[0]@);
    let f: Vec<String> = words(lines[0].as_str());
    let ghost model = texts(f@);
    let ghost tail = if model.len() == 0 {
        model
    } else {
        model.drop_first()
    };
    let mut sum: u64 = 0;
    if f.len() == 0 {
        return Some(sum);
    }
    let mut i: usize = 1;
    assert(tail.take(0) =~= Seq::empty());
    while i < f.len()
        invariant
            1 <= i <= f@.len(),
            model == texts(f@),
            tail == model.drop_first(),
            sum == numbers_sum(tail.take(i - 1)),
        decreases f@.len() - i,
    {
        assert(tail.take(i as int).drop_last() =~= tail.take(i - 1));
        assert(tail[i - 1] == f@[i as int]@);
        match parse_u64(f[i].as_str()) {
            Some(n) => {
                sum = sum64(sum, n);
            },
            None => {},
        }
        i = i + 1;
    }
    assert(tail.take(i - 1) =~= tail);
    Some(sum)
}

/// Ticks of a process and of the machine, taken together.
#[derive(Clone, Copy, Debug)]
pub struct Ticks {
    pub process: u64,
    pub machine: u64,
}

/// By how much one reading is ahead of an earlier one, nothing where it is behind.
pub open spec fn ahead(now: u64, before: u64) -> u64 {
    if now >= before {
        (now - before) as u64
    } else {
        0
    }
}

/// What passed between two readings.
pub open spec fn passed(first: Ticks, second: Ticks) -> Option<Ticks> {
    if second.machine <= first.machine {
        None
    } else {
        Some(
            Ticks {
                process: ahead(second.process, first.process),
                machine: ahead(second.machine, first.machine),
            },
        )
    }
}

/// What passed between two readings; nothing where no time passed on the machine.
pub fn ticks_between(first: Ticks, second: Ticks) -> (r: Option<Ticks>)
    ensures
        r == passed(first, second),
        match r {
            Some(d) => {
                &&& d.process == ahead(second.process, first.process)
                &&& d.machine == ahead(second.machine, first.machine)
                &&& d.machine > 0
            },
            None => ahead(second.machine, first.machine) == 0,
        },
{
    let process: u64 = second.process.saturating_sub(first.process);
    let machine: u64 = second.machine.saturating_sub(first.machine);
    if machine == 0 {
        None
    } else {
        Some(Ticks { process, machine })
    }
}

/// Tells whether a status report says that the VM runs.
pub fn is_running(status: &Record) -> (r: bool)
    requires
        status.wf(),
    ensures
        r == (text_at(status@, "status"@) == Some("running"@)),
{
    match status.text("status") {
        Some(s) => same(s, "running"),
        None => false,
    }
}

} // verus!
