//! What is read off the reports of the node, and what a change of vCPUs makes of them.

use vstd::prelude::*;
#[allow(unused_imports)]
use crate::json::{count_at, document, record_in, text_at, Json, ScalarView};
#[allow(unused_imports)]
use crate::proxmox::{
    ahead, ascending, ceiling, ceiling_told, config_in, config_text, cpus_told, iso_told, listed,
    low32, low64, machine_ticks, node_in, numbers_sum, output_of, passed, pid_in, process_ticks,
    running_id, running_ids, thread_ticks, vcpus_in, vcpus_told, vm_path, vms_path, Ticks,
};
#[allow(unused_imports)]
use crate::config::AppConfig;
#[allow(unused_imports)]
use crate::text::{
    cut_at, decimal_of, lemma_decimal_digits, lemma_first_piece, lemma_whole, number_of, trimmed,
    words_of,
};
#[allow(unused_imports)]
use crate::vm_recognizer::iso_in;
#[allow(unused_imports)]
use crate::vcpu_change::{ChangeAction, ChangePhase, VcpuChange};

verus! {

/// Numbers that fit stay as they are; larger ones wrap around.
pub proof fn law_large_numbers_wrap_around(n: int)
    requires
        0 <= n,
    ensures
        n < 0x1_0000_0000 ==> low32(n) == n,
        low32(n + 0x1_0000_0000) == low32(n),
        n < 0x1_0000_0000_0000_0000 ==> low64(n) == n,
        low64(n + 0x1_0000_0000_0000_0000) == low64(n),
{
}

/// A VM is listed exactly where it has a number, runs, and is no template.
pub proof fn law_running_vms_are_listed(vm: Seq<(Seq<char>, ScalarView)>)
    ensures
        running_id(vm) is Some <==> count_at(vm, "vmid"@) is Some && text_at(vm, "status"@) == Some(
            "running"@,
        ) && (count_at(vm, "template"@) is None || count_at(vm, "template"@) == Some(0u64)),
        running_id(vm) is Some ==> running_id(vm)->0 == count_at(vm, "vmid"@)->0 % 0x1_0000_0000,
{
}

/// The list of VMs holds exactly the numbers of the VMs of the report that run and are no
/// templates.
pub proof fn law_the_list_is_complete(
    vms: Seq<Seq<(Seq<char>, ScalarView)>>,
    r: Seq<u32>,
    id: u32,
)
    requires
        r.to_multiset() == vms.filter_map(running_ids()).to_multiset(),
    ensures
        r.contains(id) <==> exists|i: int|
            0 <= i < vms.len() && count_at(#[trigger] vms[i], "vmid"@) is Some && text_at(
                vms[i],
                "status"@,
            ) == Some("running"@) && (count_at(vms[i], "template"@) is None || count_at(
                vms[i],
                "template"@,
            ) == Some(0u64)) && id == count_at(vms[i], "vmid"@)->0 % 0x1_0000_0000,
{
    let all = vms.filter_map(running_ids());
    r.to_multiset_ensures();
    all.to_multiset_ensures();
    assert(r.contains(id) <==> r.to_multiset().count(id) > 0);
    assert(all.contains(id) <==> all.to_multiset().count(id) > 0);
    if all.contains(id) {
        vms.lemma_filter_map_contains(running_ids(), id);
        let vm = choose|vm: Seq<(Seq<char>, ScalarView)>|
            vms.contains(vm) && running_ids()(vm) == Some(id);
        let i = choose|i: int| 0 <= i < vms.len() && vms[i] == vm;
        law_running_vms_are_listed(vms[i]);
        assert(running_id(vms[i]) == Some(id));
    }
    assert forall|i: int|
        0 <= i < vms.len() && running_id(#[trigger] vms[i]) == Some(id) implies all.contains(id) by {
        lemma_kept(vms, i, id);
    }
    if exists|i: int|
        0 <= i < vms.len() && count_at(#[trigger] vms[i], "vmid"@) is Some && text_at(
            vms[i],
            "status"@,
        ) == Some("running"@) && (count_at(vms[i], "template"@) is None || count_at(
            vms[i],
            "template"@,
        ) == Some(0u64)) && id == count_at(vms[i], "vmid"@)->0 % 0x1_0000_0000 {
        let i = choose|i: int|
            0 <= i < vms.len() && count_at(#[trigger] vms[i], "vmid"@) is Some && text_at(
                vms[i],
                "status"@,
            ) == Some("running"@) && (count_at(vms[i], "template"@) is None || count_at(
                vms[i],
                "template"@,
            ) == Some(0u64)) && id == count_at(vms[i], "vmid"@)->0 % 0x1_0000_0000;
        assert(running_id(vms[i]) == Some(id));
    }
}

proof fn lemma_kept(vms: Seq<Seq<(Seq<char>, ScalarView)>>, i: int, id: u32)
    requires
        0 <= i < vms.len(),
        running_id(vms[i]) == Some(id),
    ensures
        vms.filter_map(running_ids()).contains(id),
    decreases vms.len(),
{
    let n = vms.len() as int;
    let rest = vms.take(n - 1);
    vms.lemma_filter_map_take_succ(running_ids(), n - 1);
    assert(vms.take(n) =~= vms);
    let before = rest.filter_map(running_ids());
    if i == n - 1 {
        assert(vms.filter_map(running_ids()) =~= before + seq![id]);
        assert((before + seq![id])[before.len() as int] == id);
    } else {
        assert(rest[i] == vms[i]);
        lemma_kept(rest, i, id);
        let k = choose|k: int| 0 <= k < before.len() && before[k] == id;
        assert(vms.filter_map(running_ids())[k] == id);
    }
}

/// What a report writes is read as it stands: an object as its members, a list as its members'
/// records; nothing is read off no report, nor off one that is no document.
pub proof fn law_reports_are_read(text: Seq<char>, key: Seq<char>)
    ensures
        config_in(None) is None,
        listed(None).len() == 0,
        config_text(None, key) is None,
        match document(text) {
            Some(j) => {
                &&& config_in(Some(text)) == Some(record_in(j))
                &&& config_text(Some(text), key) == text_at(record_in(j), key)
                &&& match j {
                    Json::List(l) => {
                        &&& listed(Some(text)).len() == l.len()
                        &&& forall|i: int|
                            0 <= i < l.len() ==> #[trigger] listed(Some(text))[i] == record_in(l[i])
                    },
                    _ => listed(Some(text)).len() == 0,
                }
            },
            None => config_in(Some(text)) is None && listed(Some(text)).len() == 0 && config_text(
                Some(text),
                key,
            ) is None,
        },
{
}

/// The hardware allows as many vCPUs as there are cores on all sockets, each being one where it is
/// not told.
pub proof fn law_hardware_allows_its_cores(cfg: Seq<(Seq<char>, ScalarView)>, cores: int, sockets: int)
    requires
        cores == (if count_at(cfg, "cores"@) is Some {
            count_at(cfg, "cores"@)->0 as int
        } else {
            1
        }),
        sockets == (if count_at(cfg, "sockets"@) is Some {
            count_at(cfg, "sockets"@)->0 as int
        } else {
            1
        }),
        cores < 0x1_0000_0000,
        sockets < 0x1_0000_0000,
        cores * sockets < 0x1_0000_0000,
    ensures
        ceiling(cfg) == cores * sockets,
        count_at(cfg, "vcpus"@) is None ==> vcpus_in(cfg) == cores * sockets,
        count_at(cfg, "vcpus"@) matches Some(n) ==> vcpus_in(cfg) == n % 0x1_0000_0000,
{
    assert(0 <= cores * sockets) by (nonlinear_arith)
        requires
            0 <= cores,
            0 <= sockets,
    ;
}

/// The ceiling wraps around where cores, sockets or both together do not fit.
pub proof fn law_the_ceiling_wraps_around(cfg: Seq<(Seq<char>, ScalarView)>, cores: u64, sockets: u64)
    requires
        count_at(cfg, "cores"@) == Some(cores),
        count_at(cfg, "sockets"@) == Some(sockets),
    ensures
        ceiling(cfg) == ((cores % 0x1_0000_0000) * (sockets % 0x1_0000_0000)) % 0x1_0000_0000,
{
    let a = (cores % 0x1_0000_0000) as int;
    let b = (sockets % 0x1_0000_0000) as int;
    assert(0 <= a * b) by (nonlinear_arith)
        requires
            0 <= a,
            0 <= b,
    ;
}

/// The process of a VM is told by the first line that begins with `pid:`, and by no other.
pub proof fn law_first_pid_line_counts(lines: Seq<Seq<char>>, k: int)
    requires
        0 <= k <= lines.len(),
        forall|i: int| 0 <= i < k ==> !"pid:"@.is_prefix_of(trimmed(#[trigger] lines[i])),
    ensures
        k == lines.len() ==> pid_in(lines) is None,
        k < lines.len() ==> forall|rest: Seq<char>|
            trimmed(lines[k]) == #[trigger] ("pid:"@ + rest) ==> pid_in(lines) == number_of(
                trimmed(rest),
                0xffff_ffff,
            ),
    decreases k,
{
    reveal_strlit("pid:");
    if k > 0 {
        let tail = lines.drop_first();
        assert(!"pid:"@.is_prefix_of(trimmed(lines[0])));
        assert forall|i: int| 0 <= i < k - 1 implies !"pid:"@.is_prefix_of(
            trimmed(#[trigger] tail[i]),
        ) by {
            assert(tail[i] == lines[i + 1]);
        }
        law_first_pid_line_counts(tail, k - 1);
        if k < lines.len() {
            assert(tail[k - 1] == lines[k]);
        }
    } else if k < lines.len() {
        assert forall|rest: Seq<char>|
            trimmed(lines[0]) == #[trigger] ("pid:"@ + rest) implies pid_in(lines) == number_of(
            trimmed(rest),
            0xffff_ffff,
        ) by {
            let t = "pid:"@ + rest;
            assert(t.subrange(0, 4) =~= "pid:"@);
            assert("pid:"@.is_prefix_of(t));
            assert(t.skip(4) =~= rest);
        }
    }
}

/// The ticks of a thread are its fourteenth and its fifteenth word together; a line with fewer
/// words, or without a number there, tells none.
pub proof fn law_ticks_are_two_words(stat: Seq<char>, user: nat, kernel: nat)
    ensures
        words_of(stat).len() >= 15 && number_of(words_of(stat)[13], 0xffff_ffff_ffff_ffff) == Some(
            user,
        ) && number_of(words_of(stat)[14], 0xffff_ffff_ffff_ffff) == Some(kernel)
            ==> thread_ticks(stat) is Some && thread_ticks(stat)->0 == (user + kernel)
            % 0x1_0000_0000_0000_0000,
        words_of(stat).len() < 15 ==> thread_ticks(stat) is None,
        number_of(words_of(stat)[13], 0xffff_ffff_ffff_ffff) is None || number_of(
            words_of(stat)[14],
            0xffff_ffff_ffff_ffff,
        ) is None ==> thread_ticks(stat) is None,
{
}

/// A process has no ticks without threads, and as many more for each further thread as that thread
/// has, where its file can be read.
pub proof fn law_ticks_add_up(stats: Seq<Seq<char>>, stat: Seq<char>)
    ensures
        process_ticks(Seq::empty()) == 0,
        thread_ticks(stat) matches Some(t) ==> process_ticks(stats.push(stat)) == (process_ticks(
            stats,
        ) + t) % 0x1_0000_0000_0000_0000,
        thread_ticks(stat) is None ==> process_ticks(stats.push(stat)) == process_ticks(stats),
{
    assert(stats.push(stat).drop_last() =~= stats);
}

/// The ticks of the machine are what the numbers on the first line, behind its first word, add up
/// to.
pub proof fn law_the_machine_counts_on_its_first_line(
    stat: Seq<char>,
    name: Seq<char>,
    numbers: Seq<Seq<char>>,
)
    requires
        stat.len() > 0,
        words_of(cut_at(stat, '\n')[0]) == seq![name] + numbers,
    ensures
        machine_ticks(stat) == Some(numbers_sum(numbers)),
        machine_ticks(Seq::empty()) is None,
{
    assert((seq![name] + numbers).drop_first() =~= numbers);
}

/// Words that are no numbers are left out of a sum, the others are added.
pub proof fn law_numbers_add_up(words: Seq<Seq<char>>, word: Seq<char>)
    ensures
        numbers_sum(Seq::empty()) == 0,
        number_of(word, 0xffff_ffff_ffff_ffff) matches Some(n) ==> numbers_sum(words.push(word)) == (
        numbers_sum(words) + n) % 0x1_0000_0000_0000_0000,
        number_of(word, 0xffff_ffff_ffff_ffff) is None ==> numbers_sum(words.push(word))
            == numbers_sum(words),
{
    assert(words.push(word).drop_last() =~= words);
}

/// What passed is what the later reading is ahead by; readings that go back count as no time.
pub proof fn law_time_does_not_go_back(now: u64, before: u64)
    ensures
        now >= before ==> ahead(now, before) + before == now,
        now < before ==> ahead(now, before) == 0,
{
}

/// Between two readings passes what each of them went ahead by, the process's time counting as none
/// where it went back; nothing is told where the machine's time did not go ahead.
pub proof fn law_what_passed_lies_between(first: Ticks, second: Ticks)
    ensures
        second.machine <= first.machine ==> passed(first, second) is None,
        second.machine > first.machine ==> {
            &&& passed(first, second) matches Some(d)
            &&& first.machine + d.machine == second.machine
            &&& second.process >= first.process ==> first.process + d.process == second.process
            &&& second.process < first.process ==> d.process == 0
        },
{
}

/// A command that succeeded gives what it printed without the white space around it, one that failed
/// gives nothing; a node without a name is the local one.
pub proof fn law_failed_commands_give_nothing(stdout: Seq<char>)
    ensures
        output_of(true, stdout) == Some(trimmed(stdout)),
        output_of(false, stdout) is None,
        node_in(Some(stdout)) == trimmed(stdout),
        node_in(None) == "localhost"@,
{
}

/// Where nothing can be read, a VM has no known vCPUs and no ISO file, and one core; where a
/// configuration is read, they are what it says.
pub proof fn law_unread_vms_have_one_core(text: Seq<char>)
    ensures
        vcpus_told(None) is None,
        ceiling_told(None) == 1,
        iso_told(None) is None,
        document(text) is None ==> vcpus_told(Some(text)) is None && ceiling_told(Some(text)) == 1
            && iso_told(Some(text)) is None,
        document(text) matches Some(j) ==> vcpus_told(Some(text)) == Some(vcpus_in(record_in(j)))
            && ceiling_told(Some(text)) == ceiling(record_in(j)) && iso_told(Some(text)) == iso_in(
            record_in(j),
        ),
{
}

/// The node has as many CPUs as the number that is reported, and one where no number is.
pub proof fn law_the_node_has_a_cpu(text: Seq<char>, n: nat)
    ensures
        number_of(trimmed(text), 0xffff_ffff) == Some(n) ==> cpus_told(Some(text)) == n,
        number_of(trimmed(text), 0xffff_ffff) is None ==> cpus_told(Some(text)) == 1,
        cpus_told(None) == 1,
{
}

/// No number is smaller than one before it, nor larger than one behind it.
pub proof fn law_ascending_numbers_do_not_fall(s: Seq<u32>)
    ensures
        ascending(s) <==> forall|i: int, j: int|
            0 <= i < j < s.len() ==> #[trigger] s[i] <= #[trigger] s[j],
{
}

/// A path names the node, and the VM by its number, between its slashes.
pub proof fn law_paths_name_node_and_vm(node: Seq<char>, vmid: u32)
    requires
        !node.contains('/'),
    ensures
        cut_at(vms_path(node), '/') == seq![Seq::<char>::empty(), "nodes"@, node, "qemu"@],
        cut_at(vm_path(node, vmid, "/config"@), '/') == seq![
            Seq::<char>::empty(),
            "nodes"@,
            node,
            "qemu"@,
            decimal_of(vmid as nat),
            "config"@,
        ],
        cut_at(vm_path(node, vmid, "/status/current"@), '/') == seq![
            Seq::<char>::empty(),
            "nodes"@,
            node,
            "qemu"@,
            decimal_of(vmid as nat),
            "status"@,
            "current"@,
        ],
{
    reveal_strlit("/nodes/");
    reveal_strlit("nodes");
    reveal_strlit("/qemu");
    reveal_strlit("/qemu/");
    reveal_strlit("qemu");
    reveal_strlit("/config");
    reveal_strlit("config");
    reveal_strlit("/status/current");
    reveal_strlit("status");
    reveal_strlit("current");
    lemma_decimal_digits(vmid as nat);
    let e = Seq::<char>::empty();
    let bar = seq!['/'];
    let id = decimal_of(vmid as nat);
    assert(!id.contains('/'));
    lemma_node(node, "qemu"@);
    assert(vms_path(node) =~= e + bar + ("nodes"@ + bar + (node + bar + "qemu"@)));
    lemma_whole("qemu"@, '/');
    assert(cut_at(vms_path(node), '/') =~= seq![e, "nodes"@, node, "qemu"@]);
    let c = "qemu"@ + bar + (id + bar + "config"@);
    lemma_node(node, c);
    assert(vm_path(node, vmid, "/config"@) =~= e + bar + ("nodes"@ + bar + (node + bar + c)));
    lemma_whole("config"@, '/');
    lemma_first_piece(id, '/', "config"@);
    lemma_first_piece("qemu"@, '/', id + bar + "config"@);
    assert(cut_at(vm_path(node, vmid, "/config"@), '/') =~= seq![
        e,
        "nodes"@,
        node,
        "qemu"@,
        id,
        "config"@,
    ]);
    let t = "status"@ + bar + "current"@;
    let s = "qemu"@ + bar + (id + bar + t);
    lemma_node(node, s);
    assert(vm_path(node, vmid, "/status/current"@) =~= e + bar + ("nodes"@ + bar + (node + bar
        + s)));
    lemma_whole("current"@, '/');
    lemma_first_piece("status"@, '/', "current"@);
    lemma_first_piece(id, '/', t);
    lemma_first_piece("qemu"@, '/', id + bar + t);
    assert(cut_at(vm_path(node, vmid, "/status/current"@), '/') =~= seq![
        e,
        "nodes"@,
        node,
        "qemu"@,
        id,
        "status"@,
        "current"@,
    ]);
}

proof fn lemma_node(node: Seq<char>, rest: Seq<char>)
    requires
        !node.contains('/'),
    ensures
        cut_at(
            Seq::<char>::empty() + seq!['/'] + ("nodes"@ + seq!['/'] + (node + seq!['/'] + rest)),
            '/',
        ) == seq![Seq::<char>::empty(), "nodes"@, node] + cut_at(rest, '/'),
{
    reveal_strlit("nodes");
    let e = Seq::<char>::empty();
    let bar = seq!['/'];
    let a = node + bar + rest;
    let b = "nodes"@ + bar + a;
    lemma_first_piece(node, '/', rest);
    lemma_first_piece("nodes"@, '/', a);
    lemma_first_piece(e, '/', b);
    assert(cut_at(e + bar + b, '/') =~= seq![e, "nodes"@, node] + cut_at(rest, '/'));
}

/// Settings hold exactly where no more measures are asked for than are kept.
pub proof fn law_settings_ask_for_no_more_than_is_kept(c: AppConfig)
    ensures
        c.holds() <==> !(c.min_samples_before_action > c.window_size),
{
}

/// A change keeps its VM and what it asks for, whatever the commands print.
pub proof fn law_changes_keep_what_they_ask_for(c: VcpuChange, out: Option<Seq<char>>)
    ensures
        c.after(out).vmid == c.vmid,
        c.after(out).vcpus == c.vcpus,
{
}

/// The ceiling is read first, one standing in where the configuration cannot be read. A change that
/// asks for more, or for nothing, ends there without a command; any other goes on.
pub proof fn law_changes_stay_under_the_ceiling(c: VcpuChange, out: Option<Seq<char>>)
    requires
        c.phase is Ceiling,
    ensures
        c.needs() is ReadConfig,
        ({
            let max = match config_in(out) {
                Some(cfg) => ceiling(cfg),
                None => 1,
            };
            let n = c.after(out);
            &&& c.vcpus > max ==> n.phase == ChangePhase::TooMany { max } && n.needs()
                == ChangeAction::Stop { done: false }
            &&& c.vcpus == 0 ==> n.phase is Zero && n.needs() == ChangeAction::Stop { done: false }
            &&& 0 < c.vcpus <= max ==> n.phase is Config && n.needs() is ReadConfig
        }),
{
}

/// What runs is read only where the configuration names another number than is asked for, and not
/// none at all; else the change is made.
pub proof fn law_what_runs_is_read_where_it_matters(c: VcpuChange, out: Option<Seq<char>>)
    requires
        c.phase is Config,
    ensures
        ({
            let n = c.after(out);
            let named = match config_in(out) {
                Some(cfg) => match count_at(cfg, "vcpus"@) {
                    Some(v) => v as int % 0x1_0000_0000,
                    None => 0,
                },
                None => 0,
            };
            &&& named != 0 && named != c.vcpus ==> n.needs() is ReadStatus && (
            n.phase matches ChangePhase::Status { config } && config == named)
            &&& named == 0 || named == c.vcpus ==> n.phase is Apply && n.needs()
                == ChangeAction::QmSet { vcpus: c.vcpus }
        }),
{
}

/// What runs is made the configuration first where something runs and it is another number than is
/// configured; else the change is made.
pub proof fn law_what_runs_comes_first(c: VcpuChange, config: u32, out: Option<Seq<char>>)
    requires
        c.phase == (ChangePhase::Status { config }),
    ensures
        ({
            let n = c.after(out);
            let running = match config_in(out) {
                Some(status) => match count_at(status, "cpus"@) {
                    Some(v) => v as int % 0x1_0000_0000,
                    None => 0,
                },
                None => 0,
            };
            &&& running != 0 && running != config ==> (n.phase matches ChangePhase::Resync {
                config: c1,
                running: r1,
            } && c1 == config && r1 == running) && (n.needs() matches ChangeAction::QmSet { vcpus }
                && vcpus == running)
            &&& running == 0 || running == config ==> n.phase is Apply && n.needs()
                == ChangeAction::QmSet { vcpus: c.vcpus }
        }),
{
}

/// The change is made once what runs is configured, whether that worked or not; it succeeds exactly
/// where its last command does, and gives what that command printed. A change that is over stays so.
pub proof fn law_the_last_command_decides(c: VcpuChange, out: Option<Seq<char>>)
    ensures
        c.phase is Resync ==> c.after(out).phase is Apply && c.outcome(out) is None,
        c.phase is Apply ==> c.needs() == (ChangeAction::QmSet { vcpus: c.vcpus }) && c.after(
            out,
        ).needs() == (ChangeAction::Stop { done: out is Some }) && c.outcome(out) == out,
        c.needs() is Stop ==> c.after(out) == c && c.outcome(out) is None,
        c.phase is Ceiling || c.phase is Config || c.phase is Status ==> c.outcome(out) is None,
{
}

} // verus!
