//! Signals to the live-migration daemon.

use vstd::prelude::*;
use crate::text::{decimal, swap};
#[allow(unused_imports)]
use crate::text::{cut_at, decimal_of, lemma_decimal_digits, lemma_first_piece, swapped};
use crate::clock::Moment;

verus! {

/// How urgent a signal is.
#[derive(Debug, Clone, Copy, PartialEq, Eq, Structural)]
pub enum Urgency {
    High,
    Medium,
    Low,
    Critical,
}

impl Urgency {
    /// The word that a signal holds for the urgency.
    pub open spec fn word(self) -> Seq<char> {
        match self {
            Urgency::Low => "low"@,
            Urgency::Medium => "medium"@,
            Urgency::High => "high"@,
            Urgency::Critical => "critical"@,
        }
    }

    /// The word that a signal holds for the urgency.
    pub fn as_str(&self) -> (r: &'static str)
        ensures
            r@ == self.word(),
    {
        match self {
            Urgency::Low => "low",
            Urgency::Medium => "medium",
            Urgency::High => "high",
            Urgency::Critical => "critical",
        }
    }
}

/// A signal: where it is written first, where it is moved to, what it holds.
pub struct Signal {
    pub tmp_path: String,
    pub final_path: String,
    pub content: String,
}

/// The directory that the daemon watches.
pub fn signals_dir() -> (r: &'static str)
    ensures
        r@ == "/var/lib/live-migrator/signals"@,
{
    "/var/lib/live-migrator/signals"
}

/// A reason as it stands in a signal: on one line, without the sign that ends a field's name.
pub open spec fn clean(reason: Seq<char>) -> Seq<char> {
    swapped(swapped(reason, '\n', ' '), '=', '-')
}

/// Makes a reason fit for a signal.
pub fn clean_reason(reason: &str) -> (r: String)
    ensures
        r@ == clean(reason@),
{
    proof {
        reveal_strlit(" ");
        reveal_strlit("-");
    }
    let one_line: String = swap(reason, '\n', " ");
    swap(one_line.as_str(), '=', "-")
}

/// The path of a signal file.
pub open spec fn signal_path(ts: u64, kind: Seq<char>) -> Seq<char> {
    "/var/lib/live-migrator/signals"@ + "/signal_"@ + decimal_of(ts as nat) + kind
}

fn path_of(ts: u64, kind: &str) -> (r: String)
    ensures
        r@ == signal_path(ts, kind@),
{
    signals_dir().to_owned().concat("/signal_").concat(decimal(ts).as_str()).concat(kind)
}

/// What a signal that asks to migrate a VM holds.
pub open spec fn migrate_content(
    vmid: u32,
    reason: Seq<char>,
    urgency: Urgency,
    timestamp: Seq<char>,
) -> Seq<char> {
    "type=MIGRATE_VM\nvmid="@ + decimal_of(vmid as nat) + "\nsource_agent=vcpu-agent\nreason="@
        + clean(reason) + "\nurgency="@ + urgency.word() + "\ntimestamp="@ + timestamp + "\n"@
}

/// What a signal that asks to lighten the node holds.
pub open spec fn lighten_content(
    reason: Seq<char>,
    urgency: Urgency,
    timestamp: Seq<char>,
) -> Seq<char> {
    "type=LIGHTEN_NODE\nsource_agent=vcpu-agent\nreason="@ + clean(reason) + "\nurgency="@
        + urgency.word() + "\nresource=cpu\ntimestamp="@ + timestamp + "\n"@
}

/// Writes the signal that asks to migrate a VM.
pub fn migrate_text(vmid: u32, reason: &str, urgency: Urgency, timestamp: &str) -> (r: String)
    ensures
        r@ == migrate_content(vmid, reason@, urgency, timestamp@),
{
    "type=MIGRATE_VM\nvmid=".to_owned().concat(decimal(vmid as u64).as_str()).concat(
        "\nsource_agent=vcpu-agent\nreason=",
    ).concat(clean_reason(reason).as_str()).concat("\nurgency=").concat(urgency.as_str()).concat(
        "\ntimestamp=",
    ).concat(timestamp).concat("\n")
}

/// Writes the signal that asks to lighten the node.
pub fn lighten_text(reason: &str, urgency: Urgency, timestamp: &str) -> (r: String)
    ensures
        r@ == lighten_content(reason@, urgency, timestamp@),
{
    "type=LIGHTEN_NODE\nsource_agent=vcpu-agent\nreason=".to_owned().concat(
        clean_reason(reason).as_str(),
    ).concat("\nurgency=").concat(urgency.as_str()).concat("\nresource=cpu\ntimestamp=").concat(
        timestamp,
    ).concat("\n")
}

/// The signal that asks to migrate a VM, sent `ts` seconds after the Unix epoch; nothing for an
/// instant that cannot be written.
pub fn migrate_vm_signal(
    vmid: u32,
    reason: &str,
    urgency: Urgency,
    ts: u64,
    at: &Moment,
) -> (r: Option<Signal>)
    ensures
        match (at.rfc3339_view(), r) {
            (Some(timestamp), Some(s)) => {
                &&& s.final_path@ == signal_path(ts, "_migrate_vm.sig"@)
                &&& s.tmp_path@ == s.final_path@ + ".tmp"@
                &&& s.content@ == migrate_content(vmid, reason@, urgency, timestamp)
                &&& cut_at(s.content@, '\n') == migrate_lines(vmid, reason@, urgency, timestamp)
            },
            (None, None) => true,
            _ => false,
        },
{
    match at.rfc3339() {
        Some(timestamp) => {
            proof {
                law_migrate_signal_reads_as_its_fields(vmid, reason@, urgency, timestamp@);
            }
            let final_path: String = path_of(ts, "_migrate_vm.sig");
            let tmp_path: String = final_path.clone().concat(".tmp");
            let content: String = migrate_text(vmid, reason, urgency, timestamp.as_str());
            Some(Signal { tmp_path, final_path, content })
        },
        None => None,
    }
}

/// The signal that asks to lighten the node, sent `ts` seconds after the Unix epoch; nothing for
/// an instant that cannot be written.
pub fn lighten_node_signal(reason: &str, urgency: Urgency, ts: u64, at: &Moment) -> (r: Option<
    Signal,
>)
    ensures
        match (at.rfc3339_view(), r) {
            (Some(timestamp), Some(s)) => {
                &&& s.final_path@ == signal_path(ts, "_lighten_node.sig"@)
                &&& s.tmp_path@ == s.final_path@ + ".tmp"@
                &&& s.content@ == lighten_content(reason@, urgency, timestamp)
                &&& cut_at(s.content@, '\n') == lighten_lines(reason@, urgency, timestamp)
            },
            (None, None) => true,
            _ => false,
        },
{
    match at.rfc3339() {
        Some(timestamp) => {
            proof {
                law_lighten_signal_reads_as_its_fields(reason@, urgency, timestamp@);
            }
            let final_path: String = path_of(ts, "_lighten_node.sig");
            let tmp_path: String = final_path.clone().concat(".tmp");
            let content: String = lighten_text(reason, urgency, timestamp.as_str());
            Some(Signal { tmp_path, final_path, content })
        },
        None => None,
    }
}

/// Why a VM is to migrate: its load in percent, as written, and for how many cycles it has been
/// in distress.
pub open spec fn migration_text(vmid: u32, percent: Seq<char>, ticks: u32) -> Seq<char> {
    "vm_"@ + decimal_of(vmid as nat) + "_cpu_"@ + percent + "pct_no_local_donor_"@ + decimal_of(
        ticks as nat,
    ) + "cycles"@
}

/// Writes why a VM is to migrate.
pub fn migration_reason(vmid: u32, percent: &str, ticks: u32) -> (r: String)
    ensures
        r@ == migration_text(vmid, percent@, ticks),
{
    "vm_".to_owned().concat(decimal(vmid as u64).as_str()).concat("_cpu_").concat(percent).concat(
        "pct_no_local_donor_",
    ).concat(decimal(ticks as u64).as_str()).concat("cycles")
}

/// Why the node is to be lightened: how many VMs stay in distress.
pub open spec fn contention_text(count: nat) -> Seq<char> {
    "cpu_contention_"@ + decimal_of(count) + "_vms_persistant_distress"@
}

/// Writes why the node is to be lightened.
pub fn contention_reason(count: usize) -> (r: String)
    ensures
        r@ == contention_text(count as nat),
{
    "cpu_contention_".to_owned().concat(decimal(count as u64).as_str()).concat(
        "_vms_persistant_distress",
    )
}

/// The fields of a signal that asks to migrate a VM, one a line, and the end of the last line.
pub open spec fn migrate_lines(
    vmid: u32,
    reason: Seq<char>,
    urgency: Urgency,
    timestamp: Seq<char>,
) -> Seq<Seq<char>> {
    seq![
        "type=MIGRATE_VM"@,
        "vmid="@ + decimal_of(vmid as nat),
        "source_agent=vcpu-agent"@,
        "reason="@ + clean(reason),
        "urgency="@ + urgency.word(),
        "timestamp="@ + timestamp,
        Seq::empty(),
    ]
}

/// The fields of a signal that asks to lighten the node, one a line, and the end of the last line.
pub open spec fn lighten_lines(
    reason: Seq<char>,
    urgency: Urgency,
    timestamp: Seq<char>,
) -> Seq<Seq<char>> {
    seq![
        "type=LIGHTEN_NODE"@,
        "source_agent=vcpu-agent"@,
        "reason="@ + clean(reason),
        "urgency="@ + urgency.word(),
        "resource=cpu"@,
        "timestamp="@ + timestamp,
        Seq::empty(),
    ]
}

/// A reason can neither end its line nor name another field, whatever it holds, and is as long as
/// before.
pub proof fn law_reasons_stay_in_their_field(reason: Seq<char>)
    ensures
        !clean(reason).contains('\n'),
        !clean(reason).contains('='),
        clean(reason).len() == reason.len(),
{
}

proof fn lemma_field(name: Seq<char>, value: Seq<char>, c: char)
    requires
        !name.contains(c),
        !value.contains(c),
    ensures
        !(name + value).contains(c),
{
    if (name + value).contains(c) {
        let i = choose|i: int| 0 <= i < (name + value).len() && (name + value)[i] == c;
        if i < name.len() {
            assert(name[i] == c);
        } else {
            assert(value[i - name.len()] == c);
        }
    }
}

proof fn lemma_word_on_one_line(u: Urgency)
    ensures
        !u.word().contains('\n'),
{
    reveal_strlit("low");
    reveal_strlit("medium");
    reveal_strlit("high");
    reveal_strlit("critical");
}

proof fn lemma_decimal_on_one_line(n: nat)
    ensures
        !decimal_of(n).contains('\n'),
{
    lemma_decimal_digits(n);
}

/// A signal that asks to migrate a VM reads as exactly its fields, one a line, whatever the reason
/// holds.
pub proof fn law_migrate_signal_reads_as_its_fields(
    vmid: u32,
    reason: Seq<char>,
    urgency: Urgency,
    timestamp: Seq<char>,
)
    requires
        !timestamp.contains('\n'),
    ensures
        cut_at(migrate_content(vmid, reason, urgency, timestamp), '\n') == migrate_lines(
            vmid,
            reason,
            urgency,
            timestamp,
        ),
{
    reveal_strlit("type=MIGRATE_VM\nvmid=");
    reveal_strlit("\nsource_agent=vcpu-agent\nreason=");
    reveal_strlit("\nurgency=");
    reveal_strlit("\ntimestamp=");
    reveal_strlit("\n");
    reveal_strlit("type=MIGRATE_VM");
    reveal_strlit("vmid=");
    reveal_strlit("source_agent=vcpu-agent");
    reveal_strlit("reason=");
    reveal_strlit("urgency=");
    reveal_strlit("timestamp=");
    law_reasons_stay_in_their_field(reason);
    lemma_word_on_one_line(urgency);
    lemma_decimal_on_one_line(vmid as nat);
    let lines = migrate_lines(vmid, reason, urgency, timestamp);
    let nl = seq!['\n'];
    lemma_field("vmid="@, decimal_of(vmid as nat), '\n');
    lemma_field("reason="@, clean(reason), '\n');
    lemma_field("urgency="@, urgency.word(), '\n');
    lemma_field("timestamp="@, timestamp, '\n');
    let s6 = Seq::<char>::empty();
    let s5 = lines[5] + nl + s6;
    let s4 = lines[4] + nl + s5;
    let s3 = lines[3] + nl + s4;
    let s2 = lines[2] + nl + s3;
    let s1 = lines[1] + nl + s2;
    let s0 = lines[0] + nl + s1;
    assert(migrate_content(vmid, reason, urgency, timestamp) =~= s0);
    lemma_first_piece(lines[5], '\n', s6);
    lemma_first_piece(lines[4], '\n', s5);
    lemma_first_piece(lines[3], '\n', s4);
    lemma_first_piece(lines[2], '\n', s3);
    lemma_first_piece(lines[1], '\n', s2);
    lemma_first_piece(lines[0], '\n', s1);
    assert(cut_at(s0, '\n') =~= lines);
}

/// A signal that asks to lighten the node reads as exactly its fields, one a line, whatever the
/// reason holds.
pub proof fn law_lighten_signal_reads_as_its_fields(
    reason: Seq<char>,
    urgency: Urgency,
    timestamp: Seq<char>,
)
    requires
        !timestamp.contains('\n'),
    ensures
        cut_at(lighten_content(reason, urgency, timestamp), '\n') == lighten_lines(
            reason,
            urgency,
            timestamp,
        ),
{
    reveal_strlit("type=LIGHTEN_NODE\nsource_agent=vcpu-agent\nreason=");
    reveal_strlit("\nurgency=");
    reveal_strlit("\nresource=cpu\ntimestamp=");
    reveal_strlit("\n");
    reveal_strlit("type=LIGHTEN_NODE");
    reveal_strlit("source_agent=vcpu-agent");
    reveal_strlit("reason=");
    reveal_strlit("urgency=");
    reveal_strlit("resource=cpu");
    reveal_strlit("timestamp=");
    law_reasons_stay_in_their_field(reason);
    lemma_word_on_one_line(urgency);
    let lines = lighten_lines(reason, urgency, timestamp);
    let nl = seq!['\n'];
    lemma_field("reason="@, clean(reason), '\n');
    lemma_field("urgency="@, urgency.word(), '\n');
    lemma_field("timestamp="@, timestamp, '\n');
    let s6 = Seq::<char>::empty();
    let s5 = lines[5] + nl + s6;
    let s4 = lines[4] + nl + s5;
    let s3 = lines[3] + nl + s4;
    let s2 = lines[2] + nl + s3;
    let s1 = lines[1] + nl + s2;
    let s0 = lines[0] + nl + s1;
    assert(lighten_content(reason, urgency, timestamp) =~= s0);
    lemma_first_piece(lines[5], '\n', s6);
    lemma_first_piece(lines[4], '\n', s5);
    lemma_first_piece(lines[3], '\n', s4);
    lemma_first_piece(lines[2], '\n', s3);
    lemma_first_piece(lines[1], '\n', s2);
    lemma_first_piece(lines[0], '\n', s1);
    assert(cut_at(s0, '\n') =~= lines);
}

} // verus!
