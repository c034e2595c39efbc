//! Setting the vCPUs of a VM, command by command.

use vstd::prelude::*;
use crate::json::Record;
#[allow(unused_imports)]
use crate::json::{count_at, opt_record, ScalarView};
use crate::proxmox::{cores_max, get_vm_config, low_bits};
#[allow(unused_imports)]
use crate::proxmox::{ceiling, config_in, low32};
use crate::text::decimal;
#[allow(unused_imports)]
use crate::text::{decimal_of, opt_string, opt_text};

verus! {

/// How far a change has come.
#[derive(Clone, Copy, Debug, PartialEq, Eq, Structural)]
pub enum ChangePhase {
    /// The ceiling of the hardware is to be read.
    Ceiling,
    /// The configuration is to be read.
    Config,
    /// The configuration names another number, and what runs is to be read.
    Status { config: u32 },
    /// Something else runs than is configured: the configuration is to be brought in line.
    Resync { config: u32, running: u32 },
    /// The new number is to be set.
    Apply,
    /// More was asked for than the hardware allows.
    TooMany { max: u32 },
    /// No vCPU at all was asked for.
    Zero,
    /// The new number was set, or could not be.
    Over { done: bool },
}

/// What a change needs next.
#[derive(Clone, Copy, Debug, PartialEq, Eq, Structural)]
pub enum ChangeAction {
    /// Read the configuration of the VM.
    ReadConfig,
    /// Read the current status of the VM.
    ReadStatus,
    /// Have `qm` set the vCPUs of the VM.
    QmSet { vcpus: u32 },
    /// Nothing more.
    Stop { done: bool },
}

/// A change of the vCPUs of a VM.
#[derive(Clone, Copy, Debug, PartialEq, Eq, Structural)]
pub struct VcpuChange {
    pub vmid: u32,
    pub vcpus: u32,
    pub phase: ChangePhase,
}

/// A count of a record, in 32 bits, none being 0.
pub open spec fn count_or_zero(rec: Seq<(Seq<char>, ScalarView)>, key: Seq<char>) -> u32 {
    match count_at(rec, key) {
        Some(n) => low32(n as int),
        None => 0,
    }
}

fn small_count(rec: &Record, key: &str) -> (r: u32)
    requires
        rec.wf(),
    ensures
        r == count_or_zero(rec@, key@),
{
    match rec.count(key) {
        Some(n) => low_bits(n),
        None => 0,
    }
}

impl VcpuChange {
    /// The change once the ceiling is known.
    pub open spec fn with_ceiling(self, max: u32) -> VcpuChange {
        VcpuChange {
            phase: if self.vcpus > max {
                ChangePhase::TooMany { max }
            } else if self.vcpus == 0 {
                ChangePhase::Zero
            } else {
                ChangePhase::Config
            },
            ..self
        }
    }

    /// The change once the configuration is known, if it is.
    pub open spec fn with_config(self, cfg: Option<Seq<(Seq<char>, ScalarView)>>) -> VcpuChange {
        VcpuChange {
            phase: match cfg {
                Some(c) => {
                    let config = count_or_zero(c, "vcpus"@);
                    if config != 0 && config != self.vcpus {
                        ChangePhase::Status { config }
                    } else {
                        ChangePhase::Apply
                    }
                },
                None => ChangePhase::Apply,
            },
            ..self
        }
    }

    /// The change once the status is known, if it is.
    pub open spec fn with_status(
        self,
        config: u32,
        status: Option<Seq<(Seq<char>, ScalarView)>>,
    ) -> VcpuChange {
        VcpuChange {
            phase: match status {
                Some(s) => {
                    let running = count_or_zero(s, "cpus"@);
                    if running > 0 && running != config {
                        ChangePhase::Resync { config, running }
                    } else {
                        ChangePhase::Apply
                    }
                },
                None => ChangePhase::Apply,
            },
            ..self
        }
    }

    /// The change after a command that printed `out`, or failed.
    pub open spec fn after(self, out: Option<Seq<char>>) -> VcpuChange {
        match self.phase {
            ChangePhase::Ceiling => self.with_ceiling(
                match config_in(out) {
                    Some(cfg) => ceiling(cfg),
                    None => 1,
                },
            ),
            ChangePhase::Config => self.with_config(config_in(out)),
            ChangePhase::Status { config } => self.with_status(config, config_in(out)),
            ChangePhase::Resync { .. } => VcpuChange { phase: ChangePhase::Apply, ..self },
            ChangePhase::Apply => VcpuChange {
                phase: ChangePhase::Over { done: out is Some },
                ..self
            },
            _ => self,
        }
    }

    /// What the change needs next.
    pub open spec fn needs(self) -> ChangeAction {
        match self.phase {
            ChangePhase::Ceiling | ChangePhase::Config => ChangeAction::ReadConfig,
            ChangePhase::Status { .. } => ChangeAction::ReadStatus,
            ChangePhase::Resync { running, .. } => ChangeAction::QmSet { vcpus: running },
            ChangePhase::Apply => ChangeAction::QmSet { vcpus: self.vcpus },
            ChangePhase::TooMany { .. } | ChangePhase::Zero => ChangeAction::Stop { done: false },
            ChangePhase::Over { done } => ChangeAction::Stop { done },
        }
    }

    /// What the change comes to after a command that printed `out`, or failed: what the last
    /// command printed.
    pub open spec fn outcome(self, out: Option<Seq<char>>) -> Option<Seq<char>> {
        if self.phase is Apply {
            out
        } else {
            None
        }
    }

    /// What is told of the change before it goes on.
    pub open spec fn notice_text(self) -> Option<Seq<char>> {
        match self.phase {
            ChangePhase::TooMany { max } => Some(
                "❌ set_vm_vcpus VM "@ + decimal_of(self.vmid as nat) + " : "@
                    + decimal_of(self.vcpus as nat) + " > cores_max "@ + decimal_of(max as nat)
                    + " — ignoré"@,
            ),
            ChangePhase::Zero => Some(
                "❌ set_vm_vcpus VM "@ + decimal_of(self.vmid as nat)
                    + " : vcpus=0 invalide — ignoré"@,
            ),
            ChangePhase::Resync { config, running } => Some(
                "🔧 VM "@ + decimal_of(self.vmid as nat) + " désynchronisée (config="@
                    + decimal_of(config as nat) + " QEMU="@ + decimal_of(running as nat)
                    + ") — resync avant set"@,
            ),
            _ => None,
        }
    }

    /// How many commands the change takes at most.
    pub open spec fn remaining(self) -> nat {
        match self.phase {
            ChangePhase::Ceiling => 5,
            ChangePhase::Config => 4,
            ChangePhase::Status { .. } => 3,
            ChangePhase::Resync { .. } => 2,
            ChangePhase::Apply => 1,
            _ => 0,
        }
    }

    /// Goes on once the ceiling is known.
    pub fn on_ceiling(&self, max: u32) -> (r: VcpuChange)
        ensures
            r == self.with_ceiling(max),
    {
        VcpuChange {
            vmid: self.vmid,
            vcpus: self.vcpus,
            phase: if self.vcpus > max {
                ChangePhase::TooMany { max }
            } else if self.vcpus == 0 {
                ChangePhase::Zero
            } else {
                ChangePhase::Config
            },
        }
    }

    /// Goes on once the configuration is known, if it is.
    pub fn on_config(&self, cfg: Option<&Record>) -> (r: VcpuChange)
        requires
            cfg is Some ==> cfg->0.wf(),
        ensures
            r == self.with_config(opt_record(cfg)),
    {
        let phase: ChangePhase = match cfg {
            Some(c) => {
                let config: u32 = small_count(c, "vcpus");
                if config != 0 && config != self.vcpus {
                    ChangePhase::Status { config }
                } else {
                    ChangePhase::Apply
                }
            },
            None => ChangePhase::Apply,
        };
        VcpuChange { vmid: self.vmid, vcpus: self.vcpus, phase }
    }

    /// Goes on once the status is known, if it is.
    pub fn on_status(&self, config: u32, status: Option<&Record>) -> (r: VcpuChange)
        requires
            status is Some ==> status->0.wf(),
        ensures
            r == self.with_status(config, opt_record(status)),
    {
        let phase: ChangePhase = match status {
            Some(s) => {
                let running: u32 = small_count(s, "cpus");
                if running > 0 && running != config {
                    ChangePhase::Resync { config, running }
                } else {
                    ChangePhase::Apply
                }
            },
            None => ChangePhase::Apply,
        };
        VcpuChange { vmid: self.vmid, vcpus: self.vcpus, phase }
    }

    /// What is needed next.
    pub fn action(&self) -> (r: ChangeAction)
        ensures
            r == self.needs(),
    {
        match self.phase {
            ChangePhase::Ceiling | ChangePhase::Config => ChangeAction::ReadConfig,
            ChangePhase::Status { config: _ } => ChangeAction::ReadStatus,
            ChangePhase::Resync { config: _, running } => ChangeAction::QmSet { vcpus: running },
            ChangePhase::Apply => ChangeAction::QmSet { vcpus: self.vcpus },
            ChangePhase::TooMany { max: _ } | ChangePhase::Zero => ChangeAction::Stop {
                done: false,
            },
            ChangePhase::Over { done } => ChangeAction::Stop { done },
        }
    }

    /// What is told of the change before it goes on.
    pub fn notice(&self) -> (r: Option<String>)
        ensures
            opt_string(r) == self.notice_text(),
    {
        match self.phase {
            ChangePhase::TooMany { max } => Some(
                "❌ set_vm_vcpus VM ".to_owned().concat(decimal(self.vmid as u64).as_str())
                    .concat(" : ").concat(decimal(self.vcpus as u64).as_str())
                    .concat(" > cores_max ").concat(decimal(max as u64).as_str())
                    .concat(" — ignoré"),
            ),
            ChangePhase::Zero => Some(
                "❌ set_vm_vcpus VM ".to_owned().concat(decimal(self.vmid as u64).as_str())
                    .concat(" : vcpus=0 invalide — ignoré"),
            ),
            ChangePhase::Resync { config, running } => Some(
                "🔧 VM ".to_owned().concat(decimal(self.vmid as u64).as_str())
                    .concat(" désynchronisée (config=").concat(decimal(config as u64).as_str())
                    .concat(" QEMU=").concat(decimal(running as u64).as_str())
                    .concat(") — resync avant set"),
            ),
            _ => None,
        }
    }

    /// What the change comes to after a command: what the last command printed, where it succeeded.
    pub fn result(&self, out: Option<&str>) -> (r: Option<String>)
        ensures
            opt_string(r) == self.outcome(opt_text(out)),
    {
        match (self.phase, out) {
            (ChangePhase::Apply, Some(s)) => Some(s.to_owned()),
            _ => None,
        }
    }

    /// Goes on from what the command printed, or from its failure.
    pub fn step(&self, out: Option<&str>) -> (r: VcpuChange)
        ensures
            r == self.after(opt_text(out)),
    {
        match self.phase {
            ChangePhase::Ceiling => {
                let max: u32 = match get_vm_config(out) {
                    Some(cfg) => cores_max(&cfg),
                    None => 1,
                };
                self.on_ceiling(max)
            },
            ChangePhase::Config => match get_vm_config(out) {
                Some(cfg) => self.on_config(Some(&cfg)),
                None => self.on_config(None),
            },
            ChangePhase::Status { config } => match get_vm_config(out) {
                Some(status) => self.on_status(config, Some(&status)),
                None => self.on_status(config, None),
            },
            ChangePhase::Resync { config: _, running: _ } => VcpuChange {
                vmid: self.vmid,
                vcpus: self.vcpus,
                phase: ChangePhase::Apply,
            },
            ChangePhase::Apply => VcpuChange {
                vmid: self.vmid,
                vcpus: self.vcpus,
                phase: ChangePhase::Over { done: out.is_some() },
            },
            _ => *self,
        }
    }
}

/// Begins to set the vCPUs of a VM.
pub fn set_vm_vcpus(vmid: u32, vcpus: u32) -> (r: VcpuChange)
    ensures
        r == (VcpuChange { vmid, vcpus, phase: ChangePhase::Ceiling }),
{
    VcpuChange { vmid, vcpus, phase: ChangePhase::Ceiling }
}

/// A change that asks for nothing, or for more than the ceiling, stops before any command that
/// sets anything; every other change goes on.
pub proof fn law_impossible_changes_are_refused(c: VcpuChange, max: u32)
    ensures
        c.vcpus == 0 || c.vcpus > max ==> c.with_ceiling(max).needs() == (ChangeAction::Stop {
            done: false,
        }),
        0 < c.vcpus <= max ==> c.with_ceiling(max).phase is Config,
{
}

/// A change ends: each command brings the end nearer, and once none is left there is nothing more
/// to do.
pub proof fn law_changes_end(c: VcpuChange, out: Option<Seq<char>>)
    ensures
        c.remaining() > 0 ==> c.after(out).remaining() < c.remaining(),
        c.remaining() == 0 ==> c.needs() is Stop && c.after(out) == c,
{
}

/// A change has a result exactly where it succeeds.
pub proof fn law_success_has_a_result(c: VcpuChange, out: Option<Seq<char>>)
    requires
        !(c.phase is Over),
    ensures
        c.after(out).needs() == (ChangeAction::Stop { done: true }) <==> c.outcome(out) is Some,
{
}

/// A change succeeds only by a last command that sets what was asked for, and that the ceiling
/// read at its start allowed.
pub proof fn law_success_sets_what_was_asked_for(c: VcpuChange, out: Option<Seq<char>>)
    requires
        !(c.phase is Over),
    ensures
        c.after(out).vmid == c.vmid && c.after(out).vcpus == c.vcpus,
        c.after(out).phase == (ChangePhase::Over { done: true }) <==> c.needs() == (
        ChangeAction::QmSet { vcpus: c.vcpus }) && c.phase is Apply && out is Some,
{
}

/// What is brought in line first is what runs, and only where it differs from what is configured.
pub proof fn law_resync_follows_what_runs(
    c: VcpuChange,
    config: u32,
    status: Seq<(Seq<char>, ScalarView)>,
)
    ensures
        c.with_status(config, Some(status)).needs() == (ChangeAction::QmSet {
            vcpus: if count_or_zero(status, "cpus"@) > 0 && count_or_zero(status, "cpus"@)
                != config {
                count_or_zero(status, "cpus"@)
            } else {
                c.vcpus
            },
        }),
{
}

} // verus!
