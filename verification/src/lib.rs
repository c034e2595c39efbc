//! Decisions of an agent that balances vCPUs between the virtual machines of a Proxmox node.

pub mod text;
pub mod json;
pub mod clock;
pub mod logger;
pub mod signals;
pub mod load;
pub mod config;
pub mod vm_recognizer;
pub mod proxmox;
pub mod loan;
pub mod vm_state;
pub mod machine;
pub mod vcpu_change;
pub mod display;
pub mod tables;
pub mod remarks;
pub mod cpu_balancer;
pub mod laws;
pub mod step_laws;
pub mod text_laws;
pub mod profile_laws;
pub mod report_laws;
pub mod wording_laws;
