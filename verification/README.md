# agent_vcpu

An agent that balances vCPUs between the virtual machines of a Proxmox node: a VM in distress
borrows a vCPU from a VM at rest, or from the host, and gives it back once its load has gone down;
a VM that stays in distress is reported to the live-migration daemon. Only VMs with the tag
`vcpu-agent` take part.

`src/` holds the decisions, verified with Verus:

- `machine`: the balancing cycle as a machine, over mathematical tables, and its invariant;
- `cpu_balancer`: the balancer that runs it, `laws`: what holds of the cycle as a whole;
- `loan`, `vm_state`, `load`, `tables`: who owes what, what is known of a VM, how loads compare;
- `vcpu_change`: setting the vCPUs of a VM, command by command;
- `vm_recognizer`, `config`: the profile of a VM and the settings;
- `proxmox`, `json`, `text`: what the tools of the node report;
- `signals`, `logger`, `display`, `remarks`, `clock`: what the agent writes.

Loads are doubles. The library keeps their bits and compares them; averages and percentages are
computed in `app/`, which also runs the commands, reads and writes the files and sleeps.

`tests/` runs the library, with a simulated node for the balancing cycle.
