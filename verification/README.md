# vmm

The control plane of a virtual machine monitor, verified with Verus.

The monitor owns one machine and its configuration. Requests come in over an
API: create, boot, pause, snapshot, restore, reboot, shut down, delete, resize,
add and remove devices, and migrate to or from another host. What the monitor
decides stands in `src/` and is proved. What only the host can do (sockets, event
descriptors, threads, the hypervisor) it is asked for, one action at a time.

## How a request runs

A request is a plan: a sequence of phases. The monitor changes itself where it
can, and stops at the first phase that needs the host. The host performs the
action and hands back the outcome, which `Vmm::resume` takes up, until the
request is over. A failure drops the rest of the plan for what follows a
failure, and is reported as the error that belongs to the failed phase.

## Layout

- `config`, `device`, `endpoint`, `error`, `features`, `dispatch`, `signals`,
  `delivery`: the data, and the small rules on it.
- `plan`: phases, actions and outcomes. `model`: the monitor as a mathematical
  value, and how requests unfold on it.
- `lifecycle`, `devices`, `migration`: the plan of each request.
- `vmm`, `engine`, `requests`: the monitor itself.
- `control`: the control loop. `startup`: the start of the monitor and of its
  threads.
- `run`, `straight`, `faults`: what it means for a request to run to its end.
- `soundness` and the modules whose names end in `_laws`: what holds of all
  requests, and of the library as a whole.
- `app/`: the host around the library.
- `tests/`: the library on concrete values.
