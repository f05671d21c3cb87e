//! What the host is asked for by the requests on the life of a machine.

use vstd::prelude::*;
use crate::config::VmConfig;
use crate::error::{Failure, MigratableError, VmError};
use crate::features::Build;
use crate::lifecycle::{
    ask, boot_plan, clone_event, console_plan, create_plan, delete_plan, events_plan,
    landlock_plan, note, provided, reboot_plan, shutdown_plan, snapshot_plan, vmm_shutdown_plan,
};
use crate::model::Monitor;
use crate::plan::{
    wrapped, Action, Change, MonitorEvent, Notice, Outcome, Phase, StepView, VmSource, Wrap,
};
use crate::run::{course, plan_of, possible, Request};
use crate::straight::straight;
use crate::trace::{
    asked, followed, lemma_orders_add, lemma_orders_first, lemma_orders_one, lemma_straight_asked,
    orders,
};

verus! {

/// What a phase asks for.
pub open spec fn order_of(phase: Phase) -> Seq<(Action, Wrap)> {
    match phase {
        Phase::Ask(action, _, wrap) => seq![(action, wrap)],
        _ => Seq::empty(),
    }
}

/// What two phases ask for.
pub proof fn lemma_orders_two(a: Phase, b: Phase)
    ensures
        orders(seq![a, b]) == order_of(a) + order_of(b),
{
    assert(seq![a, b] =~= seq![a] + seq![b]);
    lemma_orders_first(a, seq![b]);
    lemma_orders_one(b);
}

/// What three phases ask for.
pub proof fn lemma_orders_three(a: Phase, b: Phase, c: Phase)
    ensures
        orders(seq![a, b, c]) == order_of(a) + order_of(b) + order_of(c),
{
    assert(seq![a, b, c] =~= seq![a] + seq![b, c]);
    lemma_orders_first(a, seq![b, c]);
    lemma_orders_two(b, c);
    assert(orders(seq![a, b, c]) =~= order_of(a) + order_of(b) + order_of(c));
}

/// What four phases ask for.
pub proof fn lemma_orders_four(a: Phase, b: Phase, c: Phase, d: Phase)
    ensures
        orders(seq![a, b, c, d]) == order_of(a) + order_of(b) + order_of(c) + order_of(d),
{
    assert(seq![a, b, c, d] =~= seq![a] + seq![b, c, d]);
    lemma_orders_first(a, seq![b, c, d]);
    lemma_orders_three(b, c, d);
    assert(orders(seq![a, b, c, d]) =~= order_of(a) + order_of(b) + order_of(c) + order_of(d));
}

/// What is asked for to clone the events of a machine.
pub proof fn lemma_orders_events(build: Build)
    ensures
        orders(events_plan(build, false)) == seq![
            (Action::CloneEvent(MonitorEvent::Exit), Wrap::EventFdClone),
            (Action::CloneEvent(MonitorEvent::Reset), Wrap::EventFdClone),
        ] + (if build.features.guest_debug {
            seq![(Action::CloneEvent(MonitorEvent::Debug), Wrap::EventFdClone)]
        } else {
            Seq::empty()
        }) + seq![(Action::CloneEvent(MonitorEvent::Activate), Wrap::EventFdClone)],
{
    let first = seq![
        clone_event(MonitorEvent::Exit, false),
        clone_event(MonitorEvent::Reset, false),
    ];
    let debug = provided(
        build.features.guest_debug,
        seq![clone_event(MonitorEvent::Debug, false)],
    );
    let last = seq![clone_event(MonitorEvent::Activate, false)];
    lemma_orders_add(first + debug, last);
    lemma_orders_add(first, debug);
    lemma_orders_two(
        clone_event(MonitorEvent::Exit, false),
        clone_event(MonitorEvent::Reset, false),
    );
    lemma_orders_one(clone_event(MonitorEvent::Debug, false));
    lemma_orders_one(clone_event(MonitorEvent::Activate, false));
}

/// Where a request that follows a straight plan has come to, by the actions
/// that it asks for in all.
proof fn lemma_by_actions(
    pairs: Seq<(Action, Wrap)>,
    all: Seq<Action>,
    at: (Monitor, StepView),
    outcomes: Seq<Outcome>,
    actions: Seq<Action>,
)
    requires
        followed(pairs, at, outcomes, actions),
        pairs.len() == all.len(),
        forall|i: int| 0 <= i < all.len() ==> #[trigger] all[i] == pairs[i].0,
    ensures
        actions.len() <= all.len(),
        actions == all.take(actions.len() as int),
        match at.1 {
            StepView::Perform(action) => actions.len() == outcomes.len() + 1 && actions.last()
                == action,
            StepView::Done(Ok(_)) => actions == all && outcomes.len() == all.len(),
            StepView::Done(Err(e)) => {
                &&& outcomes.len() == actions.len()
                &&& actions.len() > 0
                &&& outcomes.last() matches Outcome::Failed(fault)
                &&& e == wrapped(pairs[actions.len() - 1].1, fault)
                &&& pairs[actions.len() - 1].1 != Wrap::Ignore
                &&& actions.last() == pairs[actions.len() - 1].0
            },
        },
        forall|i: int|
            0 <= i < outcomes.len() && !(at.1 matches StepView::Done(Err(_)) && i + 1
                == outcomes.len()) ==> (#[trigger] outcomes[i] == Outcome::Done || pairs[i].1
                == Wrap::Ignore),
{
    reveal(followed);
    assert forall|i: int| 0 <= i < actions.len() implies actions[i] == all.take(
        actions.len() as int,
    )[i] by {
        assert(all[i] == pairs[i].0);
    }
    assert(actions =~= all.take(actions.len() as int));
    assert(all.take(all.len() as int) =~= all);
}

/// What a boot asks for.
#[verifier::rlimit(30)]
proof fn lemma_boot_orders(m: Monitor)
    requires
        m.vm_config is Some,
    ensures
        straight(boot_plan(m)),
        orders(boot_plan(m)) == (if m.console_info {
            Seq::empty()
        } else {
            seq![(Action::CreateConsole, Wrap::CreateConsoleDevices)]
        }) + (if m.vm is Some {
            Seq::empty()
        } else {
            orders(events_plan(m.build, false)) + seq![
                (Action::CreateVm(VmSource::Fresh), Wrap::Machine),
            ]
        }) + seq![(Action::BootVm, Wrap::Machine)],
{
    let console = provided(!m.console_info, console_plan(Wrap::CreateConsoleDevices));
    let events = events_plan(m.build, false);
    let creation = seq![
        ask(Action::CreateVm(VmSource::Fresh), Wrap::Machine),
        Phase::Apply(Change::InstallVm),
    ];
    let machine = provided(m.vm is None, events + creation);
    let end = seq![ask(Action::BootVm, Wrap::Machine), note(Notice::Booted)];
    lemma_orders_first(note(Notice::Booting), console + machine + end);
    lemma_orders_add(console + machine, end);
    lemma_orders_add(console, machine);
    lemma_orders_add(events, creation);
    lemma_orders_two(creation[0], creation[1]);
    lemma_orders_two(end[0], end[1]);
    lemma_orders_two(
        ask(Action::CreateConsole, Wrap::CreateConsoleDevices),
        Phase::Apply(Change::ConsoleReady),
    );
}

/// A boot asks for console devices where there are none, then, where there is
/// no machine, for clones of the events and a new machine, and last of all,
/// once, for the boot of the machine. Where it succeeds, it has asked for all
/// of that, and all of it succeeded. Where it fails, the last that it asked for
/// failed, and that is its error.
#[verifier::rlimit(30)]
pub proof fn law_boot_actions(m: Monitor, outcomes: Seq<Outcome>)
    requires
        m.vm_config is Some,
        possible(m, Request::Boot, outcomes),
    ensures
        ({
            let end = course(m, Request::Boot, outcomes);
            let actions = asked(m, Request::Boot, outcomes);
            let all = (if m.console_info {
                Seq::empty()
            } else {
                seq![Action::CreateConsole]
            }) + (if m.vm is Some {
                Seq::empty()
            } else {
                seq![
                    Action::CloneEvent(MonitorEvent::Exit),
                    Action::CloneEvent(MonitorEvent::Reset),
                ] + (if m.build.features.guest_debug {
                    seq![Action::CloneEvent(MonitorEvent::Debug)]
                } else {
                    Seq::empty()
                }) + seq![
                    Action::CloneEvent(MonitorEvent::Activate),
                    Action::CreateVm(VmSource::Fresh),
                ]
            }) + seq![Action::BootVm];
            &&& actions == all.take(actions.len() as int)
            &&& actions.len() <= all.len()
            &&& match end.1 {
                StepView::Perform(action) => actions.len() == outcomes.len() + 1 && actions.last()
                    == action,
                StepView::Done(Ok(_)) => {
                    &&& actions == all
                    &&& actions.last() == Action::BootVm
                    &&& forall|i: int|
                        0 <= i < actions.len() - 1 ==> #[trigger] actions[i] != Action::BootVm
                    &&& actions.contains(Action::CreateVm(VmSource::Fresh)) <==> m.vm is None
                    &&& actions.contains(Action::CreateConsole) <==> !m.console_info
                    &&& forall|i: int|
                        0 <= i < outcomes.len() ==> #[trigger] outcomes[i] == Outcome::Done
                },
                StepView::Done(Err(e)) => {
                    &&& outcomes.len() == actions.len()
                    &&& outcomes.last() matches Outcome::Failed(fault)
                    &&& e == Failure::Vm(
                        match actions.last() {
                            Action::CreateConsole => VmError::CreateConsoleDevices(fault),
                            Action::CloneEvent(_) => VmError::EventFdClone(fault),
                            _ => VmError::Machine(fault),
                        },
                    )
                },
            }
        }),
{
    let pairs = orders(boot_plan(m));
    let all = boot_list(m);
    let end = course(m, Request::Boot, outcomes);
    let actions = asked(m, Request::Boot, outcomes);
    lemma_boot_orders(m);
    lemma_boot_list(m);
    lemma_straight_asked(m, Request::Boot, outcomes, boot_plan(m));
    lemma_by_actions(pairs, all, end, outcomes, actions);
}

/// All that a boot asks for.
spec fn boot_list(m: Monitor) -> Seq<Action> {
    (if m.console_info {
        Seq::empty()
    } else {
        seq![Action::CreateConsole]
    }) + (if m.vm is Some {
        Seq::empty()
    } else {
        seq![Action::CloneEvent(MonitorEvent::Exit), Action::CloneEvent(MonitorEvent::Reset)] + (
        if m.build.features.guest_debug {
            seq![Action::CloneEvent(MonitorEvent::Debug)]
        } else {
            Seq::empty()
        }) + seq![
            Action::CloneEvent(MonitorEvent::Activate),
            Action::CreateVm(VmSource::Fresh),
        ]
    }) + seq![Action::BootVm]
}

/// What a boot asks for, with and without what its failures are reported as.
#[verifier::rlimit(30)]
proof fn lemma_boot_list(m: Monitor)
    requires
        m.vm_config is Some,
    ensures
        ({
            let all = boot_list(m);
            let pairs = orders(boot_plan(m));
            &&& all.len() == pairs.len()
            &&& forall|i: int| 0 <= i < all.len() ==> #[trigger] all[i] == pairs[i].0
            &&& forall|i: int|
                0 <= i < pairs.len() ==> (#[trigger] pairs[i]).1 == (match pairs[i].0 {
                    Action::CreateConsole => Wrap::CreateConsoleDevices,
                    Action::CloneEvent(_) => Wrap::EventFdClone,
                    _ => Wrap::Machine,
                })
            &&& all.last() == Action::BootVm
            &&& forall|i: int| 0 <= i < all.len() - 1 ==> #[trigger] all[i] != Action::BootVm
            &&& all.contains(Action::CreateVm(VmSource::Fresh)) <==> m.vm is None
            &&& all.contains(Action::CreateConsole) <==> !m.console_info
        }),
{
    lemma_boot_orders(m);
    lemma_orders_events(m.build);
    let all = boot_list(m);
    if m.vm is None {
        assert(all[all.len() - 2] == Action::CreateVm(VmSource::Fresh));
    }
    if !m.console_info {
        assert(all[0] == Action::CreateConsole);
    }
}

/// What a reboot asks for.
#[verifier::rlimit(30)]
proof fn lemma_reboot_orders(m: Monitor)
    requires
        m.vm is Some,
    ensures
        straight(reboot_plan(m)),
        orders(reboot_plan(m)) == seq![(Action::ShutdownVm, Wrap::Machine)] + orders(
            events_plan(m.build, false),
        ) + seq![
            (Action::DrainReset, Wrap::Ignore),
            (Action::CreateConsole, Wrap::CreateConsoleDevices),
            (Action::CreateVm(VmSource::Fresh), Wrap::Machine),
            (Action::BootVm, Wrap::Machine),
        ],
{
    let stop = seq![
        Phase::Apply(Change::RetireVm),
        ask(Action::ShutdownVm, Wrap::Machine),
        Phase::Apply(Change::DrainConsole),
    ];
    let events = events_plan(m.build, false);
    let drain = seq![ask(Action::DrainReset, Wrap::Ignore)];
    let console = console_plan(Wrap::CreateConsoleDevices);
    let start = seq![
        ask(Action::CreateVm(VmSource::Fresh), Wrap::Machine),
        ask(Action::BootVm, Wrap::Machine),
        Phase::Apply(Change::ReinstallVm),
        note(Notice::Rebooted),
    ];
    lemma_orders_first(note(Notice::Rebooting), stop + events + drain + console + start);
    lemma_orders_add(stop + events + drain + console, start);
    lemma_orders_add(stop + events + drain, console);
    lemma_orders_add(stop + events, drain);
    lemma_orders_add(stop, events);
    lemma_orders_three(stop[0], stop[1], stop[2]);
    lemma_orders_one(drain[0]);
    lemma_orders_two(console[0], console[1]);
    lemma_orders_four(start[0], start[1], start[2], start[3]);
    assert(orders(reboot_plan(m)) =~= seq![(Action::ShutdownVm, Wrap::Machine)] + orders(events)
        + seq![
        (Action::DrainReset, Wrap::Ignore),
        (Action::CreateConsole, Wrap::CreateConsoleDevices),
        (Action::CreateVm(VmSource::Fresh), Wrap::Machine),
        (Action::BootVm, Wrap::Machine),
    ]);
}

/// A reboot shuts the machine down, clones the events, takes a pending reset
/// off its event, and asks for console devices, a new machine and its boot, in
/// that order. Where it succeeds, it has asked for all of that, and all of it
/// succeeded, but for the pending reset, which does not count. Where it fails,
/// the last that it asked for failed, and that is its error.
#[verifier::rlimit(30)]
pub proof fn law_reboot_actions(m: Monitor, outcomes: Seq<Outcome>)
    requires
        m.vm is Some,
        possible(m, Request::Reboot, outcomes),
    ensures
        ({
            let end = course(m, Request::Reboot, outcomes);
            let actions = asked(m, Request::Reboot, outcomes);
            let all = seq![
                Action::ShutdownVm,
                Action::CloneEvent(MonitorEvent::Exit),
                Action::CloneEvent(MonitorEvent::Reset),
            ] + (if m.build.features.guest_debug {
                seq![Action::CloneEvent(MonitorEvent::Debug)]
            } else {
                Seq::empty()
            }) + seq![
                Action::CloneEvent(MonitorEvent::Activate),
                Action::DrainReset,
                Action::CreateConsole,
                Action::CreateVm(VmSource::Fresh),
                Action::BootVm,
            ];
            &&& actions == all.take(actions.len() as int)
            &&& actions.len() <= all.len()
            &&& match end.1 {
                StepView::Perform(action) => actions.len() == outcomes.len() + 1 && actions.last()
                    == action,
                StepView::Done(Ok(_)) => actions == all && forall|i: int|
                    0 <= i < outcomes.len() && actions[i] != Action::DrainReset
                        ==> #[trigger] outcomes[i] == Outcome::Done,
                StepView::Done(Err(e)) => {
                    &&& outcomes.len() == actions.len()
                    &&& outcomes.last() matches Outcome::Failed(fault)
                    &&& actions.last() != Action::DrainReset
                    &&& e == Failure::Vm(
                        match actions.last() {
                            Action::CreateConsole => VmError::CreateConsoleDevices(fault),
                            Action::CloneEvent(_) => VmError::EventFdClone(fault),
                            _ => VmError::Machine(fault),
                        },
                    )
                },
            }
        }),
{
    let pairs = orders(reboot_plan(m));
    let all = reboot_list(m.build);
    let end = course(m, Request::Reboot, outcomes);
    let actions = asked(m, Request::Reboot, outcomes);
    lemma_reboot_orders(m);
    lemma_reboot_list(m);
    lemma_straight_asked(m, Request::Reboot, outcomes, reboot_plan(m));
    lemma_by_actions(pairs, all, end, outcomes, actions);
    assert forall|i: int|
        0 <= i < outcomes.len() && actions[i] != Action::DrainReset && end.1 matches StepView::Done(
            Ok(_),
        ) implies #[trigger] outcomes[i] == Outcome::Done by {
        assert(all[i] == pairs[i].0);
    }
}

/// All that a reboot asks for.
spec fn reboot_list(build: Build) -> Seq<Action> {
    seq![
        Action::ShutdownVm,
        Action::CloneEvent(MonitorEvent::Exit),
        Action::CloneEvent(MonitorEvent::Reset),
    ] + (if build.features.guest_debug {
        seq![Action::CloneEvent(MonitorEvent::Debug)]
    } else {
        Seq::empty()
    }) + seq![
        Action::CloneEvent(MonitorEvent::Activate),
        Action::DrainReset,
        Action::CreateConsole,
        Action::CreateVm(VmSource::Fresh),
        Action::BootVm,
    ]
}

/// What a reboot asks for, with and without what its failures are reported as.
#[verifier::rlimit(30)]
proof fn lemma_reboot_list(m: Monitor)
    requires
        m.vm is Some,
    ensures
        ({
            let all = reboot_list(m.build);
            let pairs = orders(reboot_plan(m));
            &&& all.len() == pairs.len()
            &&& forall|i: int| 0 <= i < all.len() ==> #[trigger] all[i] == pairs[i].0
            &&& forall|i: int|
                0 <= i < pairs.len() ==> (#[trigger] pairs[i]).1 == (match pairs[i].0 {
                    Action::CreateConsole => Wrap::CreateConsoleDevices,
                    Action::CloneEvent(_) => Wrap::EventFdClone,
                    Action::DrainReset => Wrap::Ignore,
                    _ => Wrap::Machine,
                })
        }),
{
    lemma_reboot_orders(m);
    lemma_orders_events(m.build);
}

/// What a creation asks for.
proof fn lemma_create_orders(m: Monitor, config: VmConfig)
    requires
        m.vm_config is None,
    ensures
        straight(create_plan(m, config)),
        orders(create_plan(m, config)) == seq![
            (Action::CreateConsole, Wrap::CreateConsoleDevices),
        ] + (if config.landlock_enable {
            seq![(Action::ApplyLandlock, Wrap::ApplyLandlock)]
        } else {
            Seq::empty()
        }),
{
    let store = seq![Phase::Apply(Change::StoreConfig(config))];
    let console = console_plan(Wrap::CreateConsoleDevices);
    let landlock = landlock_plan(config.landlock_enable, Wrap::ApplyLandlock);
    lemma_orders_add(store + console, landlock);
    lemma_orders_first(store[0], console);
    lemma_orders_two(console[0], console[1]);
    lemma_orders_one(ask(Action::ApplyLandlock, Wrap::ApplyLandlock));
}

/// A creation asks for console devices, and then for the confinement of the
/// monitor where the configuration wants it. Where it succeeds, it has asked
/// for that, and it succeeded. Where it fails, the last that it asked for
/// failed, and that is its error.
pub proof fn law_create_actions(m: Monitor, config: VmConfig, outcomes: Seq<Outcome>)
    requires
        m.vm_config is None,
        possible(m, Request::Create(config), outcomes),
    ensures
        ({
            let end = course(m, Request::Create(config), outcomes);
            let actions = asked(m, Request::Create(config), outcomes);
            let all = if config.landlock_enable {
                seq![Action::CreateConsole, Action::ApplyLandlock]
            } else {
                seq![Action::CreateConsole]
            };
            &&& actions == all.take(actions.len() as int)
            &&& actions.len() <= all.len()
            &&& match end.1 {
                StepView::Perform(action) => actions.len() == outcomes.len() + 1 && actions.last()
                    == action,
                StepView::Done(Ok(_)) => actions == all && forall|i: int|
                    0 <= i < outcomes.len() ==> #[trigger] outcomes[i] == Outcome::Done,
                StepView::Done(Err(e)) => {
                    &&& outcomes.len() == actions.len()
                    &&& outcomes.last() matches Outcome::Failed(fault)
                    &&& e == Failure::Vm(
                        match actions.last() {
                            Action::CreateConsole => VmError::CreateConsoleDevices(fault),
                            _ => VmError::ApplyLandlock(fault),
                        },
                    )
                },
            }
        }),
{
    let request = Request::Create(config);
    let pairs = orders(create_plan(m, config));
    let end = course(m, request, outcomes);
    let actions = asked(m, request, outcomes);
    lemma_create_orders(m, config);
    lemma_straight_asked(m, request, outcomes, create_plan(m, config));
    let all = pairs.map_values(|p: (Action, Wrap)| p.0);
    lemma_by_actions(pairs, all, end, outcomes, actions);
    assert(all =~= if config.landlock_enable {
        seq![Action::CreateConsole, Action::ApplyLandlock]
    } else {
        seq![Action::CreateConsole]
    });
    assert forall|i: int| 0 <= i < pairs.len() implies #[trigger] pairs[i].1 == (match pairs[i].0 {
        Action::CreateConsole => Wrap::CreateConsoleDevices,
        _ => Wrap::ApplyLandlock,
    }) by {}
}

/// What a snapshot asks for.
proof fn lemma_snapshot_orders(m: Monitor, url: String)
    requires
        m.vm is Some,
    ensures
        straight(snapshot_plan(m, url)),
        orders(snapshot_plan(m, url)) == seq![
            (Action::SnapshotVm, Wrap::Snapshot),
            (Action::SendSnapshot(url), Wrap::SnapshotSend),
        ],
{
    let plan = snapshot_plan(m, url);
    lemma_orders_three(plan[0], plan[1], plan[2]);
    assert(orders(plan) =~= seq![
        (Action::SnapshotVm, Wrap::Snapshot),
        (Action::SendSnapshot(url), Wrap::SnapshotSend),
    ]);
}

/// A snapshot of the machine is taken, and then stored where it was asked for.
/// Where the request succeeds, both were asked for and succeeded. Where it
/// fails, the last that it asked for failed, and that is its error.
pub proof fn law_snapshot_actions(m: Monitor, url: String, outcomes: Seq<Outcome>)
    requires
        m.vm is Some,
        possible(m, Request::Snapshot(url), outcomes),
    ensures
        ({
            let end = course(m, Request::Snapshot(url), outcomes);
            let actions = asked(m, Request::Snapshot(url), outcomes);
            let all = seq![Action::SnapshotVm, Action::SendSnapshot(url)];
            &&& actions == all.take(actions.len() as int)
            &&& actions.len() <= all.len()
            &&& match end.1 {
                StepView::Perform(action) => actions.len() == outcomes.len() + 1 && actions.last()
                    == action,
                StepView::Done(Ok(_)) => actions == all && forall|i: int|
                    0 <= i < outcomes.len() ==> #[trigger] outcomes[i] == Outcome::Done,
                StepView::Done(Err(e)) => {
                    &&& outcomes.len() == actions.len()
                    &&& outcomes.last() matches Outcome::Failed(fault)
                    &&& e == Failure::Vm(
                        match actions.last() {
                            Action::SnapshotVm => VmError::Snapshot(MigratableError::Machine(fault)),
                            _ => VmError::SnapshotSend(MigratableError::Machine(fault)),
                        },
                    )
                },
            }
        }),
{
    let request = Request::Snapshot(url);
    let pairs = orders(snapshot_plan(m, url));
    let end = course(m, request, outcomes);
    let actions = asked(m, request, outcomes);
    lemma_snapshot_orders(m, url);
    lemma_straight_asked(m, request, outcomes, snapshot_plan(m, url));
    let all = pairs.map_values(|p: (Action, Wrap)| p.0);
    lemma_by_actions(pairs, all, end, outcomes, actions);
    assert(all =~= seq![Action::SnapshotVm, Action::SendSnapshot(url)]);
}

/// What the requests that end a machine ask for.
proof fn lemma_ending_orders(m: Monitor)
    ensures
        straight(delete_plan(m)),
        straight(vmm_shutdown_plan(m)),
        m.vm is Some ==> straight(shutdown_plan(m)) && orders(shutdown_plan(m)) == seq![
            (Action::ShutdownVm, Wrap::Machine),
        ],
        orders(vmm_shutdown_plan(m)) == orders(delete_plan(m)),
        orders(delete_plan(m)) == (if m.vm is Some && m.vm_config is Some {
            seq![(Action::ShutdownVm, Wrap::Machine)]
        } else {
            Seq::empty()
        }),
{
    let stop = seq![
        Phase::Apply(Change::RetireVm),
        Phase::Apply(Change::DrainConsole),
        ask(Action::ShutdownVm, Wrap::Machine),
        note(Notice::Shutdown),
    ];
    let forget = seq![Phase::Apply(Change::ClearConfig), note(Notice::Deleted)];
    let last = seq![note(Notice::MonitorShutdown)];
    lemma_orders_four(stop[0], stop[1], stop[2], stop[3]);
    assert(orders(stop) =~= seq![(Action::ShutdownVm, Wrap::Machine)]);
    lemma_orders_two(forget[0], forget[1]);
    lemma_orders_one(last[0]);
    lemma_orders_add(provided(m.vm is Some, shutdown_plan(m)), forget);
    lemma_orders_add(delete_plan(m), last);
    assert(orders(delete_plan(m)) =~= if m.vm is Some && m.vm_config is Some {
        seq![(Action::ShutdownVm, Wrap::Machine)]
    } else {
        Seq::empty()
    });
    assert(orders(vmm_shutdown_plan(m)) =~= orders(delete_plan(m)));
}

/// The shutdown of a machine, its deletion and the shutdown of the monitor ask
/// the host for one thing, where there is a machine, and for nothing where
/// there is none: that the machine is shut down. Without a configuration there
/// is nothing to delete. They succeed where that
/// succeeds, and fail with the machine's error where it fails.
pub proof fn law_ending_actions(m: Monitor, request: Request, outcomes: Seq<Outcome>)
    requires
        request is Shutdown || request is Delete || request is MonitorShutdown,
        request is Shutdown ==> m.vm is Some,
        possible(m, request, outcomes),
    ensures
        ({
            let stops = m.vm is Some && (request is Shutdown || m.vm_config is Some);
            let end = course(m, request, outcomes);
            let actions = asked(m, request, outcomes);
            &&& actions == (if stops {
                seq![Action::ShutdownVm]
            } else {
                Seq::empty()
            })
            &&& match end.1 {
                StepView::Perform(action) => action == Action::ShutdownVm && outcomes.len() == 0,
                StepView::Done(Ok(_)) => if stops {
                    outcomes == seq![Outcome::Done]
                } else {
                    outcomes.len() == 0
                },
                StepView::Done(Err(e)) => {
                    &&& stops
                    &&& outcomes.len() == 1
                    &&& outcomes[0] matches Outcome::Failed(fault)
                    &&& e == Failure::Vm(VmError::Machine(fault))
                },
            }
        }),
{
    let stops = m.vm is Some && (request is Shutdown || m.vm_config is Some);
    let plan = plan_of(m, request);
    let pairs = orders(plan);
    let end = course(m, request, outcomes);
    let actions = asked(m, request, outcomes);
    lemma_ending_orders(m);
    lemma_straight_asked(m, request, outcomes, plan);
    let all = pairs.map_values(|p: (Action, Wrap)| p.0);
    lemma_by_actions(pairs, all, end, outcomes, actions);
    reveal(followed);
    assert(all =~= if stops {
        seq![Action::ShutdownVm]
    } else {
        Seq::empty()
    });
    assert(actions.len() == 0 ==> end.1 matches StepView::Done(Ok(_)));
    assert(actions =~= all);
    assert(end.1 matches StepView::Done(Ok(_)) ==> outcomes =~= if stops {
        seq![Outcome::Done]
    } else {
        Seq::empty()
    });
}

} // verus!
