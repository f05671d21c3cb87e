//! What holds of the life of a machine, whatever the host reports.

use vstd::prelude::*;
use crate::config::VmConfig;
use crate::error::VmError;
use crate::features::Build;
use crate::lifecycle::{
    ask, boot_plan, console_plan, create_plan, delete_plan, events_plan, note, provided,
    reboot_plan, shutdown_plan, snapshot_plan,
};
use crate::model::{advanced, applied, refusal, settled, Monitor};
use crate::plan::{
    wrapped, Action, Change, Notice, Outcome, Phase, Recovery, ReplyView, StepView, VmSource, Wrap,
};
use crate::run::{course, lemma_failed_ends, lemma_step, plan_of, possible, taken_up, Request};
use crate::straight::{
    all_quiet, changed, lemma_announced, lemma_changed_chain, lemma_changed_none,
    lemma_changed_prefix, lemma_over,
    lemma_place, lemma_quiet_chain, lemma_untouched, straight,
};
use crate::trace::{followed, lemma_straight_asked};

verus! {

/// What a boot does between its two announcements.
spec fn boot_steps(m: Monitor) -> Seq<Phase> {
    provided(!m.console_info, console_plan(Wrap::CreateConsoleDevices)) + provided(
        m.vm is None,
        events_plan(m.build, false) + seq![
            ask(Action::CreateVm(VmSource::Fresh), Wrap::Machine),
            Phase::Apply(Change::InstallVm),
        ],
    ) + seq![ask(Action::BootVm, Wrap::Machine)]
}

/// Phases that the host is asked for change nothing by themselves.
proof fn lemma_asking_changes_nothing(m: Monitor, plan: Seq<Phase>, k: int)
    requires
        0 <= k <= plan.len(),
        forall|i: int| 0 <= i < plan.len() ==> #[trigger] plan[i] is Ask,
    ensures
        changed(m, plan, k) == m,
    decreases k,
{
    reveal_with_fuel(changed, 1);
    if k > 0 {
        lemma_asking_changes_nothing(m, plan, k - 1);
        assert(plan[k - 1] is Ask);
    }
}

/// The changes of the pieces that plans are made of.
proof fn lemma_changed_pieces(m: Monitor, wrap: Wrap, build: Build)
    ensures
        changed(m, console_plan(wrap), 2) == (Monitor { console_info: true, ..m }),
        changed(m, events_plan(build, false), events_plan(build, false).len() as int) == m,
        changed(
            m,
            seq![
                ask(Action::CreateVm(VmSource::Fresh), Wrap::Machine),
                Phase::Apply(Change::InstallVm),
            ],
            2,
        ) == (Monitor { vm: Some(None), ..m }),
        all_quiet(console_plan(wrap)),
        all_quiet(events_plan(build, false)),
        all_quiet(
            seq![
                ask(Action::CreateVm(VmSource::Fresh), Wrap::Machine),
                Phase::Apply(Change::InstallVm),
            ],
        ),
{
    reveal_with_fuel(changed, 3);
    let events = events_plan(build, false);
    assert(all_quiet(events));
    assert forall|i: int| 0 <= i < events.len() implies #[trigger] events[i] is Ask by {}
    lemma_asking_changes_nothing(m, events, events.len() as int);
}

/// The steps of a boot are quiet, and what they come to.
proof fn lemma_boot_steps(m: Monitor, opened: Monitor)
    requires
        opened.vm == m.vm,
        opened.console_info == m.console_info,
    ensures
        all_quiet(boot_steps(m)),
        changed(opened, boot_steps(m), boot_steps(m).len() as int) == (Monitor {
            console_info: true,
            vm: if m.vm is None {
                Some(None)
            } else {
                m.vm
            },
            ..opened
        }),
{
    let console = provided(!m.console_info, console_plan(Wrap::CreateConsoleDevices));
    let events = events_plan(m.build, false);
    let creation = seq![
        ask(Action::CreateVm(VmSource::Fresh), Wrap::Machine),
        Phase::Apply(Change::InstallVm),
    ];
    let machine = provided(m.vm is None, events + creation);
    let boot = seq![ask(Action::BootVm, Wrap::Machine)];
    let ready = Monitor { console_info: true, ..opened };
    let made = Monitor {
        vm: if m.vm is None {
            Some(None)
        } else {
            m.vm
        },
        ..ready
    };
    lemma_changed_pieces(opened, Wrap::CreateConsoleDevices, m.build);
    lemma_changed_pieces(ready, Wrap::CreateConsoleDevices, m.build);
    lemma_quiet_chain(events, creation);
    lemma_quiet_chain(console, machine);
    lemma_quiet_chain(console + machine, boot);
    lemma_changed_none(opened, console);
    lemma_changed_none(ready, machine);
    assert(changed(opened, console, console.len() as int) == ready);
    lemma_changed_chain(ready, events, creation, 2);
    assert(changed(ready, machine, machine.len() as int) == made);
    lemma_changed_chain(opened, console, machine, machine.len() as int);
    lemma_changed_chain(opened, console + machine, boot, 1);
    lemma_asking_changes_nothing(made, boot, 1);
}

/// A boot leaves a machine that is there already.
proof fn lemma_boot_keeps_machine(m: Monitor, opened: Monitor, k: int)
    requires
        opened.vm == m.vm,
        m.vm is Some,
        0 <= k <= boot_steps(m).len(),
    ensures
        changed(opened, boot_steps(m), k).vm == m.vm,
{
    let console = provided(!m.console_info, console_plan(Wrap::CreateConsoleDevices));
    let plan = boot_steps(m);
    assert(plan =~= console + seq![ask(Action::BootVm, Wrap::Machine)]);
    lemma_changed_none(opened, plan);
    lemma_untouched(opened, plan, 0, k, |x: Monitor| x.vm);
}

/// What a boot has changed before its last phase.
proof fn lemma_boot_on_the_way(m: Monitor, k: int)
    requires
        1 <= k < boot_plan(m).len(),
        m.vm_config is Some,
    ensures
        changed(m, boot_plan(m), k).vm_config == m.vm_config,
        changed(m, boot_plan(m), k).notices == m.notices.push(Notice::Booting),
        m.vm is Some ==> changed(m, boot_plan(m), k).vm == m.vm,
{
    let middle = boot_steps(m);
    let opened = Monitor { notices: m.notices.push(Notice::Booting), ..m };
    assert(boot_plan(m) =~= seq![note(Notice::Booting)] + middle + seq![note(Notice::Booted)]);
    lemma_boot_steps(m, opened);
    lemma_announced(m, Notice::Booting, middle, Notice::Booted, k);
    if m.vm is Some {
        lemma_boot_keeps_machine(m, opened, k - 1);
    }
}

/// What a boot has changed at its end.
proof fn lemma_boot_at_the_end(m: Monitor)
    requires
        m.vm_config is Some,
    ensures
        straight(boot_plan(m)),
        boot_plan(m).len() > 2,
        boot_plan(m)[0] is Apply,
        boot_plan(m)[boot_plan(m).len() - 1] is Apply,
        changed(m, boot_plan(m), boot_plan(m).len() as int) == (Monitor {
            console_info: true,
            vm: if m.vm is None {
                Some(None)
            } else {
                m.vm
            },
            notices: m.notices.push(Notice::Booting).push(Notice::Booted),
            ..m
        }),
{
    let middle = boot_steps(m);
    let opened = Monitor { notices: m.notices.push(Notice::Booting), ..m };
    assert(boot_plan(m) =~= seq![note(Notice::Booting)] + middle + seq![note(Notice::Booted)]);
    lemma_boot_steps(m, opened);
    lemma_announced(m, Notice::Booting, middle, Notice::Booted, middle.len() as int + 2);
}

/// A boot leaves the configuration, and a machine that is there already,
/// whatever the host reports. It announces that it begins. That it is done is
/// announced where it succeeds, and only there; then there is a machine, and
/// there are console devices, and nothing else has changed.
#[verifier::rlimit(30)]
pub proof fn law_boot(m: Monitor, outcomes: Seq<Outcome>)
    requires
        m.vm_config is Some,
        possible(m, Request::Boot, outcomes),
    ensures
        ({
            let end = course(m, Request::Boot, outcomes);
            &&& end.0.vm_config == m.vm_config
            &&& m.vm is Some ==> end.0.vm == m.vm
            &&& end.1 matches StepView::Done(Ok(reply)) ==> reply == ReplyView::Done && end.0 == (
            Monitor {
                vm: if m.vm is None {
                    Some(None)
                } else {
                    m.vm
                },
                console_info: true,
                notices: m.notices.push(Notice::Booting).push(Notice::Booted),
                ..m
            })
            &&& !(end.1 matches StepView::Done(Ok(_))) ==> end.0.notices == m.notices.push(
                Notice::Booting,
            )
        }),
{
    lemma_boot_at_the_end(m);
    let k = lemma_place(m, Request::Boot, outcomes);
    lemma_over(m, Request::Boot, outcomes);
    if k < boot_plan(m).len() {
        lemma_boot_on_the_way(m, k);
    }
}

/// A new machine is not there before it has been created.
#[verifier::rlimit(30)]
proof fn lemma_not_yet_created(ready: Monitor, build: Build, i: int)
    requires
        0 <= i <= events_plan(build, false).len() + 1,
    ensures
        changed(
            ready,
            events_plan(build, false) + seq![
                ask(Action::CreateVm(VmSource::Fresh), Wrap::Machine),
                Phase::Apply(Change::InstallVm),
            ],
            i,
        ) == ready,
{
    let events = events_plan(build, false);
    let creation = seq![
        ask(Action::CreateVm(VmSource::Fresh), Wrap::Machine),
        Phase::Apply(Change::InstallVm),
    ];
    let n = events.len() as int;
    assert forall|x: int| 0 <= x < events.len() implies #[trigger] events[x] is Ask by {}
    if i <= n {
        lemma_changed_prefix(ready, events, events + creation, i);
        lemma_asking_changes_nothing(ready, events, i);
    } else {
        lemma_asking_changes_nothing(ready, events, n);
        lemma_changed_chain(ready, events, creation, 1);
        assert(changed(ready, creation, 1) == ready) by {
            reveal_with_fuel(changed, 2);
        }
    }
}

/// What a boot has changed behind its console devices, before its last step.
proof fn lemma_behind_console(
    opened: Monitor,
    ready: Monitor,
    console: Seq<Phase>,
    machine: Seq<Phase>,
    boot: Seq<Phase>,
    i: int,
)
    requires
        0 <= i <= machine.len(),
        changed(opened, console, console.len() as int) == ready,
        changed(ready, machine, i) == ready,
    ensures
        changed(opened, console + machine + boot, console.len() + i) == ready,
{
    assert(console + machine + boot =~= console + (machine + boot));
    lemma_changed_chain(opened, console, machine + boot, i);
    lemma_changed_prefix(ready, machine, machine + boot, i);
}

/// What the steps of a boot have changed when something is asked for.
#[verifier::rlimit(30)]
proof fn lemma_boot_step(m: Monitor, opened: Monitor, j: int)
    requires
        1 <= j < boot_steps(m).len(),
        boot_steps(m)[j - 1] is Ask,
        opened.vm == m.vm,
        opened.console_info == m.console_info,
    ensures
        boot_steps(m)[j - 1]->Ask_0 != Action::BootVm,
        changed(opened, boot_steps(m), j) == (Monitor {
            console_info: m.console_info || boot_steps(m)[j - 1]->Ask_0 != Action::CreateConsole,
            ..opened
        }),
{
    let console = provided(!m.console_info, console_plan(Wrap::CreateConsoleDevices));
    let events = events_plan(m.build, false);
    let creation = seq![
        ask(Action::CreateVm(VmSource::Fresh), Wrap::Machine),
        Phase::Apply(Change::InstallVm),
    ];
    let machine = provided(m.vm is None, events + creation);
    let boot = seq![ask(Action::BootVm, Wrap::Machine)];
    let plan = console + machine + boot;
    let ready = Monitor { console_info: true, ..opened };
    assert(boot_steps(m) == plan);
    if j <= console.len() {
        assert(plan[j - 1] == console[j - 1]);
        assert(j == 1);
        lemma_changed_prefix(opened, console, plan, j);
        assert(changed(opened, console, 1) == opened) by {
            reveal_with_fuel(changed, 2);
        }
    } else {
        let i = j - console.len();
        assert(plan[j - 1] == machine[i - 1]);
        assert(i <= events.len() + 1);
        lemma_changed_pieces(opened, Wrap::CreateConsoleDevices, m.build);
        lemma_changed_none(opened, console);
        assert(changed(opened, console, console.len() as int) == ready);
        lemma_not_yet_created(ready, m.build, i);
        lemma_behind_console(opened, ready, console, machine, boot, i);
        if i <= events.len() {
            assert(machine[i - 1] == events[i - 1]);
            assert(events[i - 1]->Ask_0 is CloneEvent);
        } else {
            assert(machine[i - 1] == creation[0]);
        }
    }
}

/// While a boot awaits something of the host, it has announced that it begins.
/// There are console devices once anything else is awaited than these, and a
/// new machine only once its boot is awaited. So a machine that could not be
/// created is not there.
#[verifier::rlimit(30)]
pub proof fn law_boot_on_the_way(m: Monitor, outcomes: Seq<Outcome>)
    requires
        m.vm_config is Some,
        possible(m, Request::Boot, outcomes),
    ensures
        course(m, Request::Boot, outcomes).1 matches StepView::Perform(action) ==> course(
            m,
            Request::Boot,
            outcomes,
        ).0.at_rest() == (Monitor {
            console_info: m.console_info || action != Action::CreateConsole,
            vm: if m.vm is None && action == Action::BootVm {
                Some(None)
            } else {
                m.vm
            },
            notices: m.notices.push(Notice::Booting),
            ..m
        }),
{
    lemma_boot_at_the_end(m);
    let k = lemma_place(m, Request::Boot, outcomes);
    if course(m, Request::Boot, outcomes).1 is Perform {
        lemma_boot_asking(m, k);
        lemma_at_rest_with(m, changed(m, boot_plan(m), k));
    }
}

/// What a boot has changed when something is asked for.
#[verifier::rlimit(30)]
proof fn lemma_boot_asking(m: Monitor, k: int)
    requires
        m.vm_config is Some,
        1 <= k <= boot_plan(m).len(),
        boot_plan(m)[k - 1] is Ask,
        boot_plan(m)[0] is Apply,
        boot_plan(m)[boot_plan(m).len() - 1] is Apply,
    ensures
        changed(m, boot_plan(m), k) == (Monitor {
            console_info: m.console_info || boot_plan(m)[k - 1]->Ask_0 != Action::CreateConsole,
            vm: if m.vm is None && boot_plan(m)[k - 1]->Ask_0 == Action::BootVm {
                Some(None)
            } else {
                m.vm
            },
            notices: m.notices.push(Notice::Booting),
            ..m
        }),
{
    let middle = boot_steps(m);
    let opened = Monitor { notices: m.notices.push(Notice::Booting), ..m };
    let plan = seq![note(Notice::Booting)] + middle + seq![note(Notice::Booted)];
    assert(boot_plan(m) =~= plan);
    assert(1 < k < plan.len());
    assert(plan[k - 1] == middle[k - 2]);
    lemma_boot_steps(m, opened);
    lemma_announced(m, Notice::Booting, middle, Notice::Booted, k);
    if k - 1 < middle.len() {
        lemma_boot_step(m, opened, k - 1);
    } else {
        assert(middle[k - 2] == ask(Action::BootVm, Wrap::Machine));
    }
}

/// A monitor that differs from one at rest in some things only, at rest.
proof fn lemma_at_rest_with(m: Monitor, at: Monitor)
    requires
        m.idle(),
        at == (Monitor {
            console_info: at.console_info,
            vm: at.vm,
            notices: at.notices,
            ..m
        }),
    ensures
        at.at_rest() == at,
{
}

/// A request without forks that fails leaves everything as it was when it
/// asked for what failed.
pub proof fn law_failures_change_nothing(m: Monitor, request: Request, outcomes: Seq<Outcome>)
    requires
        straight(plan_of(m, request)),
        possible(m, request, outcomes),
        course(m, request, outcomes).1 matches StepView::Done(Err(_)),
    ensures
        outcomes.len() > 0,
        course(m, request, outcomes).0 == course(m, request, outcomes.drop_last()).0.at_rest(),
{
    let plan = plan_of(m, request);
    lemma_straight_asked(m, request, outcomes, plan);
    reveal(followed);
    lemma_step(m, request, outcomes);
    lemma_straight_asked(m, request, outcomes.drop_last(), plan);
    lemma_over(m, request, outcomes.drop_last());
    let before = course(m, request, outcomes.drop_last()).0;
    lemma_failed_here(before, outcomes.last()->Failed_0);
}

/// A failure that nothing follows.
proof fn lemma_failed_here(before: Monitor, fault: String)
    requires
        before.waiting is Some,
        before.pending is None,
        before.recovery == Recovery::Nothing,
        before.waiting->0.wrap != Wrap::Ignore,
    ensures
        advanced(before, Outcome::Failed(fault)).0 == before.at_rest(),
{
    lemma_failed_ends(
        Monitor { waiting: None, ..before },
        wrapped(before.waiting->0.wrap, fault),
    );
}

/// A phase that leaves the machine.
spec fn spares_machine(phase: Phase) -> bool {
    match phase {
        Phase::Ask(_, _, _) => true,
        Phase::Apply(change) => change is ConsoleReady || change is DrainConsole,
        Phase::Fail(_) => true,
    }
}

/// Phases that all leave the machine.
spec fn all_spare(plan: Seq<Phase>) -> bool {
    forall|i: int| 0 <= i < plan.len() ==> spares_machine(#[trigger] plan[i])
}

/// Phases that leave the machine do so together.
proof fn lemma_spared(m: Monitor, plan: Seq<Phase>, k: int)
    requires
        all_spare(plan),
        0 <= k <= plan.len(),
    ensures
        changed(m, plan, k) == (Monitor {
            console_info: changed(m, plan, k).console_info,
            ..m
        }),
    decreases k,
{
    reveal_with_fuel(changed, 1);
    if k > 0 {
        lemma_spared(m, plan, k - 1);
        assert(spares_machine(plan[k - 1]));
    }
}

/// What a reboot does while there is no machine.
spec fn reboot_steps(build: Build) -> Seq<Phase> {
    seq![ask(Action::ShutdownVm, Wrap::Machine), Phase::Apply(Change::DrainConsole)]
        + events_plan(build, false) + seq![ask(Action::DrainReset, Wrap::Ignore)] + console_plan(
        Wrap::CreateConsoleDevices,
    ) + seq![
        ask(Action::CreateVm(VmSource::Fresh), Wrap::Machine),
        ask(Action::BootVm, Wrap::Machine),
    ]
}

/// The steps of a reboot leave the machine, and end with console devices.
proof fn lemma_reboot_steps(m: Monitor, build: Build, k: int)
    requires
        0 <= k <= reboot_steps(build).len(),
    ensures
        all_quiet(reboot_steps(build)),
        changed(m, reboot_steps(build), k) == (Monitor {
            console_info: changed(m, reboot_steps(build), k).console_info,
            ..m
        }),
        changed(m, reboot_steps(build), reboot_steps(build).len() as int).console_info,
{
    let stop = seq![
        ask(Action::ShutdownVm, Wrap::Machine),
        Phase::Apply(Change::DrainConsole),
    ];
    let events = events_plan(build, false);
    let drain = seq![ask(Action::DrainReset, Wrap::Ignore)];
    let console = console_plan(Wrap::CreateConsoleDevices);
    let start = seq![
        ask(Action::CreateVm(VmSource::Fresh), Wrap::Machine),
        ask(Action::BootVm, Wrap::Machine),
    ];
    let plan = reboot_steps(build);
    let head = stop + events + drain;
    lemma_changed_pieces(m, Wrap::CreateConsoleDevices, build);
    lemma_quiet_chain(stop, events);
    lemma_quiet_chain(stop + events, drain);
    lemma_quiet_chain(head, console);
    lemma_quiet_chain(head + console, start);
    assert(all_quiet(plan));
    assert forall|i: int| 0 <= i < plan.len() implies spares_machine(#[trigger] plan[i]) by {
        if 2 <= i < 2 + events.len() {
            assert(plan[i] == events[i - 2]);
            assert(events[i - 2] is Ask);
        }
    }
    lemma_spared(m, plan, k);
    let before = changed(m, head, head.len() as int);
    lemma_changed_pieces(before, Wrap::CreateConsoleDevices, build);
    lemma_changed_chain(m, head, console, 2);
    lemma_changed_chain(m, head + console, start, 2);
    lemma_asking_changes_nothing(changed(before, console, 2), start, 2);
}

/// A reboot, between its two announcements.
#[verifier::rlimit(30)]
proof fn lemma_reboot_middle(m: Monitor, k: int)
    requires
        m.vm is Some,
        0 <= k <= reboot_steps(m.build).len() + 2,
    ensures
        ({
            let middle = seq![Phase::Apply(Change::RetireVm)] + reboot_steps(m.build) + seq![
                Phase::Apply(Change::ReinstallVm),
            ];
            &&& all_quiet(middle)
            &&& 1 <= k <= reboot_steps(m.build).len() + 1 ==> changed(m, middle, k).vm is None
            &&& k == reboot_steps(m.build).len() + 2 ==> changed(m, middle, k) == (Monitor {
                console_info: true,
                retired: None,
                ..m
            })
        }),
{
    let retire = seq![Phase::Apply(Change::RetireVm)];
    let steps = reboot_steps(m.build);
    let reinstall = seq![Phase::Apply(Change::ReinstallVm)];
    let middle = retire + steps + reinstall;
    let retired = Monitor { vm: None, retired: m.vm, ..m };
    assert(changed(m, retire, 1) == retired) by {
        reveal_with_fuel(changed, 2);
    }
    lemma_reboot_steps(retired, m.build, 0);
    lemma_quiet_chain(retire, steps);
    lemma_quiet_chain(retire + steps, reinstall);
    if 1 <= k <= steps.len() + 1 {
        lemma_reboot_steps(retired, m.build, k - 1);
        lemma_changed_chain(m, retire, steps, k - 1);
        lemma_changed_prefix(m, retire + steps, middle, k);
    } else if k == steps.len() + 2 {
        lemma_reboot_steps(retired, m.build, steps.len() as int);
        lemma_changed_chain(m, retire, steps, steps.len() as int);
        lemma_changed_chain(m, retire + steps, reinstall, 1);
        let before = changed(m, retire + steps, steps.len() as int + 1);
        assert(changed(before, reinstall, 1) == applied(before, Change::ReinstallVm)) by {
            reveal_with_fuel(changed, 2);
        }
    }
}

/// The parts of a reboot.
proof fn lemma_reboot_parts(m: Monitor)
    requires
        m.vm is Some,
    ensures
        reboot_plan(m) == seq![note(Notice::Rebooting)] + (seq![Phase::Apply(Change::RetireVm)]
            + reboot_steps(m.build) + seq![Phase::Apply(Change::ReinstallVm)]) + seq![
            note(Notice::Rebooted),
        ],
        reboot_plan(m).len() == reboot_steps(m.build).len() + 4,
        reboot_plan(m)[0] is Apply,
        reboot_plan(m)[1] is Apply,
        reboot_plan(m)[reboot_plan(m).len() - 2] is Apply,
        reboot_plan(m)[reboot_plan(m).len() - 1] is Apply,
{
    assert(reboot_plan(m) =~= seq![note(Notice::Rebooting)] + (seq![
        Phase::Apply(Change::RetireVm),
    ] + reboot_steps(m.build) + seq![Phase::Apply(Change::ReinstallVm)]) + seq![
        note(Notice::Rebooted),
    ]);
}

/// A reboot leaves the configuration, whatever the host reports. Until it has
/// succeeded there is no machine, so there is none where it fails. Where it
/// succeeds, there is a machine of the same configuration again, and console
/// devices, and nothing else has changed.
pub proof fn law_reboot(m: Monitor, outcomes: Seq<Outcome>)
    requires
        m.vm is Some,
        possible(m, Request::Reboot, outcomes),
    ensures
        ({
            let end = course(m, Request::Reboot, outcomes);
            &&& end.0.vm_config == m.vm_config
            &&& end.1 matches StepView::Done(Ok(_)) ==> end.0 == (Monitor {
                console_info: true,
                notices: m.notices.push(Notice::Rebooting).push(Notice::Rebooted),
                ..m
            })
            &&& !(end.1 matches StepView::Done(Ok(_))) ==> end.0.vm is None && end.0.notices
                == m.notices.push(Notice::Rebooting)
        }),
{
    let opened = Monitor { notices: m.notices.push(Notice::Rebooting), ..m };
    let steps = reboot_steps(m.build);
    let middle = seq![Phase::Apply(Change::RetireVm)] + steps + seq![
        Phase::Apply(Change::ReinstallVm),
    ];
    lemma_reboot_parts(m);
    lemma_reboot_middle(opened, 0);
    lemma_announced(m, Notice::Rebooting, middle, Notice::Rebooted, 0);
    let k = lemma_place(m, Request::Reboot, outcomes);
    lemma_announced(m, Notice::Rebooting, middle, Notice::Rebooted, k);
    if k < reboot_plan(m).len() {
        lemma_reboot_middle(opened, k - 1);
    } else {
        lemma_reboot_middle(opened, steps.len() as int + 2);
        lemma_over(m, Request::Reboot, outcomes);
    }
}

/// The changes of a shutdown.
proof fn lemma_shutdown_changes(m: Monitor)
    requires
        m.vm is Some,
    ensures
        straight(shutdown_plan(m)),
        shutdown_plan(m).len() == 4,
        forall|i: int| 0 <= i < 4 && #[trigger] shutdown_plan(m)[i] is Ask ==> i == 2,
        changed(m, shutdown_plan(m), 3) == (Monitor {
            vm: None,
            retired: m.vm,
            console_info: false,
            ..m
        }),
        changed(m, shutdown_plan(m), 4) == (Monitor {
            vm: None,
            retired: m.vm,
            console_info: false,
            notices: m.notices.push(Notice::Shutdown),
            ..m
        }),
{
    reveal_with_fuel(changed, 5);
}

/// A shutdown takes the machine away, and the console devices with it,
/// whatever the host reports. That it is done is announced where it succeeds,
/// and only there. Nothing else changes.
#[verifier::rlimit(30)]
pub proof fn law_shutdown(m: Monitor, outcomes: Seq<Outcome>)
    requires
        m.vm is Some,
        possible(m, Request::Shutdown, outcomes),
    ensures
        ({
            let end = course(m, Request::Shutdown, outcomes);
            &&& end.1 matches StepView::Done(Ok(_)) ==> end.0.at_rest() == (Monitor {
                vm: None,
                console_info: false,
                notices: m.notices.push(Notice::Shutdown),
                ..m
            })
            &&& !(end.1 matches StepView::Done(Ok(_))) ==> end.0.at_rest() == (Monitor {
                vm: None,
                console_info: false,
                ..m
            })
        }),
{
    lemma_shutdown_changes(m);
    let k = lemma_place(m, Request::Shutdown, outcomes);
    lemma_shutdown_at_rest(m);
    assert(k < 4 ==> k == 3);
}

/// What a shutdown leaves.
proof fn lemma_shutdown_at_rest(m: Monitor)
    requires
        m.vm is Some,
        m.idle(),
    ensures
        changed(m, shutdown_plan(m), 3).at_rest() == (Monitor {
            vm: None,
            console_info: false,
            ..m
        }),
        changed(m, shutdown_plan(m), 4).at_rest() == (Monitor {
            vm: None,
            console_info: false,
            notices: m.notices.push(Notice::Shutdown),
            ..m
        }),
{
    lemma_shutdown_changes(m);
}

/// The changes of a deletion.
proof fn lemma_delete_changes(m: Monitor)
    requires
        m.vm_config is Some,
        m.vm is Some,
    ensures
        straight(delete_plan(m)),
        delete_plan(m).len() == 6,
        forall|i: int| 0 <= i < 6 && #[trigger] delete_plan(m)[i] is Ask ==> i == 2,
        changed(m, delete_plan(m), 3) == (Monitor {
            vm: None,
            retired: m.vm,
            console_info: false,
            ..m
        }),
        changed(m, delete_plan(m), 6) == (Monitor {
            vm: None,
            retired: m.vm,
            console_info: false,
            vm_config: None,
            notices: m.notices.push(Notice::Shutdown).push(Notice::Deleted),
            ..m
        }),
{
    reveal_with_fuel(changed, 7);
}

/// A deletion takes the machine away, whatever the host reports. It takes the
/// configuration only where the shutdown of the machine has succeeded; then a
/// configuration can be stored again.
pub proof fn law_delete(m: Monitor, outcomes: Seq<Outcome>, config: VmConfig)
    requires
        m.vm is Some,
        m.vm_config is Some,
        possible(m, Request::Delete, outcomes),
    ensures
        ({
            let end = course(m, Request::Delete, outcomes);
            &&& end.0.vm is None
            &&& !end.0.console_info
            &&& end.1 matches StepView::Done(Ok(_)) ==> end.0 == (Monitor {
                vm: None,
                console_info: false,
                vm_config: None,
                notices: m.notices.push(Notice::Shutdown).push(Notice::Deleted),
                ..m
            }) && taken_up(end.0, Request::Create(config)).1 == StepView::Perform(
                Action::CreateConsole,
            )
            &&& !(end.1 matches StepView::Done(Ok(_))) ==> end.0.vm_config == m.vm_config
                && end.0.notices == m.notices
        }),
{
    lemma_delete_changes(m);
    let k = lemma_place(m, Request::Delete, outcomes);
    assert(k < 6 ==> k == 3);
    lemma_over(m, Request::Delete, outcomes);
    reveal_with_fuel(settled, 2);
}

/// The changes of a snapshot.
proof fn lemma_snapshot_changes(m: Monitor, url: String, k: int)
    requires
        m.vm is Some,
        0 < k <= 3,
    ensures
        straight(snapshot_plan(m, url)),
        snapshot_plan(m, url).len() == 3,
        changed(m, snapshot_plan(m, url), k) == (Monitor { console_info: false, ..m }),
{
    reveal_with_fuel(changed, 4);
}

/// A snapshot lets go of the console devices, whatever the host reports, and
/// changes nothing else.
pub proof fn law_snapshot(m: Monitor, url: String, outcomes: Seq<Outcome>)
    requires
        m.vm is Some,
        possible(m, Request::Snapshot(url), outcomes),
    ensures
        course(m, Request::Snapshot(url), outcomes).0.at_rest() == (Monitor {
            console_info: false,
            ..m
        }),
{
    lemma_snapshot_changes(m, url, 1);
    let k = lemma_place(m, Request::Snapshot(url), outcomes);
    lemma_snapshot_changes(m, url, k);
}

/// The changes of a creation.
proof fn lemma_create_changes(m: Monitor, config: VmConfig, k: int)
    requires
        m.vm_config is None,
        0 < k <= create_plan(m, config).len(),
    ensures
        straight(create_plan(m, config)),
        create_plan(m, config).len() >= 3,
        changed(m, create_plan(m, config), k) == (Monitor {
            vm_config: Some(config@),
            console_info: m.console_info || k >= 3,
            ..m
        }),
{
    reveal_with_fuel(changed, 1);
    let plan = create_plan(m, config);
    let stored = Monitor { vm_config: Some(config@), ..m };
    assert(changed(m, plan, 0) == m);
    assert(plan[0] == Phase::Apply(Change::StoreConfig(config)));
    assert(changed(m, plan, 1) == stored);
    assert(plan[1] is Ask);
    assert(changed(m, plan, 2) == stored);
    assert(plan[2] == Phase::Apply(Change::ConsoleReady));
    assert(changed(m, plan, 3) == (Monitor { console_info: true, ..stored }));
    if plan.len() == 4 {
        assert(plan[3] is Ask);
        assert(changed(m, plan, 4) == changed(m, plan, 3));
    }
}

/// A creation stores the configuration first of all, so that it is there
/// whatever the host reports, and another is refused. The machine is left to
/// the boot. Where the creation succeeds, there are console devices.
pub proof fn law_create(m: Monitor, config: VmConfig, outcomes: Seq<Outcome>, other: VmConfig)
    requires
        m.vm_config is None,
        possible(m, Request::Create(config), outcomes),
    ensures
        ({
            let end = course(m, Request::Create(config), outcomes);
            &&& end.0.at_rest() == (Monitor {
                vm_config: Some(config@),
                console_info: end.0.console_info,
                ..m
            })
            &&& end.1 matches StepView::Done(Ok(_)) ==> end.0.console_info
            &&& end.1 is Done ==> taken_up(end.0, Request::Create(other)) == (
                end.0,
                refusal(VmError::VmAlreadyCreated),
            )
        }),
{
    lemma_create_changes(m, config, 1);
    let k = lemma_place(m, Request::Create(config), outcomes);
    lemma_create_changes(m, config, k);
    lemma_over(m, Request::Create(config), outcomes);
    reveal_with_fuel(settled, 2);
}

/// While a creation awaits something of the host, the configuration is stored,
/// and there are console devices once its confinement is awaited.
#[verifier::rlimit(30)]
pub proof fn law_create_on_the_way(m: Monitor, config: VmConfig, outcomes: Seq<Outcome>)
    requires
        m.vm_config is None,
        possible(m, Request::Create(config), outcomes),
    ensures
        course(m, Request::Create(config), outcomes).1 matches StepView::Perform(action) ==> course(
            m,
            Request::Create(config),
            outcomes,
        ).0.at_rest() == (Monitor {
            vm_config: Some(config@),
            console_info: m.console_info || action == Action::ApplyLandlock,
            ..m
        }),
{
    lemma_create_changes(m, config, 1);
    let k = lemma_place(m, Request::Create(config), outcomes);
    lemma_create_changes(m, config, k);
    if course(m, Request::Create(config), outcomes).1 is Perform {
        assert(create_plan(m, config)[k - 1] is Ask);
        assert(k == 2 || k == 4);
    }
}

/// What the steps of a reboot have changed of the console devices when
/// something is asked for.
#[verifier::rlimit(30)]
proof fn lemma_reboot_console(m: Monitor, build: Build, j: int)
    requires
        1 <= j <= reboot_steps(build).len(),
        reboot_steps(build)[j - 1] is Ask,
    ensures
        changed(m, reboot_steps(build), j).console_info == (match reboot_steps(
            build,
        )[j - 1]->Ask_0 {
            Action::ShutdownVm => m.console_info,
            Action::CreateVm(_) => true,
            Action::BootVm => true,
            _ => false,
        }),
{
    let stop = seq![
        ask(Action::ShutdownVm, Wrap::Machine),
        Phase::Apply(Change::DrainConsole),
    ];
    let events = events_plan(build, false);
    let drain = seq![ask(Action::DrainReset, Wrap::Ignore)];
    let console = console_plan(Wrap::CreateConsoleDevices);
    let start = seq![
        ask(Action::CreateVm(VmSource::Fresh), Wrap::Machine),
        ask(Action::BootVm, Wrap::Machine),
    ];
    let quiet = Monitor { console_info: false, ..m };
    let asks = events + drain;
    let plan = stop + asks + console + start;
    assert(reboot_steps(build) =~= plan);
    assert(changed(m, stop, 1) == m && changed(m, stop, 2) == quiet) by {
        reveal_with_fuel(changed, 3);
    }
    assert forall|x: int| 0 <= x < asks.len() implies #[trigger] asks[x] is Ask by {
        if x < events.len() {
            assert(asks[x] == events[x]);
            assert(events[x] is Ask);
        }
    }
    if j == 1 {
        lemma_changed_prefix(m, stop, plan, 1);
    } else if j <= 2 + asks.len() {
        assert(j > 2);
        lemma_changed_chain(m, stop, asks, j - 2);
        lemma_changed_prefix(m, stop + asks, plan, j);
        lemma_asking_changes_nothing(quiet, asks, j - 2);
        if j - 3 < events.len() {
            assert(plan[j - 1] == events[j - 3]);
            assert(events[j - 3]->Ask_0 is CloneEvent);
        } else {
            assert(plan[j - 1] == drain[0]);
        }
    } else {
        lemma_changed_chain(m, stop, asks, asks.len() as int);
        lemma_asking_changes_nothing(quiet, asks, asks.len() as int);
        lemma_reboot_tail(m, quiet, stop + asks, console, start, j - 2 - asks.len());
        let t = j - 3 - asks.len();
        assert(plan[j - 1] == (console + start)[t]);
    }
}

/// The console devices of a reboot once they are asked for.
proof fn lemma_reboot_tail(
    m: Monitor,
    quiet: Monitor,
    head: Seq<Phase>,
    console: Seq<Phase>,
    start: Seq<Phase>,
    t: int,
)
    requires
        changed(m, head, head.len() as int) == quiet,
        !quiet.console_info,
        console == console_plan(Wrap::CreateConsoleDevices),
        start == seq![
            ask(Action::CreateVm(VmSource::Fresh), Wrap::Machine),
            ask(Action::BootVm, Wrap::Machine),
        ],
        1 <= t <= 4,
    ensures
        changed(m, head + console + start, head.len() + t).console_info == (t >= 2),
{
    let ready = Monitor { console_info: true, ..quiet };
    assert(head + console + start =~= head + (console + start));
    lemma_changed_chain(m, head, console + start, t);
    assert(changed(quiet, console, 1) == quiet && changed(quiet, console, 2) == ready) by {
        reveal_with_fuel(changed, 3);
    }
    if t <= 2 {
        lemma_changed_prefix(quiet, console, console + start, t);
    } else {
        lemma_changed_chain(quiet, console, start, t - 2);
        lemma_asking_changes_nothing(ready, start, t - 2);
    }
}

/// While a reboot awaits something of the host, there is no machine, and it has
/// announced that it begins. The console devices are let go of once the machine
/// is shut down, and are there again once a new machine is awaited.
#[verifier::rlimit(30)]
pub proof fn law_reboot_on_the_way(m: Monitor, outcomes: Seq<Outcome>)
    requires
        m.vm is Some,
        possible(m, Request::Reboot, outcomes),
    ensures
        course(m, Request::Reboot, outcomes).1 matches StepView::Perform(action) ==> course(
            m,
            Request::Reboot,
            outcomes,
        ).0.at_rest() == (Monitor {
            vm: None,
            console_info: match action {
                Action::ShutdownVm => m.console_info,
                Action::CreateVm(_) => true,
                Action::BootVm => true,
                _ => false,
            },
            notices: m.notices.push(Notice::Rebooting),
            ..m
        }),
{
    let opened = Monitor { notices: m.notices.push(Notice::Rebooting), ..m };
    let steps = reboot_steps(m.build);
    let middle = seq![Phase::Apply(Change::RetireVm)] + steps + seq![
        Phase::Apply(Change::ReinstallVm),
    ];
    lemma_reboot_parts(m);
    lemma_reboot_middle(opened, 0);
    lemma_announced(m, Notice::Rebooting, middle, Notice::Rebooted, 0);
    let k = lemma_place(m, Request::Reboot, outcomes);
    if course(m, Request::Reboot, outcomes).1 is Perform {
        lemma_reboot_asking(m, k);
        lemma_retired_at_rest(m, changed(m, reboot_plan(m), k));
    }
}

/// What a reboot has changed when something is asked for.
#[verifier::rlimit(30)]
proof fn lemma_reboot_asking(m: Monitor, k: int)
    requires
        m.vm is Some,
        1 <= k <= reboot_plan(m).len(),
        reboot_plan(m)[k - 1] is Ask,
    ensures
        changed(m, reboot_plan(m), k) == (Monitor {
            vm: None,
            retired: m.vm,
            console_info: match reboot_plan(m)[k - 1]->Ask_0 {
                Action::ShutdownVm => m.console_info,
                Action::CreateVm(_) => true,
                Action::BootVm => true,
                _ => false,
            },
            notices: m.notices.push(Notice::Rebooting),
            ..m
        }),
{
    let opened = Monitor { notices: m.notices.push(Notice::Rebooting), ..m };
    let retired = Monitor { vm: None, retired: m.vm, ..opened };
    let steps = reboot_steps(m.build);
    let retire = seq![Phase::Apply(Change::RetireVm)];
    let reinstall = seq![Phase::Apply(Change::ReinstallVm)];
    let middle = retire + steps + reinstall;
    lemma_reboot_parts(m);
    lemma_reboot_middle(opened, 0);
    assert(2 < k < reboot_plan(m).len() - 1);
    let j = k - 2;
    assert(reboot_plan(m)[k - 1] == steps[j - 1]);
    lemma_announced(m, Notice::Rebooting, middle, Notice::Rebooted, k);
    assert(changed(opened, retire, 1) == retired) by {
        reveal_with_fuel(changed, 2);
    }
    lemma_changed_chain(opened, retire, steps, j);
    lemma_changed_prefix(opened, retire + steps, middle, j + 1);
    lemma_reboot_steps(retired, m.build, j);
    lemma_reboot_console(retired, m.build, j);
}

/// A monitor whose machine a request has let go of, at rest.
proof fn lemma_retired_at_rest(m: Monitor, at: Monitor)
    requires
        m.idle(),
        at == (Monitor {
            vm: None,
            retired: m.vm,
            console_info: at.console_info,
            notices: at.notices,
            ..m
        }),
    ensures
        at.at_rest() == (Monitor {
            vm: None,
            console_info: at.console_info,
            notices: at.notices,
            ..m
        }),
{
}

} // verus!
