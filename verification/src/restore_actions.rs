//! What the host is asked for by the restoring of a machine.

use vstd::prelude::*;
use crate::action_laws::{lemma_orders_events, lemma_orders_four, lemma_orders_two};
use crate::config::{RestoreConfig, RestoredNetConfig, VmConfigView};
use crate::error::{Cause, Context, Failure, MigratableError, VmError};
use crate::features::Build;
use crate::lifecycle::{
    ask, console_plan, cpuid_plan, cpuid_request, events_plan, landlock_plan, provided,
    restored_plan,
};
use crate::model::{advanced, after, fits, Monitor, Waiting};
use crate::plan::{
    wrapped, Action, Change, CpuidRequest, Expect, MonitorEvent, Outcome, Phase, Recovery,
    ReplyView, StepView, VmSource, Wrap,
};
use crate::run::{course, lemma_failed_ends, lemma_next_ask, lemma_step, possible, Request};
use crate::straight::lemma_over;
use crate::trace::{
    asked, expect_of, firm, hopeless, lemma_failure_stays, lemma_firm_join,
    lemma_first_failure, lemma_hopeless, lemma_on_course_start, lemma_on_course_step,
    lemma_orders_add, lemma_orders_one, on_course, orders, stays_on_track,
};

verus! {

/// What is left to do once the configuration is read.
spec fn remainder(m: Monitor, restore: RestoreConfig, config: VmConfigView) -> Seq<Phase> {
    restored_plan(m.build, config, restore.source_url->0, restore.prefault, restore.net_fds)
}

/// Whether the monitor awaits the configuration.
spec fn reading(m: Monitor, restore: RestoreConfig, at: (Monitor, StepView)) -> bool {
    &&& at.1 == StepView::Perform(Action::FetchConfig(restore.source_url->0))
    &&& at.0 == (Monitor { waiting: at.0.waiting, ..m })
    &&& at.0.waiting == Some(
        Waiting {
            expect: Expect::RestoredConfig {
                url: restore.source_url->0,
                prefault: restore.prefault,
                net_fds: restore.net_fds,
            },
            wrap: Wrap::Restore,
        },
    )
}

/// A restoring begins with the configuration.
proof fn lemma_reading(m: Monitor, restore: RestoreConfig)
    requires
        m.idle(),
        m.vm is None,
        m.vm_config is None,
        restore.source_url is Some,
    ensures
        reading(m, restore, course(m, Request::Restore(restore), Seq::empty())),
{
    reveal(course);
    let url = restore.source_url->0;
    let expect = Expect::RestoredConfig {
        url,
        prefault: restore.prefault,
        net_fds: restore.net_fds,
    };
    let plan = seq![Phase::Ask(Action::FetchConfig(url), expect, Wrap::Restore)];
    assert(plan =~= plan + Seq::empty());
    lemma_next_ask(
        Monitor { plan, ..m },
        Action::FetchConfig(url),
        expect,
        Wrap::Restore,
        Seq::empty(),
    );
    assert(Monitor { plan: Seq::empty(), ..m } == m);
}

/// The restoring goes on once the configuration is read.
proof fn lemma_read(
    m: Monitor,
    restore: RestoreConfig,
    before: (Monitor, StepView),
    outcome: Outcome,
)
    requires
        m.idle(),
        reading(m, restore, before),
        outcome is Config,
        firm(remainder(m, restore, outcome->Config_0@)),
    ensures
        stays_on_track(
            orders(remainder(m, restore, outcome->Config_0@)),
            advanced(before.0, outcome),
            1,
        ),
        hopeless(remainder(m, restore, outcome->Config_0@)) ==> match advanced(
            before.0,
            outcome,
        ).1 {
            StepView::Perform(_) => advanced(before.0, outcome).0.pending is Some || hopeless(
                advanced(before.0, outcome).0.plan,
            ),
            StepView::Done(result) => result is Err,
        },
{
    let config = outcome->Config_0@;
    let rest = Monitor { waiting: None, ..before.0 };
    let next = after(rest, before.0.waiting->0.expect, outcome);
    assert(next.plan =~= remainder(m, restore, config));
    lemma_on_course_start(next);
    if hopeless(next.plan) {
        lemma_hopeless(next);
    }
}

/// What a restoring asks for once the configuration is read, and what a failure
/// of each is reported as.
spec fn remaining_orders(
    build: Build,
    config: VmConfigView,
    url: String,
    prefault: bool,
) -> Seq<(Action, Wrap)> {
    seq![
        (Action::ValidateRestore, Wrap::ConfigValidation),
        (Action::FetchState(url), Wrap::Restore),
    ] + (if build.features.kvm && build.x86_64 {
        seq![
            (Action::ReadVmSnapshot, Wrap::Restore),
            (
                Action::GenerateCpuid(cpuid_request(config)),
                Wrap::RestoreReceive(Context::DestinationCpuid),
            ),
            (Action::CheckCpuid, Wrap::RestoreReceive(Context::CompareCpuid)),
        ]
    } else {
        Seq::empty()
    }) + seq![(Action::CreateConsole, Wrap::CreateConsoleDevices)] + orders(
        events_plan(build, false),
    ) + seq![(Action::CreateVm(VmSource::Snapshot { url, prefault }), Wrap::Machine)] + (
    if config.landlock_enable {
        seq![(Action::ApplyLandlock, Wrap::ApplyLandlock)]
    } else {
        Seq::empty()
    }) + seq![(Action::RestoreVm, Wrap::Machine)]
}

/// The part of the plan that compares processors.
proof fn lemma_cpuid_orders(build: Build, config: VmConfigView)
    ensures
        firm(cpuid_plan(build, config, true)),
        hopeless(cpuid_plan(build, config, true)) <==> build.features.kvm && build.x86_64
            && build.features.tdx && config.tdx,
        !hopeless(cpuid_plan(build, config, true)) ==> orders(cpuid_plan(build, config, true)) == (
        if build.features.kvm && build.x86_64 {
            seq![
                (
                    Action::GenerateCpuid(cpuid_request(config)),
                    Wrap::RestoreReceive(Context::DestinationCpuid),
                ),
                (Action::CheckCpuid, Wrap::RestoreReceive(Context::CompareCpuid)),
            ]
        } else {
            Seq::empty()
        }),
{
    let plan = cpuid_plan(build, config, true);
    if build.features.kvm && build.x86_64 {
        if build.features.tdx && config.tdx {
            assert(plan[0] is Fail);
        } else {
            lemma_orders_two(plan[0], plan[1]);
        }
    }
}

/// The plan of a restoring.
#[verifier::rlimit(30)]
proof fn lemma_remaining_orders(
    build: Build,
    config: VmConfigView,
    url: String,
    prefault: bool,
    net_fds: Option<Vec<RestoredNetConfig>>,
)
    ensures
        ({
            let plan = restored_plan(build, config, url, prefault, net_fds);
            let tdx = build.features.kvm && build.x86_64 && build.features.tdx && config.tdx;
            &&& firm(plan)
            &&& tdx ==> hopeless(plan)
            &&& !tdx ==> orders(plan) == remaining_orders(build, config, url, prefault)
        }),
{
    reveal(restored_plan);
    let first = seq![
        ask(Action::ValidateRestore, Wrap::ConfigValidation),
        Phase::Apply(Change::AdoptNetFds(net_fds)),
        Phase::Apply(Change::OnFailure(Recovery::DeleteVm)),
        ask(Action::FetchState(url), Wrap::Restore),
    ];
    let part = provided(
        build.spec_compares_cpuid(),
        seq![ask(Action::ReadVmSnapshot, Wrap::Restore)],
    );
    let cpuid = cpuid_plan(build, config, true);
    let install = seq![Phase::Apply(Change::InstallCandidate)];
    let console = console_plan(Wrap::CreateConsoleDevices);
    let events = events_plan(build, false);
    let create = seq![
        ask(Action::CreateVm(VmSource::Snapshot { url, prefault }), Wrap::Machine),
        Phase::Apply(Change::InstallVm),
    ];
    let landlock = landlock_plan(config.landlock_enable, Wrap::ApplyLandlock);
    let last = seq![ask(Action::RestoreVm, Wrap::Machine)];
    lemma_cpuid_orders(build, config);
    lemma_orders_four(first[0], first[1], first[2], first[3]);
    lemma_orders_one(ask(Action::ReadVmSnapshot, Wrap::Restore));
    lemma_orders_one(install[0]);
    lemma_orders_two(console[0], console[1]);
    lemma_orders_two(create[0], create[1]);
    lemma_orders_one(ask(Action::ApplyLandlock, Wrap::ApplyLandlock));
    lemma_orders_one(last[0]);
    let p1 = first + part;
    let p2 = p1 + cpuid;
    let p3 = p2 + install;
    let p4 = p3 + console;
    let p5 = p4 + events;
    let p6 = p5 + create;
    let p7 = p6 + landlock;
    lemma_orders_add(first, part);
    lemma_orders_add(p1, cpuid);
    lemma_orders_add(p2, install);
    lemma_orders_add(p3, console);
    lemma_orders_add(p4, events);
    lemma_orders_add(p5, create);
    lemma_orders_add(p6, landlock);
    lemma_orders_add(p7, last);
    lemma_firm_join(first, part);
    lemma_firm_join(p1, cpuid);
    lemma_firm_join(p2, install);
    lemma_firm_join(p3, console);
    lemma_firm_join(p4, events);
    lemma_firm_join(p5, create);
    lemma_firm_join(p6, landlock);
    lemma_firm_join(p7, last);
    let plan = restored_plan(build, config, url, prefault, net_fds);
    if build.features.kvm && build.x86_64 && build.features.tdx && config.tdx {
        assert(plan[p1.len() as int] == cpuid[0]);
        assert(cpuid[0] is Fail);
    } else {
        assert(orders(plan) =~= remaining_orders(build, config, url, prefault));
    }
}

/// What a restoring has come to.
spec fn come_to(
    m: Monitor,
    restore: RestoreConfig,
    outcomes: Seq<Outcome>,
    at: (Monitor, StepView),
    actions: Seq<Action>,
) -> bool {
    match outcomes[0] {
        Outcome::Config(config) => {
            let plan = remainder(m, restore, config@);
            let all = orders(plan);
            &&& stays_on_track(all, at, outcomes.len() as int)
            &&& hopeless(plan) ==> match at.1 {
                StepView::Perform(_) => at.0.pending is Some || hopeless(at.0.plan),
                StepView::Done(result) => result is Err,
            }
            &&& (at.1 is Perform && at.0.pending is None) || (at.1 matches StepView::Done(Ok(_))) ==> {
                &&& actions.len() <= all.len() + 1
                &&& actions.len() == if at.1 is Perform {
                    outcomes.len() + 1
                } else {
                    outcomes.len()
                }
                &&& actions[0] == Action::FetchConfig(restore.source_url->0)
                &&& forall|i: int| 0 < i < actions.len() ==> #[trigger] actions[i] == all[i - 1].0
                &&& forall|i: int|
                    0 < i < outcomes.len() ==> #[trigger] outcomes[i] == Outcome::Done
            }
        },
        Outcome::Failed(_) => at.1 matches StepView::Done(Err(_)),
        _ => false,
    }
}

/// The course of a restoring.
#[verifier::rlimit(30)]
proof fn lemma_come_to(m: Monitor, restore: RestoreConfig, outcomes: Seq<Outcome>)
    requires
        m.vm is None,
        m.vm_config is None,
        restore.source_url is Some,
        possible(m, Request::Restore(restore), outcomes),
        outcomes.len() > 0,
    ensures
        come_to(
            m,
            restore,
            outcomes,
            course(m, Request::Restore(restore), outcomes),
            asked(m, Request::Restore(restore), outcomes),
        ),
    decreases outcomes.len(),
{
    let request = Request::Restore(restore);
    let so_far = outcomes.drop_last();
    let before = course(m, request, so_far);
    let at = course(m, request, outcomes);
    lemma_step(m, request, outcomes);
    lemma_over(m, request, so_far);
    if let Outcome::Config(config) = outcomes[0] {
        lemma_remaining_orders(
            m.build,
            config@,
            restore.source_url->0,
            restore.prefault,
            restore.net_fds,
        );
    }
    if outcomes.len() == 1 {
        assert(so_far =~= Seq::empty());
        lemma_reading(m, restore);
        lemma_first_come(m, restore, before, outcomes, at);
        assert(asked(m, request, so_far) =~= seq![Action::FetchConfig(restore.source_url->0)]);
        if let StepView::Perform(action) = at.1 {
            assert(asked(m, request, outcomes) =~= seq![
                Action::FetchConfig(restore.source_url->0),
                action,
            ]);
        }
    } else {
        lemma_come_to(m, restore, so_far);
        assert(so_far[0] == outcomes[0]);
        lemma_further(
            m,
            restore,
            so_far,
            before,
            asked(m, request, so_far),
            outcomes.last(),
            at,
        );
        assert(so_far.push(outcomes.last()) =~= outcomes);
    }
}

/// A restoring, once the first outcome has come.
proof fn lemma_first_come(
    m: Monitor,
    restore: RestoreConfig,
    before: (Monitor, StepView),
    outcomes: Seq<Outcome>,
    at: (Monitor, StepView),
)
    requires
        m.idle(),
        reading(m, restore, before),
        outcomes.len() == 1,
        fits(before.0, outcomes[0]),
        at == advanced(before.0, outcomes[0]),
        outcomes[0] matches Outcome::Config(config) ==> firm(remainder(m, restore, config@)),
    ensures
        come_to(
            m,
            restore,
            outcomes,
            at,
            match at.1 {
                StepView::Perform(action) => seq![
                    Action::FetchConfig(restore.source_url->0),
                    action,
                ],
                _ => seq![Action::FetchConfig(restore.source_url->0)],
            },
        ),
{
    match outcomes[0] {
        Outcome::Config(config) => {
            lemma_read(m, restore, before, outcomes[0]);
            reveal(on_course);
        },
        Outcome::Failed(fault) => {
            lemma_failed_ends(
                Monitor { waiting: None, ..before.0 },
                wrapped(Wrap::Restore, fault),
            );
        },
        _ => {},
    }
}

/// A restoring, one outcome further.
#[verifier::rlimit(30)]
proof fn lemma_further(
    m: Monitor,
    restore: RestoreConfig,
    so_far: Seq<Outcome>,
    before: (Monitor, StepView),
    actions: Seq<Action>,
    outcome: Outcome,
    at: (Monitor, StepView),
)
    requires
        so_far.len() > 0,
        come_to(m, restore, so_far, before, actions),
        before.1 is Perform,
        fits(before.0, outcome),
        at == advanced(before.0, outcome),
    ensures
        come_to(
            m,
            restore,
            so_far.push(outcome),
            at,
            match at.1 {
                StepView::Perform(action) => actions.push(action),
                _ => actions,
            },
        ),
{
    let all = orders(remainder(m, restore, so_far[0]->Config_0@));
    assert(so_far.push(outcome)[0] == so_far[0]);
    if before.0.pending is Some {
        lemma_failure_stays(before.0, outcome);
    } else {
        reveal(on_course);
        lemma_all_orders(
            m.build,
            so_far[0]->Config_0@,
            restore.source_url->0,
            restore.prefault,
            restore.net_fds,
            so_far.len() - 1,
        );
        lemma_on_course_step(all, before, so_far.len() as int, outcome);
        if hopeless(before.0.plan) && outcome == Outcome::Done {
            lemma_hopeless(Monitor { waiting: None, ..before.0 });
        }
    }
}

/// What a restoring asks for in all.
spec fn restoring_list(
    build: Build,
    config: VmConfigView,
    url: String,
    prefault: bool,
) -> Seq<Action> {
    seq![
        Action::FetchConfig(url),
        Action::ValidateRestore,
        Action::FetchState(url),
    ] + (if build.features.kvm && build.x86_64 {
        seq![
            Action::ReadVmSnapshot,
            Action::GenerateCpuid(
                CpuidRequest {
                    max_phys_bits: config.cpus.max_phys_bits,
                    kvm_hyperv: config.cpus.kvm_hyperv,
                    amx: config.cpus.features.amx,
                },
            ),
            Action::CheckCpuid,
        ]
    } else {
        Seq::empty()
    }) + seq![
        Action::CreateConsole,
        Action::CloneEvent(MonitorEvent::Exit),
        Action::CloneEvent(MonitorEvent::Reset),
    ] + (if build.features.guest_debug {
        seq![Action::CloneEvent(MonitorEvent::Debug)]
    } else {
        Seq::empty()
    }) + seq![
        Action::CloneEvent(MonitorEvent::Activate),
        Action::CreateVm(VmSource::Snapshot { url, prefault }),
    ] + (if config.landlock_enable {
        seq![Action::ApplyLandlock]
    } else {
        Seq::empty()
    }) + seq![Action::RestoreVm]
}

/// What a restoring asks for, with and without what its failures are reported
/// as.
#[verifier::rlimit(30)]
proof fn lemma_restoring_list(build: Build, config: VmConfigView, url: String, prefault: bool)
    ensures
        ({
            let all = restoring_list(build, config, url, prefault);
            let pairs = remaining_orders(build, config, url, prefault);
            &&& all.len() == pairs.len() + 1
            &&& all[0] == Action::FetchConfig(url)
            &&& forall|i: int| 0 < i < all.len() ==> #[trigger] all[i] == pairs[i - 1].0
        }),
{
    lemma_orders_events(build);
    let all = restoring_list(build, config, url, prefault);
    let pairs = remaining_orders(build, config, url, prefault);
    if build.features.kvm && build.x86_64 {
        if build.features.guest_debug {
            assert forall|i: int| 0 < i < all.len() implies #[trigger] all[i] == pairs[i - 1].0 by {}
        } else {
            assert forall|i: int| 0 < i < all.len() implies #[trigger] all[i] == pairs[i - 1].0 by {}
        }
    } else {
        if build.features.guest_debug {
            assert forall|i: int| 0 < i < all.len() implies #[trigger] all[i] == pairs[i - 1].0 by {}
        } else {
            assert forall|i: int| 0 < i < all.len() implies #[trigger] all[i] == pairs[i - 1].0 by {}
        }
    }
}

/// What a restoring asks for: the configuration of the snapshot, its
/// validation and the snapshot's state, then, where processors are compared,
/// the machine's part of the snapshot, the processor of this host as the
/// configuration wants it and the comparison, then console devices, clones of
/// the events, a machine from the snapshot that was named, the confinement of
/// the monitor where the configuration wants it, and last of all the state of
/// the machine. As long as nothing has failed it has asked for the first of
/// these. Where it succeeds, it has asked for all of them, once each, and each
/// succeeded; the machine is none that processors cannot be compared for.
#[verifier::rlimit(30)]
pub proof fn law_restore_actions(m: Monitor, restore: RestoreConfig, outcomes: Seq<Outcome>)
    requires
        m.vm is None,
        m.vm_config is None,
        restore.source_url is Some,
        possible(m, Request::Restore(restore), outcomes),
        outcomes.len() > 0,
        outcomes[0] is Config,
    ensures
        ({
            let end = course(m, Request::Restore(restore), outcomes);
            let actions = asked(m, Request::Restore(restore), outcomes);
            let url = restore.source_url->0;
            let config = outcomes[0]->Config_0@;
            let tdx = m.build.features.kvm && m.build.x86_64 && m.build.features.tdx && config.tdx;
            let all = seq![
                Action::FetchConfig(url),
                Action::ValidateRestore,
                Action::FetchState(url),
            ] + (if m.build.features.kvm && m.build.x86_64 {
                seq![
                    Action::ReadVmSnapshot,
                    Action::GenerateCpuid(
                        CpuidRequest {
                            max_phys_bits: config.cpus.max_phys_bits,
                            kvm_hyperv: config.cpus.kvm_hyperv,
                            amx: config.cpus.features.amx,
                        },
                    ),
                    Action::CheckCpuid,
                ]
            } else {
                Seq::empty()
            }) + seq![
                Action::CreateConsole,
                Action::CloneEvent(MonitorEvent::Exit),
                Action::CloneEvent(MonitorEvent::Reset),
            ] + (if m.build.features.guest_debug {
                seq![Action::CloneEvent(MonitorEvent::Debug)]
            } else {
                Seq::empty()
            }) + seq![
                Action::CloneEvent(MonitorEvent::Activate),
                Action::CreateVm(VmSource::Snapshot { url, prefault: restore.prefault }),
            ] + (if config.landlock_enable {
                seq![Action::ApplyLandlock]
            } else {
                Seq::empty()
            }) + seq![Action::RestoreVm];
            &&& tdx ==> !(end.1 matches StepView::Done(Ok(_)))
            &&& !tdx && end.1 is Perform && end.0.pending is None ==> actions.len() <= all.len()
                && actions == all.take(actions.len() as int)
            &&& end.1 matches StepView::Done(Ok(_)) ==> {
                &&& actions == all
                &&& outcomes.len() == all.len()
                &&& forall|i: int|
                    0 < i < outcomes.len() ==> #[trigger] outcomes[i] == Outcome::Done
            }
        }),
{
    let end = course(m, Request::Restore(restore), outcomes);
    let actions = asked(m, Request::Restore(restore), outcomes);
    let url = restore.source_url->0;
    let config = outcomes[0]->Config_0@;
    lemma_come_to(m, restore, outcomes);
    lemma_remaining_orders(m.build, config, url, restore.prefault, restore.net_fds);
    let pairs = remaining_orders(m.build, config, url, restore.prefault);
    let all = restoring_list(m.build, config, url, restore.prefault);
    lemma_restoring_list(m.build, config, url, restore.prefault);
    assert(forall|i: int| 0 < i < all.len() ==> #[trigger] all[i] == pairs[i - 1].0);
    let tdx = m.build.features.kvm && m.build.x86_64 && m.build.features.tdx && config.tdx;
    if !tdx && ((end.1 is Perform && end.0.pending is None) || (end.1 matches StepView::Done(
        Ok(_),
    ))) {
        assert(actions =~= all.take(actions.len() as int));
        assert(all.take(all.len() as int) =~= all);
    }
}

/// What a restoring that nothing has failed in reports as its first failure, or
/// is about to report once it has put things in order, by the action that
/// failed.
pub proof fn law_restore_failures(m: Monitor, restore: RestoreConfig, outcomes: Seq<Outcome>)
    requires
        m.vm is None,
        m.vm_config is None,
        restore.source_url is Some,
        possible(m, Request::Restore(restore), outcomes),
        outcomes.len() > 0,
        course(m, Request::Restore(restore), outcomes.drop_last()).0.pending is None,
        outcomes.last() is Failed,
    ensures
        ({
            let before = course(m, Request::Restore(restore), outcomes.drop_last());
            let end = course(m, Request::Restore(restore), outcomes);
            let fault = outcomes.last()->Failed_0;
            &&& before.1 is Perform
            &&& {
                let failure = Failure::Vm(
                    match before.1->Perform_0 {
                        Action::ValidateRestore => VmError::ConfigValidation(fault),
                        Action::FetchConfig(_) => VmError::Restore(MigratableError::Machine(fault)),
                        Action::FetchState(_) => VmError::Restore(MigratableError::Machine(fault)),
                        Action::ReadVmSnapshot => VmError::Restore(
                            MigratableError::Machine(fault),
                        ),
                        Action::GenerateCpuid(_) => VmError::Restore(
                            MigratableError::MigrateReceive(
                                Cause { context: Context::DestinationCpuid, detail: Some(fault) },
                            ),
                        ),
                        Action::CheckCpuid => VmError::Restore(
                            MigratableError::MigrateReceive(
                                Cause { context: Context::CompareCpuid, detail: Some(fault) },
                            ),
                        ),
                        Action::CreateConsole => VmError::CreateConsoleDevices(fault),
                        Action::CloneEvent(_) => VmError::EventFdClone(fault),
                        Action::ApplyLandlock => VmError::ApplyLandlock(fault),
                        _ => VmError::Machine(fault),
                    },
                );
                match end.1 {
                    StepView::Perform(_) => end.0.pending == Some(failure),
                    StepView::Done(result) => result == Err::<ReplyView, Failure>(failure),
                }
            }
        }),
{
    let request = Request::Restore(restore);
    let so_far = outcomes.drop_last();
    let before = course(m, request, so_far);
    lemma_step(m, request, outcomes);
    lemma_over(m, request, so_far);
    if so_far.len() == 0 {
        assert(so_far =~= Seq::empty());
        lemma_reading(m, restore);
    } else {
        lemma_come_to(m, restore, so_far);
        let config = so_far[0]->Config_0@;
        let url = restore.source_url->0;
        lemma_remaining_orders(m.build, config, url, restore.prefault, restore.net_fds);
        lemma_orders_events(m.build);
        lemma_wraps(m, restore, config, so_far.len() as int, before);
    }
    lemma_first_failure(before.0, outcomes.last()->Failed_0);
}

/// What a failure of each action is reported as.
proof fn lemma_wraps(
    m: Monitor,
    restore: RestoreConfig,
    config: VmConfigView,
    n: int,
    at: (Monitor, StepView),
)
    requires
        on_course(orders(remainder(m, restore, config)), at, n),
    ensures
        at.0.waiting matches Some(waiting) && at.1 is Perform && waiting.wrap == (
        match at.1->Perform_0 {
            Action::ValidateRestore => Wrap::ConfigValidation,
            Action::FetchState(_) => Wrap::Restore,
            Action::ReadVmSnapshot => Wrap::Restore,
            Action::GenerateCpuid(_) => Wrap::RestoreReceive(Context::DestinationCpuid),
            Action::CheckCpuid => Wrap::RestoreReceive(Context::CompareCpuid),
            Action::CreateConsole => Wrap::CreateConsoleDevices,
            Action::CloneEvent(_) => Wrap::EventFdClone,
            Action::ApplyLandlock => Wrap::ApplyLandlock,
            _ => Wrap::Machine,
        }) && !(at.1->Perform_0 is FetchConfig) && waiting.wrap != Wrap::Ignore,
{
    reveal(on_course);
    let all = orders(remainder(m, restore, config));
    lemma_all_orders(
        m.build,
        config,
        restore.source_url->0,
        restore.prefault,
        restore.net_fds,
        n - 1,
    );
}

/// What a failure of each action of a restoring is reported as, by its place.
proof fn lemma_all_orders(
    build: Build,
    config: VmConfigView,
    url: String,
    prefault: bool,
    net_fds: Option<Vec<RestoredNetConfig>>,
    i: int,
)
    requires
        0 <= i < orders(restored_plan(build, config, url, prefault, net_fds)).len(),
    ensures
        ({
            let order = orders(restored_plan(build, config, url, prefault, net_fds))[i];
            &&& !(order.0 is FetchConfig)
            &&& expect_of(order.0) is Done
            &&& order.1 != Wrap::Ignore
            &&& order.1 == (match order.0 {
                Action::ValidateRestore => Wrap::ConfigValidation,
                Action::FetchState(_) => Wrap::Restore,
                Action::ReadVmSnapshot => Wrap::Restore,
                Action::GenerateCpuid(_) => Wrap::RestoreReceive(Context::DestinationCpuid),
                Action::CheckCpuid => Wrap::RestoreReceive(Context::CompareCpuid),
                Action::CreateConsole => Wrap::CreateConsoleDevices,
                Action::CloneEvent(_) => Wrap::EventFdClone,
                Action::ApplyLandlock => Wrap::ApplyLandlock,
                _ => Wrap::Machine,
            })
        }),
{
    let plan = restored_plan(build, config, url, prefault, net_fds);
    lemma_remaining_orders(build, config, url, prefault, net_fds);
    lemma_orders_events(build);
    let k = lemma_order_comes_from(plan, i);
    lemma_phase_wraps(build, config, url, prefault, net_fds, k);
}

/// What a plan asks for is asked for by one of its phases.
proof fn lemma_order_comes_from(plan: Seq<Phase>, i: int) -> (k: int)
    requires
        0 <= i < orders(plan).len(),
    ensures
        0 <= k < plan.len(),
        plan[k] matches Phase::Ask(action, _, wrap) && orders(plan)[i] == (action, wrap),
    decreases plan.len(),
{
    match plan[0] {
        Phase::Ask(_, _, _) => if i == 0 {
            0
        } else {
            lemma_order_comes_from(plan.drop_first(), i - 1) + 1
        },
        _ => lemma_order_comes_from(plan.drop_first(), i) + 1,
    }
}

/// What a failure of a phase of a restoring is reported as.
#[verifier::rlimit(30)]
proof fn lemma_phase_wraps(
    build: Build,
    config: VmConfigView,
    url: String,
    prefault: bool,
    net_fds: Option<Vec<RestoredNetConfig>>,
    k: int,
)
    requires
        0 <= k < restored_plan(build, config, url, prefault, net_fds).len(),
    ensures
        restored_plan(build, config, url, prefault, net_fds)[k] matches Phase::Ask(action, _, wrap)
            ==> !(action is FetchConfig) && expect_of(action) is Done && wrap != Wrap::Ignore && wrap
            == (match action {
            Action::ValidateRestore => Wrap::ConfigValidation,
            Action::FetchState(_) => Wrap::Restore,
            Action::ReadVmSnapshot => Wrap::Restore,
            Action::GenerateCpuid(_) => Wrap::RestoreReceive(Context::DestinationCpuid),
            Action::CheckCpuid => Wrap::RestoreReceive(Context::CompareCpuid),
            Action::CreateConsole => Wrap::CreateConsoleDevices,
            Action::CloneEvent(_) => Wrap::EventFdClone,
            Action::ApplyLandlock => Wrap::ApplyLandlock,
            _ => Wrap::Machine,
        }),
{
    reveal(restored_plan);
}

} // verus!
