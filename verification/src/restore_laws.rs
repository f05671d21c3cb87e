//! What holds of the restoring of a machine: it succeeds, or it leaves nothing.

use vstd::prelude::*;
use crate::config::{items, with_net_fds, RestoreConfig, RestoredNetConfig, VmConfigView};
use crate::error::{Failure, VmError};
use crate::features::Build;
use crate::lifecycle::{
    ask, console_plan, cpuid_plan, delete_plan, events_plan, landlock_plan, note, provided,
    refuse, restored_plan, tdx_failure,
};
use crate::model::{advanced, after, applied, failed, fits, settled, Monitor, Waiting};
use crate::plan::{
    wrapped, Action, Change, Expect, Notice, Outcome, Phase, Recovery, StepView, VmSource, Wrap,
};
use crate::run::{
    course, lemma_failed_ends, lemma_next_ask, lemma_next_change, lemma_step, possible, taken_up,
    Request,
};
use crate::straight::lemma_over;

verus! {

/// Whether an action can belong to the making of a machine.
spec fn makes(action: Action) -> bool {
    !(action is ShutdownVm) && !(action is ValidateRestore)
}

/// A phase of a restoring that a failure undoes.
spec fn undoable(phase: Phase) -> bool {
    match phase {
        Phase::Ask(action, expect, wrap) => expect is Done && wrap != Wrap::Ignore && makes(action),
        Phase::Apply(change) => change is InstallCandidate || change is ConsoleReady
            || change is InstallVm,
        Phase::Fail(failure) => failure == tdx_failure(true),
    }
}

/// Phases that a failure undoes.
spec fn all_undoable(plan: Seq<Phase>) -> bool {
    forall|i: int| 0 <= i < plan.len() ==> undoable(#[trigger] plan[i])
}

/// Whether a plan installs a machine.
spec fn installs(plan: Seq<Phase>) -> bool {
    exists|i: int| 0 <= i < plan.len() && #[trigger] plan[i] == Phase::Apply(Change::InstallVm)
}

/// Whether a plan installs the candidate, once, and no machine before it.
spec fn installs_candidate(plan: Seq<Phase>) -> bool {
    exists|i: int|
        {
            &&& 0 <= i < plan.len()
            &&& #[trigger] plan[i] == Phase::Apply(Change::InstallCandidate)
            &&& keeps_config(plan.skip(i + 1))
            &&& forall|j: int| 0 <= j < i ==> !(#[trigger] plan[j] is Apply)
        }
}

/// Whether a plan leaves the configuration.
spec fn keeps_config(plan: Seq<Phase>) -> bool {
    forall|i: int|
        0 <= i < plan.len() ==> #[trigger] plan[i] != Phase::Apply(Change::InstallCandidate)
}

/// Two plans of phases that a failure undoes, one after the other.
proof fn lemma_undoable_chain(head: Seq<Phase>, tail: Seq<Phase>)
    requires
        all_undoable(head),
        all_undoable(tail),
    ensures
        all_undoable(head + tail),
{
    assert forall|i: int| 0 <= i < (head + tail).len() implies undoable(
        #[trigger] (head + tail)[i],
    ) by {
        if i < head.len() {
            assert(undoable(head[i]));
        } else {
            assert(undoable(tail[i - head.len()]));
        }
    }
}

/// Two plans that leave the configuration, one after the other.
proof fn lemma_keeping_chain(head: Seq<Phase>, tail: Seq<Phase>)
    requires
        keeps_config(head),
        keeps_config(tail),
    ensures
        keeps_config(head + tail),
{
    assert forall|i: int| 0 <= i < (head + tail).len() implies #[trigger] (head + tail)[i]
        != Phase::Apply(Change::InstallCandidate) by {
        if i < head.len() {
            assert(head[i] != Phase::Apply(Change::InstallCandidate));
        } else {
            assert(tail[i - head.len()] != Phase::Apply(Change::InstallCandidate));
        }
    }
}

/// What is left of the deletion of a machine while it is shut down.
spec fn rest_of_deletion() -> Seq<Phase> {
    seq![note(Notice::Shutdown), Phase::Apply(Change::ClearConfig), note(Notice::Deleted)]
}

/// The configuration is awaited.
spec fn fetching(at: (Monitor, StepView), restore: RestoreConfig) -> bool {
    &&& at.1 == StepView::Perform(Action::FetchConfig(restore.source_url->0))
    &&& at.0.vm is None
    &&& at.0.vm_config is None
    &&& at.0.plan.len() == 0
    &&& at.0.pending is None
    &&& at.0.recovery == Recovery::Nothing
    &&& at.0.waiting == Some(
        Waiting {
            expect: Expect::RestoredConfig {
                url: restore.source_url->0,
                prefault: restore.prefault,
                net_fds: restore.net_fds,
            },
            wrap: Wrap::Restore,
        },
    )
}

/// The phases after the validation.
spec fn after_validation(
    build: Build,
    config: VmConfigView,
    url: String,
    prefault: bool,
    net_fds: Option<Vec<RestoredNetConfig>>,
) -> Seq<Phase> {
    seq![
        Phase::Apply(Change::AdoptNetFds(net_fds)),
        Phase::Apply(Change::OnFailure(Recovery::DeleteVm)),
    ] + undone(build, config, url, prefault)
}

/// The phases that a failure undoes.
spec fn undone(build: Build, config: VmConfigView, url: String, prefault: bool) -> Seq<Phase> {
    seq![ask(Action::FetchState(url), Wrap::Restore)] + provided(
        build.spec_compares_cpuid(),
        seq![ask(Action::ReadVmSnapshot, Wrap::Restore)],
    ) + cpuid_plan(build, config, true) + seq![Phase::Apply(Change::InstallCandidate)]
        + console_plan(Wrap::CreateConsoleDevices) + events_plan(build, false) + seq![
        ask(Action::CreateVm(VmSource::Snapshot { url, prefault }), Wrap::Machine),
        Phase::Apply(Change::InstallVm),
    ] + landlock_plan(config.landlock_enable, Wrap::ApplyLandlock) + seq![
        ask(Action::RestoreVm, Wrap::Machine),
    ]
}

/// The configuration is being validated.
spec fn validating(at: (Monitor, StepView), restore: RestoreConfig, config: VmConfigView) -> bool {
    &&& at.1 == StepView::Perform(Action::ValidateRestore)
    &&& at.0.vm is None
    &&& at.0.vm_config is None
    &&& at.0.candidate == Some(config)
    &&& at.0.pending is None
    &&& at.0.recovery == Recovery::Nothing
    &&& at.0.waiting == Some(Waiting { expect: Expect::Done, wrap: Wrap::ConfigValidation })
    &&& at.0.plan == after_validation(
        at.0.build,
        config,
        restore.source_url->0,
        restore.prefault,
        restore.net_fds,
    )
}

/// The machine of a configuration is being made, and a failure undoes what
/// there is of it.
spec fn making(m: Monitor, config: VmConfigView) -> bool {
    &&& m.pending is None
    &&& m.recovery == Recovery::DeleteVm
    &&& all_undoable(m.plan)
    &&& {
        ||| m.vm is None && m.candidate == Some(config) && installs_candidate(m.plan) && installs(
            m.plan,
        )
        ||| m.vm_config == Some(config) && keeps_config(m.plan) && (m.vm == Some(
            None::<VmConfigView>,
        ) || m.vm is None && installs(m.plan))
    }
}

/// The machine is being made, and an outcome is awaited.
spec fn making_at(at: (Monitor, StepView), config: VmConfigView) -> bool {
    &&& at.1 matches StepView::Perform(action) && makes(action)
    &&& making(at.0, config)
    &&& at.0.waiting matches Some(waiting) && waiting.expect is Done && waiting.wrap != Wrap::Ignore
}

/// The restoring has failed, and its machine is being shut down.
spec fn undoing(at: (Monitor, StepView), failure: Failure) -> bool {
    &&& at.1 == StepView::Perform(Action::ShutdownVm)
    &&& at.0.vm is None
    &&& at.0.pending == Some(failure)
    &&& at.0.plan == rest_of_deletion()
    &&& at.0.waiting == Some(Waiting { expect: Expect::Done, wrap: Wrap::Machine })
}

/// The restoring of a configuration is over. Where nothing is left, it reports
/// its own failure.
spec fn over(
    at: (Monitor, StepView),
    config: VmConfigView,
    failure: Failure,
    clean: bool,
) -> bool {
    match at.1 {
        StepView::Perform(_) => false,
        StepView::Done(Ok(_)) => at.0.vm == Some(None::<VmConfigView>) && at.0.vm_config == Some(
            config,
        ),
        StepView::Done(Err(e)) => at.0.vm is None && (clean ==> at.0.vm_config is None && e
            == failure),
    }
}

/// What has been deleted is gone.
proof fn lemma_deleting(m: Monitor, config: VmConfigView, failure: Failure)
    requires
        m.waiting is None,
        m.pending == Some(failure),
        m.plan == delete_plan(m),
        m.vm is Some ==> m.vm_config is Some,
    ensures
        undoing(settled(m), failure) || over(settled(m), config, failure, true),
{
    if m.vm is Some {
        let retired = Monitor { vm: None, retired: m.vm, plan: m.plan.skip(1), ..m };
        assert(m.plan.drop_first() =~= m.plan.skip(1));
        assert(settled(m) == settled(retired));
        let drained = Monitor { console_info: false, plan: m.plan.skip(2), ..retired };
        assert(retired.plan.drop_first() =~= m.plan.skip(2));
        assert(settled(retired) == settled(drained));
        assert(drained.plan.drop_first() =~= rest_of_deletion());
    } else if m.vm_config is Some {
        let cleared = Monitor { vm_config: None, plan: m.plan.skip(1), ..m };
        assert(m.plan.drop_first() =~= m.plan.skip(1));
        assert(settled(m) == settled(cleared));
        let noted = Monitor {
            notices: m.notices.push(Notice::Deleted),
            plan: Seq::empty(),
            ..cleared
        };
        assert(cleared.plan.drop_first() =~= noted.plan);
        assert(settled(cleared) == settled(noted));
    }
}

/// A failure while the machine is being made undoes it.
proof fn lemma_undone(m: Monitor, config: VmConfigView, failure: Failure)
    requires
        m.waiting is None,
        m.pending is None,
        m.recovery == Recovery::DeleteVm,
        m.vm is Some ==> m.vm_config is Some,
    ensures
        ({
            let next = settled(failed(m, failure));
            undoing(next, failure) || over(next, config, failure, true)
        }),
{
    let f = failed(m, failure);
    assert(f.plan == delete_plan(m));
    assert(delete_plan(f) == delete_plan(m));
    lemma_deleting(f, config, failure);
}

/// The making of a machine goes on, or ends.
proof fn lemma_making(m: Monitor, config: VmConfigView)
    requires
        m.waiting is None,
        making(m, config),
    ensures
        ({
            let next = settled(m);
            let refused = tdx_failure(true);
            making_at(next, config) || undoing(next, refused) || over(next, config, refused, true)
        }),
    decreases m.plan.len(),
{
    if m.plan.len() > 0 {
        let rest = Monitor { plan: m.plan.drop_first(), ..m };
        assert(undoable(m.plan[0]));
        lemma_rest(m.plan);
        match m.plan[0] {
            Phase::Ask(_, _, _) => {},
            Phase::Apply(change) => lemma_making(applied(rest, change), config),
            Phase::Fail(failure) => lemma_undone(rest, config, failure),
        }
    }
}

/// What a plan does, its first phase does or the rest.
proof fn lemma_rest(plan: Seq<Phase>)
    requires
        plan.len() > 0,
    ensures
        all_undoable(plan) ==> all_undoable(plan.drop_first()),
        keeps_config(plan) ==> keeps_config(plan.drop_first()),
        installs(plan) && plan[0] != Phase::Apply(Change::InstallVm) ==> installs(
            plan.drop_first(),
        ),
        installs_candidate(plan) && plan[0] == Phase::Apply(Change::InstallCandidate)
            ==> keeps_config(plan.drop_first()),
        installs_candidate(plan) && plan[0] != Phase::Apply(Change::InstallCandidate)
            ==> installs_candidate(plan.drop_first()) && !(plan[0] is Apply),
{
    let rest = plan.drop_first();
    assert(forall|i: int| 0 <= i < rest.len() ==> #[trigger] rest[i] == plan[i + 1]);
    if installs(plan) && plan[0] != Phase::Apply(Change::InstallVm) {
        let i = choose|i: int|
            0 <= i < plan.len() && #[trigger] plan[i] == Phase::Apply(Change::InstallVm);
        assert(rest[i - 1] == plan[i]);
    }
    if installs_candidate(plan) {
        let i = choose|i: int|
            {
                &&& 0 <= i < plan.len()
                &&& #[trigger] plan[i] == Phase::Apply(Change::InstallCandidate)
                &&& keeps_config(plan.skip(i + 1))
                &&& forall|j: int| 0 <= j < i ==> !(#[trigger] plan[j] is Apply)
            };
        if i == 0 {
            assert(plan.skip(1) =~= rest);
        } else {
            assert(rest.skip(i) =~= plan.skip(i + 1));
            assert(rest[i - 1] == plan[i]);
        }
    }
}

/// The phases that a failure undoes install the candidate and, after it, a
/// machine.
proof fn lemma_undone_plan(build: Build, config: VmConfigView, url: String, prefault: bool)
    ensures
        all_undoable(undone(build, config, url, prefault)),
        installs(undone(build, config, url, prefault)),
        installs_candidate(undone(build, config, url, prefault)),
{
    let fetch = seq![ask(Action::FetchState(url), Wrap::Restore)];
    let read = provided(
        build.spec_compares_cpuid(),
        seq![ask(Action::ReadVmSnapshot, Wrap::Restore)],
    );
    let cpuid = cpuid_plan(build, config, true);
    let install = seq![Phase::Apply(Change::InstallCandidate)];
    let console = console_plan(Wrap::CreateConsoleDevices);
    let events = events_plan(build, false);
    let creation = seq![
        ask(Action::CreateVm(VmSource::Snapshot { url, prefault }), Wrap::Machine),
        Phase::Apply(Change::InstallVm),
    ];
    let landlock = landlock_plan(config.landlock_enable, Wrap::ApplyLandlock);
    let end = seq![ask(Action::RestoreVm, Wrap::Machine)];
    assert(all_undoable(events));
    lemma_undoable_chain(fetch, read);
    lemma_undoable_chain(fetch + read, cpuid);
    lemma_undoable_chain(fetch + read + cpuid, install);
    lemma_undoable_chain(fetch + read + cpuid + install, console);
    let head = fetch + read + cpuid + install + console;
    lemma_undoable_chain(head, events);
    lemma_undoable_chain(head + events, creation);
    lemma_undoable_chain(head + events + creation, landlock);
    lemma_undoable_chain(head + events + creation + landlock, end);
    let plan = undone(build, config, url, prefault);
    let i = (head + events).len() as int + 1;
    assert(plan[i] == Phase::Apply(Change::InstallVm));
    let before = fetch + read + cpuid;
    let k = before.len() as int;
    assert(plan[k] == Phase::Apply(Change::InstallCandidate));
    lemma_keeping_chain(console, events);
    lemma_keeping_chain(console + events, creation);
    lemma_keeping_chain(console + events + creation, landlock);
    lemma_keeping_chain(console + events + creation + landlock, end);
    assert(plan.skip(k + 1) =~= console + events + creation + landlock + end);
    assert forall|j: int| 0 <= j < k implies !(#[trigger] plan[j] is Apply) by {
        assert(plan[j] == before[j]);
    }
}

/// The configuration that a restoring has read.
spec fn fetched(outcomes: Seq<Outcome>) -> VmConfigView {
    match outcomes[0] {
        Outcome::Config(config) => config@,
        _ => arbitrary(),
    }
}

/// The configuration that a machine is restored with: the one that was read,
/// under the new descriptors of its network devices.
spec fn goal(restore: RestoreConfig, config: VmConfigView) -> VmConfigView {
    with_net_fds(config, items(restore.net_fds))
}

/// Where a restoring can be.
spec fn restoring(
    at: (Monitor, StepView),
    restore: RestoreConfig,
    outcomes: Seq<Outcome>,
    reported: Option<Failure>,
) -> bool {
    let config = fetched(outcomes);
    if outcomes.len() == 0 {
        fetching(at, restore)
    } else {
        &&& at.0.pending is None && at.1 is Perform ==> reported is None
        &&& outcomes[0] is Config || (at.1 matches StepView::Done(Err(_)))
        &&& {
            ||| validating(at, restore, config)
            ||| making_at(at, goal(restore, config))
            ||| undoing(at, own(reported))
            ||| over(at, goal(restore, config), own(reported), false)
        }
    }
}

/// The fetching of the configuration goes on to its validation.
proof fn lemma_fetched(at: (Monitor, StepView), restore: RestoreConfig, outcome: Outcome)
    requires
        fetching(at, restore),
        fits(at.0, outcome),
    ensures
        ({
            let config = fetched(seq![outcome]);
            let next = advanced(at.0, outcome);
            let failure = match outcome {
                Outcome::Failed(fault) => wrapped(at.0.waiting->0.wrap, fault),
                _ => tdx_failure(true),
            };
            validating(next, restore, config) && !(outcome is Failed) || over(
                next,
                goal(restore, config),
                failure,
                true,
            )
        }),
        outcome is Config || (advanced(at.0, outcome).1 matches StepView::Done(Err(_))),
{
    let rest = Monitor { waiting: None, ..at.0 };
    match outcome {
        Outcome::Failed(fault) => lemma_failed_ends(rest, wrapped(Wrap::Restore, fault)),
        Outcome::Config(config) => {
            let next = after(rest, at.0.waiting->0.expect, outcome);
            let url = restore.source_url->0;
            lemma_restored_plan(rest.build, config@, url, restore.prefault, restore.net_fds);
            assert(next.plan =~= restored_plan(
                rest.build,
                config@,
                url,
                restore.prefault,
                restore.net_fds,
            ));
            lemma_next_ask(
                next,
                Action::ValidateRestore,
                Expect::Done,
                Wrap::ConfigValidation,
                after_validation(rest.build, config@, url, restore.prefault, restore.net_fds),
            );
            let then = advanced(at.0, outcome);
            assert(then == settled(next));
            assert(then.0.plan == after_validation(
                then.0.build,
                config@,
                url,
                restore.prefault,
                restore.net_fds,
            ));
        },
        _ => {},
    }
}

/// A restoring begins with the validation.
proof fn lemma_restored_plan(
    build: Build,
    config: VmConfigView,
    url: String,
    prefault: bool,
    net_fds: Option<Vec<RestoredNetConfig>>,
)
    ensures
        restored_plan(build, config, url, prefault, net_fds) == seq![
            ask(Action::ValidateRestore, Wrap::ConfigValidation),
        ] + after_validation(build, config, url, prefault, net_fds),
{
    reveal(restored_plan);
    assert(restored_plan(build, config, url, prefault, net_fds) =~= seq![
        ask(Action::ValidateRestore, Wrap::ConfigValidation),
    ] + after_validation(build, config, url, prefault, net_fds));
}

/// The first phases after the validation.
proof fn lemma_guarded(m: Monitor, tail: Seq<Phase>, net_fds: Option<Vec<RestoredNetConfig>>)
    requires
        m.plan == seq![
            Phase::Apply(Change::AdoptNetFds(net_fds)),
            Phase::Apply(Change::OnFailure(Recovery::DeleteVm)),
        ] + tail,
    ensures
        ({
            let guarded = Monitor {
                candidate: applied(m, Change::AdoptNetFds(net_fds)).candidate,
                recovery: Recovery::DeleteVm,
                plan: tail,
                ..m
            };
            settled(m) == settled(guarded)
        }),
{
    let one = seq![Phase::Apply(Change::OnFailure(Recovery::DeleteVm))] + tail;
    assert(m.plan =~= seq![Phase::Apply(Change::AdoptNetFds(net_fds))] + one);
    lemma_next_change(m, Change::AdoptNetFds(net_fds), one);
    let adopted = applied(Monitor { plan: one, ..m }, Change::AdoptNetFds(net_fds));
    lemma_next_change(adopted, Change::OnFailure(Recovery::DeleteVm), tail);
}

/// The phases that a failure undoes begin with the fetching of the state.
proof fn lemma_undone_first(build: Build, config: VmConfigView, url: String, prefault: bool)
    ensures
        undone(build, config, url, prefault) == seq![
            ask(Action::FetchState(url), Wrap::Restore),
        ] + undone(build, config, url, prefault).skip(1),
        all_undoable(undone(build, config, url, prefault).skip(1)),
        installs(undone(build, config, url, prefault).skip(1)),
        installs_candidate(undone(build, config, url, prefault).skip(1)),
{
    lemma_undone_plan(build, config, url, prefault);
    let plan = undone(build, config, url, prefault);
    let rest = plan.skip(1);
    assert(plan[0] == ask(Action::FetchState(url), Wrap::Restore));
    assert(plan =~= seq![ask(Action::FetchState(url), Wrap::Restore)] + rest);
    assert(plan.drop_first() =~= rest);
    lemma_rest(plan);
}

/// The validation of the configuration goes on to the making of the machine.
proof fn lemma_validated(
    at: (Monitor, StepView),
    restore: RestoreConfig,
    config: VmConfigView,
    outcome: Outcome,
)
    requires
        validating(at, restore, config),
        fits(at.0, outcome),
    ensures
        ({
            let next = advanced(at.0, outcome);
            let failure = match outcome {
                Outcome::Failed(fault) => wrapped(at.0.waiting->0.wrap, fault),
                _ => tdx_failure(true),
            };
            making_at(next, goal(restore, config)) && !(outcome is Failed) || over(
                next,
                goal(restore, config),
                failure,
                true,
            )
        }),
{
    let rest = Monitor { waiting: None, ..at.0 };
    let url = restore.source_url->0;
    match outcome {
        Outcome::Failed(fault) => lemma_failed_ends(rest, wrapped(Wrap::ConfigValidation, fault)),
        _ => {
            let tail = undone(rest.build, config, url, restore.prefault);
            lemma_undone_first(rest.build, config, url, restore.prefault);
            lemma_guarded(rest, tail, restore.net_fds);
            let guarded = Monitor {
                candidate: applied(rest, Change::AdoptNetFds(restore.net_fds)).candidate,
                recovery: Recovery::DeleteVm,
                plan: tail,
                ..rest
            };
            lemma_next_ask(
                guarded,
                Action::FetchState(url),
                Expect::Done,
                Wrap::Restore,
                tail.skip(1),
            );
        },
    }
}

/// The making of the machine goes on, or is undone.
proof fn lemma_made(at: (Monitor, StepView), config: VmConfigView, outcome: Outcome)
    requires
        making_at(at, config),
        fits(at.0, outcome),
    ensures
        ({
            let next = advanced(at.0, outcome);
            let failure = match outcome {
                Outcome::Failed(fault) => wrapped(at.0.waiting->0.wrap, fault),
                _ => tdx_failure(true),
            };
            making_at(next, config) && !(outcome is Failed) || undoing(next, failure) || over(
                next,
                config,
                failure,
                true,
            )
        }),
{
    let rest = Monitor { waiting: None, ..at.0 };
    match outcome {
        Outcome::Failed(fault) => lemma_undone(
            rest,
            config,
            wrapped(at.0.waiting->0.wrap, fault),
        ),
        _ => lemma_making(rest, config),
    }
}

/// The shutdown of the machine ends the restoring. Only where it fails is the
/// configuration left.
proof fn lemma_shut_down(
    at: (Monitor, StepView),
    config: VmConfigView,
    failure: Failure,
    outcome: Outcome,
)
    requires
        undoing(at, failure),
        fits(at.0, outcome),
    ensures
        over(advanced(at.0, outcome), config, failure, !(outcome is Failed)),
        advanced(at.0, outcome).1 == StepView::Done(
            Err(
                match outcome {
                    Outcome::Failed(fault) => wrapped(Wrap::Machine, fault),
                    _ => failure,
                },
            ),
        ),
{
    let rest = Monitor { waiting: None, ..at.0 };
    match outcome {
        Outcome::Failed(fault) => lemma_failed_ends(rest, wrapped(Wrap::Machine, fault)),
        _ => lemma_deletion_ends(rest, config, failure),
    }
}

/// The rest of a deletion.
proof fn lemma_deletion_ends(m: Monitor, config: VmConfigView, failure: Failure)
    requires
        m.plan == rest_of_deletion(),
        m.pending == Some(failure),
        m.vm is None,
    ensures
        over(settled(m), config, failure, true),
        settled(m).1 == StepView::Done(Err(failure)),
{
    let one = seq![Phase::Apply(Change::ClearConfig), note(Notice::Deleted)];
    let two = seq![note(Notice::Deleted)];
    assert(m.plan =~= seq![note(Notice::Shutdown)] + one);
    lemma_next_change(m, Change::Note(Notice::Shutdown), one);
    let noted = applied(Monitor { plan: one, ..m }, Change::Note(Notice::Shutdown));
    assert(one =~= seq![Phase::Apply(Change::ClearConfig)] + two);
    lemma_next_change(noted, Change::ClearConfig, two);
    let cleared = applied(Monitor { plan: two, ..noted }, Change::ClearConfig);
    assert(two =~= seq![note(Notice::Deleted)] + Seq::empty());
    lemma_next_change(cleared, Change::Note(Notice::Deleted), Seq::empty());
}

/// Where a restoring begins.
proof fn lemma_restore_begins(m: Monitor, restore: RestoreConfig)
    requires
        m.idle(),
        m.vm is None,
        m.vm_config is None,
        restore.source_url is Some,
    ensures
        fetching(taken_up(m, Request::Restore(restore)), restore),
{
    let at = taken_up(m, Request::Restore(restore));
    assert(at.0.plan =~= Seq::empty());
}

/// Whether some outcomes end with a failed shutdown of the machine.
pub open spec fn shutdown_failed(m: Monitor, request: Request, outcomes: Seq<Outcome>) -> bool {
    &&& outcomes.len() > 0
    &&& outcomes.last() is Failed
    &&& course(m, request, outcomes.drop_last()).1 == StepView::Perform(Action::ShutdownVm)
}

/// The first failure that the host has reported in a request, as the request
/// reports it.
pub open spec fn first_failure(m: Monitor, request: Request, outcomes: Seq<Outcome>) -> Option<
    Failure,
>
    decreases outcomes.len(),
{
    if outcomes.len() == 0 {
        None
    } else {
        match first_failure(m, request, outcomes.drop_last()) {
            Some(failure) => Some(failure),
            None => match outcomes.last() {
                Outcome::Failed(fault) => Some(
                    wrapped(course(m, request, outcomes.drop_last()).0.waiting->0.wrap, fault),
                ),
                _ => None,
            },
        }
    }
}

/// A restoring's own failure: the first that the host has reported and, where
/// it has reported none, that a TDX machine cannot be restored.
pub open spec fn own(reported: Option<Failure>) -> Failure {
    match reported {
        Some(failure) => failure,
        None => tdx_failure(true),
    }
}

/// A restoring is somewhere on its way.
proof fn lemma_restoring(m: Monitor, restore: RestoreConfig, outcomes: Seq<Outcome>)
    requires
        m.vm is None,
        m.vm_config is None,
        restore.source_url is Some,
        possible(m, Request::Restore(restore), outcomes),
    ensures
        ({
            let request = Request::Restore(restore);
            let at = course(m, request, outcomes);
            let reported = first_failure(m, request, outcomes);
            &&& restoring(at, restore, outcomes, reported)
            &&& at.1 is Done && !shutdown_failed(m, request, outcomes) ==> over(
                at,
                goal(restore, fetched(outcomes)),
                own(reported),
                true,
            )
            &&& at.1 is Done && shutdown_failed(m, request, outcomes) ==> at.1 == StepView::Done(
                Err(wrapped(Wrap::Machine, outcomes.last()->Failed_0)),
            )
        }),
    decreases outcomes.len(),
{
    let request = Request::Restore(restore);
    if outcomes.len() == 0 {
        reveal(course);
        reveal(possible);
        lemma_restore_begins(m, restore);
    } else {
        let before = outcomes.drop_last();
        let outcome = outcomes.last();
        let config = fetched(outcomes);
        lemma_step(m, request, outcomes);
        lemma_restoring(m, restore, before);
        let at = course(m, request, before);
        let earlier = first_failure(m, request, before);
        if before.len() == 0 {
            lemma_fetched(at, restore, outcome);
        } else if validating(at, restore, config) {
            lemma_validated(at, restore, config, outcome);
        } else if making_at(at, goal(restore, config)) {
            lemma_made(at, goal(restore, config), outcome);
        } else if undoing(at, own(earlier)) {
            lemma_shut_down(at, goal(restore, config), own(earlier), outcome);
        } else {
            lemma_over(m, request, before);
        }
    }
}

/// A restoring succeeds, and there is a machine of the configuration that was
/// read, under the new descriptors of its network devices, or it fails, and
/// there is no machine. Then there is no configuration either, unless the
/// machine had been made by then and could not be shut down.
pub proof fn law_restore(m: Monitor, restore: RestoreConfig, outcomes: Seq<Outcome>)
    requires
        m.vm is None,
        m.vm_config is None,
        restore.source_url is Some,
        possible(m, Request::Restore(restore), outcomes),
    ensures
        ({
            let end = course(m, Request::Restore(restore), outcomes);
            &&& end.1 matches StepView::Done(Ok(_)) ==> {
                &&& outcomes.len() > 0
                &&& outcomes[0] matches Outcome::Config(config)
                &&& end.0.vm == Some(None::<VmConfigView>)
                &&& end.0.vm_config == Some(with_net_fds(config@, items(restore.net_fds)))
            }
            &&& end.1 matches StepView::Done(Err(_)) ==> end.0.vm is None && (!shutdown_failed(
                m,
                Request::Restore(restore),
                outcomes,
            ) ==> end.0.vm_config is None)
        }),
{
    lemma_restoring(m, restore, outcomes);
}

/// A restoring that fails reports its own failure, unless what there was of
/// the machine could not be shut down: then it reports that. A configuration
/// that is not valid is reported as such, and so is a path that is no text.
pub proof fn law_restore_error(m: Monitor, restore: RestoreConfig, outcomes: Seq<Outcome>)
    requires
        m.vm is None,
        m.vm_config is None,
        possible(m, Request::Restore(restore), outcomes),
    ensures
        ({
            let request = Request::Restore(restore);
            course(m, request, outcomes).1 matches StepView::Done(Err(e)) ==> e
                == if restore.source_url is None {
                Failure::Vm(VmError::InvalidRestoreSourceUrl)
            } else if shutdown_failed(m, request, outcomes) {
                wrapped(Wrap::Machine, outcomes.last()->Failed_0)
            } else {
                own(first_failure(m, request, outcomes))
            }
        }),
        outcomes.len() > 0 && course(m, Request::Restore(restore), outcomes.drop_last()).1
            == StepView::Perform(Action::ValidateRestore) ==> (
        outcomes.last() matches Outcome::Failed(fault) ==> course(
            m,
            Request::Restore(restore),
            outcomes,
        ).1 == StepView::Done(Err(Failure::Vm(VmError::ConfigValidation(fault))))),
{
    if restore.source_url is None {
        lemma_no_url(m, restore, outcomes);
    } else {
        lemma_restoring(m, restore, outcomes);
        if outcomes.len() > 0 {
            lemma_invalid(m, restore, outcomes);
        }
    }
}

/// A configuration that is not valid is reported as such.
proof fn lemma_invalid(m: Monitor, restore: RestoreConfig, outcomes: Seq<Outcome>)
    requires
        m.vm is None,
        m.vm_config is None,
        restore.source_url is Some,
        outcomes.len() > 0,
        possible(m, Request::Restore(restore), outcomes),
    ensures
        ({
            let request = Request::Restore(restore);
            course(m, request, outcomes.drop_last()).1 == StepView::Perform(
                Action::ValidateRestore,
            ) ==> (outcomes.last() matches Outcome::Failed(fault) ==> course(
                m,
                request,
                outcomes,
            ).1 == StepView::Done(Err(Failure::Vm(VmError::ConfigValidation(fault)))))
        }),
{
    let request = Request::Restore(restore);
    let before = outcomes.drop_last();
    let at = course(m, request, before);
    lemma_step(m, request, outcomes);
    lemma_restoring(m, restore, before);
    if at.1 == StepView::Perform(Action::ValidateRestore) {
        if let Outcome::Failed(fault) = outcomes.last() {
            lemma_failed_ends(
                Monitor { waiting: None, ..at.0 },
                wrapped(Wrap::ConfigValidation, fault),
            );
        }
    }
}

/// Without a URL nothing is asked of the host.
proof fn lemma_no_url(m: Monitor, restore: RestoreConfig, outcomes: Seq<Outcome>)
    requires
        m.vm is None,
        m.vm_config is None,
        restore.source_url is None,
        possible(m, Request::Restore(restore), outcomes),
    ensures
        outcomes.len() == 0,
        course(m, Request::Restore(restore), outcomes).1 == StepView::Done(
            Err(Failure::Vm(VmError::InvalidRestoreSourceUrl)),
        ),
    decreases outcomes.len(),
{
    let request = Request::Restore(restore);
    if outcomes.len() == 0 {
        reveal(course);
        reveal(possible);
        let refused = Failure::Vm(VmError::InvalidRestoreSourceUrl);
        let planned = Monitor { plan: refuse(VmError::InvalidRestoreSourceUrl), ..m };
        assert(planned.plan.drop_first() =~= Seq::empty());
        lemma_failed_ends(Monitor { plan: Seq::empty(), ..m }, refused);
    } else {
        lemma_step(m, request, outcomes);
        lemma_no_url(m, restore, outcomes.drop_last());
        lemma_over(m, request, outcomes.drop_last());
    }
}

} // verus!
