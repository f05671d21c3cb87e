//! What follows the failure of a sending.

use vstd::prelude::*;
use crate::config::VmConfigView;
use crate::endpoint::{endpoint_of, no_path_in, EndpointView};
use crate::error::{Context, Failure};
use crate::features::Build;
use crate::lifecycle::{ask, provided};
use crate::migration::{
    await_answer, connect_wrap, descriptors_plan, dirty_pass, dirty_plan, length_plan,
    quiesce_plan, send_began, send_migration_plan, source_cpuid_plan, table_plan,
    transfer_plan,
};
use crate::model::{advanced, after, failed, fits, settled, Monitor, Waiting};
use crate::plan::{
    send_error, wrapped, Action, Change, Command, Expect, Outcome, Phase, Recovery, ReplyView,
    StepView, VmSendMigrationData, VmState, Wrap,
};
use crate::run::{
    course, lemma_failed_ends, lemma_next_ask, lemma_next_change, lemma_step, possible, Request,
};
use crate::sending_laws::law_paused_machine_is_resumed;
use crate::straight::lemma_over;
use crate::trace::{lemma_failure_stays, lemma_settled_pending};

verus! {

/// Whether an outcome of a transfer is put to use as it can be.
spec fn usable(expect: Expect) -> bool {
    expect is Done || expect is Answer || expect is Length || expect is Table || expect is Dirty
}

/// A phase of a transfer that a failure aborts.
spec fn guarded(phase: Phase) -> bool {
    match phase {
        Phase::Ask(action, expect, wrap) => {
            &&& usable(expect)
            &&& wrap != Wrap::Ignore
            &&& !(action is SignalExit)
            &&& !(action is ReadSharedMemory)
        },
        Phase::Apply(_) => false,
        Phase::Fail(_) => true,
    }
}

/// Phases of a transfer that a failure aborts.
spec fn all_guarded(plan: Seq<Phase>) -> bool {
    forall|i: int| 0 <= i < plan.len() ==> guarded(#[trigger] plan[i])
}

/// Two plans that failures abort, one after the other.
proof fn lemma_guarded_join(head: Seq<Phase>, tail: Seq<Phase>)
    requires
        all_guarded(head),
        all_guarded(tail),
    ensures
        all_guarded(head + tail),
{
    assert forall|i: int| 0 <= i < (head + tail).len() implies guarded(
        #[trigger] (head + tail)[i],
    ) by {
        if i < head.len() {
            assert(guarded(head[i]));
        } else {
            assert(guarded(tail[i - head.len()]));
        }
    }
}

/// How a sending ends: failures no longer abort it, and the monitor's exit is
/// signalled.
spec fn closing() -> Seq<Phase> {
    seq![
        Phase::Apply(Change::OnFailure(Recovery::Nothing)),
        ask(Action::SignalExit, Wrap::Send(Context::SignalExit)),
    ]
}

/// The transfer of a machine.
#[verifier::rlimit(30)]
proof fn lemma_transfer_guarded(
    build: Build,
    config: VmConfigView,
    endpoint: EndpointView,
    local: bool,
)
    ensures
        all_guarded(transfer_plan(build, config, endpoint, local)),
{
    let first = seq![
        ask(Action::Connect, connect_wrap(endpoint)),
        ask(Action::SendRequest(Command::Start, 0), Wrap::Migration),
        await_answer(Context::Start),
    ];
    let cpuid = source_cpuid_plan(build, config);
    let descriptors = descriptors_plan(endpoint, local);
    let encode = seq![
        Phase::Ask(Action::EncodeConfig, Expect::Length(Command::Config), Wrap::Never),
        await_answer(Context::Config),
        ask(Action::StartMigration, Wrap::Migration),
    ];
    let quiesce = quiesce_plan(local);
    let state = seq![
        ask(Action::ReleaseDiskLocks, Wrap::Unlock),
        ask(Action::SnapshotVm, Wrap::Migration),
        Phase::Ask(Action::EncodeSnapshot, Expect::Length(Command::State), Wrap::Never),
        await_answer(Context::State),
        ask(Action::SendRequest(Command::Complete, 0), Wrap::Migration),
        await_answer(Context::Complete),
    ];
    let stop = provided(!local, seq![ask(Action::StopDirtyLog, Wrap::Migration)]);
    let last = seq![ask(Action::CompleteMigration, Wrap::Migration)];
    lemma_guarded_join(first, cpuid);
    lemma_guarded_join(first + cpuid, descriptors);
    lemma_guarded_join(first + cpuid + descriptors, encode);
    lemma_guarded_join(first + cpuid + descriptors + encode, quiesce);
    lemma_guarded_join(first + cpuid + descriptors + encode + quiesce, state);
    lemma_guarded_join(first + cpuid + descriptors + encode + quiesce + state, stop);
    lemma_guarded_join(first + cpuid + descriptors + encode + quiesce + state + stop, last);
}

/// Whether the monitor is in a transfer that a failure aborts.
spec fn in_transfer(local: bool, m: Monitor) -> bool {
    &&& m.recovery == (Recovery::AbortSend { local })
    &&& exists|plan: Seq<Phase>| #[trigger] all_guarded(plan) && m.plan == plan + closing()
}

/// Where a sending that has not failed can be: at its very beginning, in its
/// transfer, or at its very end.
spec fn stands_at(data: VmSendMigrationData, at: (Monitor, StepView)) -> bool {
    at.1 matches StepView::Perform(action) ==> at.0.pending is Some || {
        &&& at.0.waiting matches Some(waiting)
        &&& match action {
            Action::ReadSharedMemory => {
                &&& at.0.plan.len() == 0
                &&& at.0.recovery == Recovery::Nothing
                &&& waiting.expect == Expect::SharedMemory(data)
                &&& waiting.wrap == Wrap::Never
            },
            Action::SignalExit => at.0.plan.len() == 0 && waiting.expect is Done,
            _ => {
                &&& in_transfer(data.local, at.0)
                &&& usable(waiting.expect)
                &&& waiting.wrap != Wrap::Ignore
            },
        }
    }
}

/// A transfer goes on.
#[verifier::rlimit(30)]
proof fn lemma_transfer_goes_on(data: VmSendMigrationData, m: Monitor, plan: Seq<Phase>)
    requires
        m.recovery == (Recovery::AbortSend { local: data.local }),
        m.pending is None,
        all_guarded(plan),
        m.plan == plan + closing(),
    ensures
        stands_at(data, settled(m)),
{
    if plan.len() == 0 {
        let exit = seq![closing()[1]];
        assert(m.plan =~= seq![closing()[0]] + exit);
        lemma_next_change(m, Change::OnFailure(Recovery::Nothing), exit);
        let next = Monitor { plan: exit, recovery: Recovery::Nothing, ..m };
        assert(exit =~= exit + Seq::empty());
        lemma_next_ask(
            next,
            Action::SignalExit,
            Expect::Done,
            Wrap::Send(Context::SignalExit),
            Seq::empty(),
        );
    } else {
        let rest = plan.drop_first();
        assert(guarded(plan[0]));
        assert(m.plan[0] == plan[0]);
        assert(m.plan.drop_first() =~= rest + closing());
        assert(all_guarded(rest)) by {
            assert forall|i: int| 0 <= i < rest.len() implies guarded(#[trigger] rest[i]) by {
                assert(rest[i] == plan[i + 1]);
            }
        }
        match plan[0] {
            Phase::Fail(failure) => lemma_settled_pending(
                failed(Monitor { plan: rest + closing(), ..m }, failure),
            ),
            _ => {},
        }
    }
}

/// What follows a failure in a transfer: the dirty log is stopped, unless the
/// migration is local, and the machine's state is read.
proof fn lemma_aborts(rest: Monitor, failure: Failure, local: bool)
    requires
        rest.recovery == (Recovery::AbortSend { local }),
        rest.pending is None,
    ensures
        ({
            let at = settled(failed(rest, failure));
            &&& at.1 == StepView::Perform(
                if local {
                    Action::ReadState
                } else {
                    Action::StopDirtyLog
                },
            )
            &&& at.0.pending == Some(failure)
            &&& at.0.recovery == Recovery::Nothing
            &&& at.0.plan == if local {
                Seq::empty()
            } else {
                seq![Phase::Ask(Action::ReadState, Expect::Paused, Wrap::Never)]
            }
            &&& at.0.waiting == Some(
                if local {
                    Waiting { expect: Expect::Paused, wrap: Wrap::Never }
                } else {
                    Waiting { expect: Expect::Done, wrap: Wrap::Migration }
                },
            )
        }),
{
    let end = failed(rest, failure);
    let read = Phase::Ask(Action::ReadState, Expect::Paused, Wrap::Never);
    if local {
        assert(end.plan =~= seq![read] + Seq::empty());
        lemma_next_ask(end, Action::ReadState, Expect::Paused, Wrap::Never, Seq::empty());
    } else {
        let stop = ask(Action::StopDirtyLog, Wrap::Migration);
        assert(end.plan =~= seq![stop] + seq![read]);
        lemma_next_ask(end, Action::StopDirtyLog, Expect::Done, Wrap::Migration, seq![read]);
    }
}

/// An outcome in a transfer.
#[verifier::rlimit(30)]
proof fn lemma_transfer_step(data: VmSendMigrationData, before: Monitor, outcome: Outcome)
    requires
        in_transfer(data.local, before),
        before.pending is None,
        before.waiting matches Some(waiting) && usable(waiting.expect) && waiting.wrap
            != Wrap::Ignore,
        fits(before, outcome),
    ensures
        stands_at(data, advanced(before, outcome)),
        outcome is Failed || outcome is Refused ==> {
            let at = advanced(before, outcome);
            &&& at.1 == StepView::Perform(
                if data.local {
                    Action::ReadState
                } else {
                    Action::StopDirtyLog
                },
            )
            &&& at.0.pending == Some(
                match outcome {
                    Outcome::Failed(fault) => wrapped(before.waiting->0.wrap, fault),
                    _ => Failure::Migration(send_error(before.waiting->0.expect->Answer_0, None)),
                },
            )
            &&& at.0.recovery == Recovery::Nothing
            &&& at.0.plan == if data.local {
                Seq::empty()
            } else {
                seq![Phase::Ask(Action::ReadState, Expect::Paused, Wrap::Never)]
            }
            &&& at.0.waiting == Some(
                if data.local {
                    Waiting { expect: Expect::Paused, wrap: Wrap::Never }
                } else {
                    Waiting { expect: Expect::Done, wrap: Wrap::Migration }
                },
            )
        },
{
    let rest = Monitor { waiting: None, ..before };
    let waiting = before.waiting->0;
    let plan = choose|plan: Seq<Phase>| #[trigger]
        all_guarded(plan) && before.plan == plan + closing();
    match outcome {
        Outcome::Failed(fault) => lemma_aborts(rest, wrapped(waiting.wrap, fault), data.local),
        Outcome::Refused => lemma_aborts(
            rest,
            Failure::Migration(send_error(waiting.expect->Answer_0, None)),
            data.local,
        ),
        _ => {
            let head = inserted(waiting.expect, outcome);
            lemma_inserted(rest, waiting.expect, outcome);
            lemma_guarded_join(head, plan);
            let next = after(rest, waiting.expect, outcome);
            assert(next.plan =~= (head + plan) + closing());
            lemma_transfer_goes_on(data, next, head + plan);
        },
    }
}

/// What an outcome of a transfer puts before what is to come.
spec fn inserted(expect: Expect, outcome: Outcome) -> Seq<Phase> {
    match (expect, outcome) {
        (Expect::Length(command), Outcome::Number(length)) => length_plan(command, length),
        (Expect::Table, Outcome::Table(_, length)) => table_plan(length),
        (Expect::Dirty(passes), Outcome::Table(regions, length)) => dirty_plan(
            passes,
            regions,
            length,
        ),
        _ => Seq::empty(),
    }
}

/// What an outcome of a transfer changes of what is to come.
#[verifier::rlimit(30)]
proof fn lemma_inserted(rest: Monitor, expect: Expect, outcome: Outcome)
    requires
        usable(expect),
        !(outcome is Failed),
        !(outcome is Refused),
        fits(Monitor { waiting: Some(Waiting { expect, wrap: Wrap::Migration }), ..rest }, outcome),
    ensures
        all_guarded(inserted(expect, outcome)),
        after(rest, expect, outcome) == rest.then_do(inserted(expect, outcome)),
{
    match (expect, outcome) {
        (Expect::Dirty(passes), Outcome::Table(regions, length)) => {
            let again = provided(
                passes > 0,
                seq![dirty_pass((passes - 1) as u8)],
            );
            assert(all_guarded(table_plan(length)));
            assert(all_guarded(again));
            lemma_guarded_join(table_plan(length), again);
        },
        _ => {
            assert(rest.plan =~= Seq::empty() + rest.plan);
        },
    }
}

/// The first outcome of a sending.
#[verifier::rlimit(30)]
proof fn lemma_begins(data: VmSendMigrationData, before: Monitor, outcome: Outcome)
    requires
        before.plan.len() == 0,
        before.recovery == Recovery::Nothing,
        before.pending is None,
        before.waiting == Some(Waiting { expect: Expect::SharedMemory(data), wrap: Wrap::Never }),
        fits(before, outcome),
    ensures
        stands_at(data, advanced(before, outcome)),
{
    reveal(send_began);
    let rest = Monitor { waiting: None, ..before };
    let shared = outcome->Flag_0;
    let next = send_began(rest, data, shared);
    let guard = Change::OnFailure(Recovery::AbortSend { local: data.local });
    if !(!shared && data.local) && rest.vm is Some && rest.machine_config() is Some {
        let config = rest.machine_config()->0;
        let plan = match endpoint_of(data.destination_url@) {
            Some(endpoint) => transfer_plan(rest.build, config, endpoint, data.local) + closing(),
            None => seq![Phase::Fail(Failure::Migration(no_path_in(data.destination_url)))],
        };
        assert(next.plan =~= seq![Phase::Apply(guard)] + plan);
        lemma_next_change(next, guard, plan);
        let begun = Monitor {
            plan,
            recovery: Recovery::AbortSend { local: data.local },
            ..next
        };
        match endpoint_of(data.destination_url@) {
            Some(endpoint) => {
                lemma_transfer_guarded(rest.build, config, endpoint, data.local);
                lemma_transfer_goes_on(
                    data,
                    begun,
                    transfer_plan(rest.build, config, endpoint, data.local),
                );
            },
            None => {
                lemma_settled_pending(
                    failed(
                        Monitor { plan: plan.drop_first(), ..begun },
                        Failure::Migration(no_path_in(data.destination_url)),
                    ),
                );
            },
        }
    } else {
        let failure = next.plan[0]->Fail_0;
        assert(next.plan[0] is Fail);
        lemma_settled_pending(failed(Monitor { plan: next.plan.drop_first(), ..next }, failure));
    }
}

/// The course of a sending that has not failed.
proof fn lemma_stands(m: Monitor, data: VmSendMigrationData, outcomes: Seq<Outcome>)
    requires
        possible(m, Request::Send(data), outcomes),
    ensures
        stands_at(data, course(m, Request::Send(data), outcomes)),
    decreases outcomes.len(),
{
    let request = Request::Send(data);
    if outcomes.len() == 0 {
        reveal(course);
        reveal(possible);
        let plan = send_migration_plan(data);
        assert(plan =~= seq![plan[0]] + Seq::empty());
        lemma_next_ask(
            Monitor { plan, ..m },
            Action::ReadSharedMemory,
            Expect::SharedMemory(data),
            Wrap::Never,
            Seq::empty(),
        );
    } else {
        let so_far = outcomes.drop_last();
        let before = course(m, request, so_far);
        lemma_step(m, request, outcomes);
        lemma_stands(m, data, so_far);
        lemma_over(m, request, so_far);
        lemma_stands_next(data, before, outcomes.last());
    }
}

/// A sending that has not failed, one outcome further.
proof fn lemma_stands_next(
    data: VmSendMigrationData,
    before: (Monitor, StepView),
    outcome: Outcome,
)
    requires
        stands_at(data, before),
        before.1 is Perform,
        fits(before.0, outcome),
    ensures
        stands_at(data, advanced(before.0, outcome)),
{
    if before.0.pending is Some {
        lemma_failure_stays(before.0, outcome);
    } else {
        match before.1->Perform_0 {
            Action::ReadSharedMemory => lemma_begins(data, before.0, outcome),
            Action::SignalExit => lemma_exited(data, before.0, outcome),
            _ => lemma_transfer_step(data, before.0, outcome),
        }
    }
}

/// The last outcome of a sending.
proof fn lemma_exited(data: VmSendMigrationData, before: Monitor, outcome: Outcome)
    requires
        before.plan.len() == 0,
        before.pending is None,
        before.waiting matches Some(waiting) && waiting.expect is Done,
        fits(before, outcome),
    ensures
        stands_at(data, advanced(before, outcome)),
{
    let rest = Monitor { waiting: None, ..before };
    match outcome {
        Outcome::Failed(fault) => lemma_settled_pending(
            failed(rest, wrapped(before.waiting->0.wrap, fault)),
        ),
        _ => {
            assert(after(rest, Expect::Done, outcome) == rest);
        },
    }
}

/// A sending that fails in its transfer, or is refused by the peer there, is
/// aborted, whatever it was doing: the dirty log is stopped, unless the
/// migration is local, and then the machine's state is read. A machine that is
/// paused is resumed, and any other is left alone. Then the first failure is
/// reported. Where the dirty log cannot be stopped, that is reported at once.
#[verifier::rlimit(30)]
pub proof fn law_failed_sendings_are_aborted(
    m: Monitor,
    data: VmSendMigrationData,
    outcomes: Seq<Outcome>,
    state: VmState,
    fault: String,
)
    requires
        possible(m, Request::Send(data), outcomes),
        outcomes.len() > 0,
        outcomes.last() is Failed || outcomes.last() is Refused,
        course(m, Request::Send(data), outcomes.drop_last()).0.pending is None,
        course(m, Request::Send(data), outcomes.drop_last()).1 != StepView::Perform(
            Action::ReadSharedMemory,
        ),
        course(m, Request::Send(data), outcomes.drop_last()).1 != StepView::Perform(
            Action::SignalExit,
        ),
    ensures
        ({
            let at = course(m, Request::Send(data), outcomes);
            let reading = if data.local {
                at
            } else {
                advanced(at.0, Outcome::Done)
            };
            let read = advanced(reading.0, Outcome::State(state));
            &&& at.0.pending is Some
            &&& !data.local ==> at.1 == StepView::Perform(Action::StopDirtyLog) && advanced(
                at.0,
                Outcome::Failed(fault),
            ).1 == StepView::Done(
                Err::<ReplyView, Failure>(wrapped(Wrap::Migration, fault)),
            )
            &&& reading.1 == StepView::Perform(Action::ReadState)
            &&& state == VmState::Paused ==> read.1 == StepView::Perform(Action::ResumeVm)
                && advanced(read.0, Outcome::Done).1 == StepView::Done(
                Err::<ReplyView, Failure>(at.0.pending->0),
            )
            &&& state != VmState::Paused ==> read.1 == StepView::Done(
                Err::<ReplyView, Failure>(at.0.pending->0),
            )
        }),
{
    let request = Request::Send(data);
    let so_far = outcomes.drop_last();
    let before = course(m, request, so_far);
    lemma_step(m, request, outcomes);
    lemma_stands(m, data, so_far);
    lemma_over(m, request, so_far);
    lemma_transfer_step(data, before.0, outcomes.last());
    let at = course(m, request, outcomes).0;
    let failure = at.pending->0;
    if data.local {
        lemma_state_read(at, failure, state);
    } else {
        lemma_log_stopped(at, failure, fault);
        lemma_state_read(advanced(at, Outcome::Done).0, failure, state);
    }
}

/// The dirty log has been stopped, or not.
proof fn lemma_log_stopped(at: Monitor, failure: Failure, fault: String)
    requires
        at.pending == Some(failure),
        at.waiting == Some(Waiting { expect: Expect::Done, wrap: Wrap::Migration }),
        at.plan == seq![Phase::Ask(Action::ReadState, Expect::Paused, Wrap::Never)],
    ensures
        advanced(at, Outcome::Done) == (
            Monitor {
                plan: Seq::empty(),
                waiting: Some(Waiting { expect: Expect::Paused, wrap: Wrap::Never }),
                ..at
            },
            StepView::Perform(Action::ReadState),
        ),
        advanced(at, Outcome::Failed(fault)).1 == StepView::Done(
            Err::<ReplyView, Failure>(wrapped(Wrap::Migration, fault)),
        ),
{
    let rest = Monitor { waiting: None, ..at };
    assert(after(rest, Expect::Done, Outcome::Done) == rest);
    assert(rest.plan =~= rest.plan + Seq::empty());
    lemma_next_ask(rest, Action::ReadState, Expect::Paused, Wrap::Never, Seq::empty());
    lemma_failed_ends(rest, wrapped(Wrap::Migration, fault));
}

/// The machine's state has been read.
proof fn lemma_state_read(at: Monitor, failure: Failure, state: VmState)
    requires
        at.pending == Some(failure),
        at.waiting == Some(Waiting { expect: Expect::Paused, wrap: Wrap::Never }),
        at.plan == Seq::<Phase>::empty(),
    ensures
        ({
            let read = advanced(at, Outcome::State(state));
            &&& state == VmState::Paused ==> read.1 == StepView::Perform(Action::ResumeVm)
                && advanced(read.0, Outcome::Done).1 == StepView::Done(
                Err::<ReplyView, Failure>(failure),
            )
            &&& state != VmState::Paused ==> read.1 == StepView::Done(
                Err::<ReplyView, Failure>(failure),
            )
        }),
{
    law_paused_machine_is_resumed(at, state, failure);
}

} // verus!
