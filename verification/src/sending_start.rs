//! How the sending of a machine begins.

use vstd::prelude::*;
use crate::config::VmConfigView;
use crate::endpoint::{endpoint_of, EndpointView};
use crate::error::{Cause, Context, Failure, MigratableError};
use crate::features::Build;
use crate::lifecycle::{ask, cpuid_request};
use crate::migration::{
    abort_plan, at_endpoint, await_answer, connect_wrap, send_began, transfer_plan,
};
use crate::model::{advanced, after, failed, settled, Monitor, Waiting};
use crate::plan::{
    Action, Change, Command, CpuidRequest, Expect, Outcome, Phase, Recovery, ReplyView, StepView,
    VmSendMigrationData, Wrap,
};
use crate::run::{lemma_failed_ends, lemma_next_ask, lemma_next_change, taken_up, Request};
use crate::session_actions::onward;

verus! {

/// The monitor, and what comes next, once it has been asked to send its
/// machine.
#[verifier::opaque]
pub open spec fn sending(m: Monitor, data: VmSendMigrationData) -> (Monitor, StepView) {
    taken_up(m, Request::Send(data))
}

/// From some point on, one outcome further.
proof fn lemma_one_further(at: (Monitor, StepView), outcomes: Seq<Outcome>, k: int)
    requires
        0 <= k < outcomes.len(),
    ensures
        onward(at, outcomes.take(0)) == at,
        onward(at, outcomes.take(k + 1)) == advanced(
            onward(at, outcomes.take(k)).0,
            outcomes[k],
        ),
{
    reveal(onward);
    assert(outcomes.take(k + 1).drop_last() =~= outcomes.take(k));
    assert(outcomes.take(k + 1).last() == outcomes[k]);
}

/// An action that has succeeded lets the next be asked for.
proof fn lemma_succeeds(at: Monitor, phase: Phase, rest: Seq<Phase>)
    requires
        at.waiting matches Some(waiting) && (waiting.expect is Done || waiting.expect is Answer),
        at.plan == seq![phase] + rest,
        phase is Ask,
    ensures
        advanced(at, Outcome::Done) == (
            Monitor {
                plan: rest,
                waiting: Some(Waiting { expect: phase->Ask_1, wrap: phase->Ask_2 }),
                ..at
            },
            StepView::Perform(phase->Ask_0),
        ),
{
    let next = Monitor { waiting: None, ..at };
    assert(after(next, at.waiting->0.expect, Outcome::Done) == next);
    lemma_next_ask(next, phase->Ask_0, phase->Ask_1, phase->Ask_2, rest);
}

/// A sending first finds out whether memory can be shared.
proof fn lemma_sending_begins(m: Monitor, data: VmSendMigrationData)
    requires
        m.idle(),
    ensures
        sending(m, data) == (
            Monitor {
                waiting: Some(Waiting { expect: Expect::SharedMemory(data), wrap: Wrap::Never }),
                ..m
            },
            StepView::Perform(Action::ReadSharedMemory),
        ),
{
    reveal(sending);
    let phase = Phase::Ask(Action::ReadSharedMemory, Expect::SharedMemory(data), Wrap::Never);
    let plan = seq![phase];
    assert(plan =~= seq![phase] + Seq::empty());
    lemma_next_ask(
        Monitor { plan, ..m },
        Action::ReadSharedMemory,
        Expect::SharedMemory(data),
        Wrap::Never,
        Seq::empty(),
    );
    assert(m.plan =~= Seq::empty());
}

/// A machine that is not there, and memory that cannot be shared for a local
/// migration, are refused before anything is sent.
pub proof fn law_refused_sendings(m: Monitor, data: VmSendMigrationData, shared: bool)
    requires
        m.idle(),
        m.vm is Some ==> m.machine_config() is Some,
    ensures
        sending(m, data).1 == StepView::Perform(Action::ReadSharedMemory),
        data.local && !shared ==> advanced(sending(m, data).0, Outcome::Flag(shared)) == (
            m,
            StepView::Done(
                Err::<ReplyView, Failure>(
                    Failure::Migration(
                        MigratableError::MigrateSend(
                            Cause { context: Context::LocalNeedsSharedMemory, detail: None },
                        ),
                    ),
                ),
            ),
        ),
        !(data.local && !shared) && m.vm is None ==> advanced(
            sending(m, data).0,
            Outcome::Flag(shared),
        ) == (
            m,
            StepView::Done(
                Err::<ReplyView, Failure>(
                    Failure::Migration(
                        MigratableError::MigrateSend(
                            Cause { context: Context::NotRunning, detail: None },
                        ),
                    ),
                ),
            ),
        ),
{
    lemma_sending_begins(m, data);
    if data.local && !shared {
        lemma_refused_at_once(m, data, shared, Context::LocalNeedsSharedMemory);
    } else if m.vm is None {
        lemma_refused_at_once(m, data, shared, Context::NotRunning);
    }
}

/// A sending that is refused at once.
proof fn lemma_refused_at_once(
    m: Monitor,
    data: VmSendMigrationData,
    shared: bool,
    context: Context,
)
    requires
        m.idle(),
        sending(m, data).0 == (Monitor {
            waiting: Some(Waiting { expect: Expect::SharedMemory(data), wrap: Wrap::Never }),
            ..m
        }),
        context == if data.local && !shared {
            Context::LocalNeedsSharedMemory
        } else {
            Context::NotRunning
        },
        (data.local && !shared) || m.vm is None,
    ensures
        advanced(sending(m, data).0, Outcome::Flag(shared)) == (
            m,
            StepView::Done(
                Err::<ReplyView, Failure>(
                    Failure::Migration(MigratableError::MigrateSend(Cause { context, detail: None })),
                ),
            ),
        ),
{
    reveal(send_began);
    let failure = Failure::Migration(MigratableError::MigrateSend(Cause { context, detail: None }));
    let next = send_began(m, data, shared);
    assert(Monitor { waiting: None, ..sending(m, data).0 } == m);
    assert(next.plan =~= seq![Phase::Fail(failure)]);
    assert(next.plan.drop_first() =~= Seq::empty());
    assert(next == Monitor { plan: next.plan, ..m });
    lemma_failed_ends(m, failure);
    assert(settled(next) == settled(failed(Monitor { plan: next.plan.drop_first(), ..next }, failure)));
    assert(Monitor { plan: next.plan.drop_first(), ..next } == m);
}

/// The transfer, behind the answer to its first request.
spec fn behind_start(
    build: Build,
    config: VmConfigView,
    endpoint: EndpointView,
    local: bool,
) -> Seq<Phase> {
    (transfer_plan(build, config, endpoint, local) + seq![
        Phase::Apply(Change::OnFailure(Recovery::Nothing)),
        ask(Action::SignalExit, Wrap::Send(Context::SignalExit)),
    ]).skip(3)
}

/// The monitor as it sends a machine, with some phases to come.
spec fn with_plan(m: Monitor, data: VmSendMigrationData, plan: Seq<Phase>) -> Monitor {
    Monitor {
        plan,
        recovery: Recovery::AbortSend { local: data.local },
        ..at_endpoint(m, data.destination_url@)
    }
}

/// A sending that is not refused connects first.
#[verifier::rlimit(30)]
proof fn lemma_connects(
    m: Monitor,
    data: VmSendMigrationData,
    shared: bool,
    config: VmConfigView,
    endpoint: EndpointView,
)
    requires
        m.idle(),
        m.vm is Some,
        m.machine_config() == Some(config),
        endpoint_of(data.destination_url@) == Some(endpoint),
        shared || !data.local,
        sending(m, data).0 == (Monitor {
            waiting: Some(Waiting { expect: Expect::SharedMemory(data), wrap: Wrap::Never }),
            ..m
        }),
    ensures
        advanced(sending(m, data).0, Outcome::Flag(shared)) == (
            Monitor {
                waiting: Some(Waiting { expect: Expect::Done, wrap: connect_wrap(endpoint) }),
                ..with_plan(
                    m,
                    data,
                    seq![
                        ask(Action::SendRequest(Command::Start, 0), Wrap::Migration),
                        await_answer(Context::Start),
                    ] + behind_start(m.build, config, endpoint, data.local),
                )
            },
            StepView::Perform(Action::Connect),
        ),
{
    reveal(send_began);
    let next = send_began(m, data, shared);
    let change = Change::OnFailure(Recovery::AbortSend { local: data.local });
    let rest = seq![
        ask(Action::SendRequest(Command::Start, 0), Wrap::Migration),
        await_answer(Context::Start),
    ] + behind_start(m.build, config, endpoint, data.local);
    let connect = ask(Action::Connect, connect_wrap(endpoint));
    assert(Monitor { waiting: None, ..sending(m, data).0 } == m);
    assert(m.plan.len() == 0);
    assert(next.plan =~= seq![Phase::Apply(change)] + (seq![connect] + rest));
    lemma_next_change(next, change, seq![connect] + rest);
    let begun = with_plan(m, data, seq![connect] + rest);
    lemma_next_ask(begun, Action::Connect, Expect::Done, connect_wrap(endpoint), rest);
}

/// What follows the peer's answer to the first request.
proof fn lemma_behind_start(
    build: Build,
    config: VmConfigView,
    endpoint: EndpointView,
    local: bool,
)
    ensures
        ({
            let plan = behind_start(build, config, endpoint, local);
            let compares = build.features.kvm && build.x86_64;
            &&& plan.len() > 0
            &&& plan[0] == if compares && build.features.tdx && config.tdx {
                Phase::Fail(
                    Failure::Migration(
                        MigratableError::MigrateSend(Cause { context: Context::Tdx, detail: None }),
                    ),
                )
            } else if compares {
                ask(
                    Action::GenerateCpuid(cpuid_request(config)),
                    Wrap::Send(Context::SourceCpuid),
                )
            } else if local && endpoint is Tcp {
                Phase::Fail(
                    Failure::Migration(
                        MigratableError::MigrateSend(
                            Cause { context: Context::LocalOverTcp, detail: None },
                        ),
                    ),
                )
            } else if local {
                ask(Action::SendMemoryFds, Wrap::Migration)
            } else {
                Phase::Ask(
                    Action::EncodeConfig,
                    Expect::Length(Command::Config),
                    Wrap::Never,
                )
            }
        }),
{
}

/// A failure by itself in a sending is followed by the abort of the transfer.
proof fn lemma_fails_there(at: Monitor, failure: Failure, rest: Seq<Phase>, local: bool)
    requires
        at.plan == seq![Phase::Fail(failure)] + rest,
        at.pending is None,
        at.recovery == (Recovery::AbortSend { local }),
    ensures
        settled(at).1 == StepView::Perform(
            if local {
                Action::ReadState
            } else {
                Action::StopDirtyLog
            },
        ),
        settled(at).0.pending == Some(failure),
{
    assert(at.plan.drop_first() =~= rest);
    let end = failed(Monitor { plan: rest, ..at }, failure);
    let plan = abort_plan(local);
    let phase = plan[0];
    assert(end.plan == plan);
    assert(plan =~= seq![phase] + plan.drop_first());
    lemma_next_ask(end, phase->Ask_0, phase->Ask_1, phase->Ask_2, plan.drop_first());
}

/// A sending that is not refused connects to its destination, sends the first
/// request, and awaits the answer. Then, where processors are compared, comes
/// the processor that the machine's configuration wants, unless the machine
/// has TDX, which cannot be sent. Otherwise a local migration sends the
/// descriptors of its memory, which it cannot do over TCP, and any other goes
/// on with the configuration.
#[verifier::rlimit(30)]
pub proof fn law_beginning_of_a_sending(
    m: Monitor,
    data: VmSendMigrationData,
    shared: bool,
    config: VmConfigView,
    endpoint: EndpointView,
)
    requires
        m.idle(),
        m.vm is Some,
        m.machine_config() == Some(config),
        endpoint_of(data.destination_url@) == Some(endpoint),
        shared || !data.local,
    ensures
        ({
            let start = sending(m, data);
            let outcomes = seq![
                Outcome::Flag(shared),
                Outcome::Done,
                Outcome::Done,
                Outcome::Done,
            ];
            let compares = m.build.features.kvm && m.build.x86_64;
            let at = onward(start, outcomes.take(4));
            let abort = StepView::Perform(
                if data.local {
                    Action::ReadState
                } else {
                    Action::StopDirtyLog
                },
            );
            &&& start.1 == StepView::Perform(Action::ReadSharedMemory)
            &&& onward(start, outcomes.take(1)).1 == StepView::Perform(Action::Connect)
            &&& onward(start, outcomes.take(1)).0.session.endpoint == Some(endpoint)
            &&& onward(start, outcomes.take(2)).1 == StepView::Perform(
                Action::SendRequest(Command::Start, 0),
            )
            &&& onward(start, outcomes.take(3)).1 == StepView::Perform(Action::AwaitAnswer)
            &&& if compares && m.build.features.tdx && config.tdx {
                at.1 == abort && at.0.pending == Some(
                    Failure::Migration(
                        MigratableError::MigrateSend(Cause { context: Context::Tdx, detail: None }),
                    ),
                )
            } else if compares {
                at.0.pending is None && at.1 == StepView::Perform(
                    Action::GenerateCpuid(
                        CpuidRequest {
                            max_phys_bits: config.cpus.max_phys_bits,
                            kvm_hyperv: config.cpus.kvm_hyperv,
                            amx: config.cpus.features.amx,
                        },
                    ),
                )
            } else if data.local && endpoint is Tcp {
                at.1 == abort && at.0.pending == Some(
                    Failure::Migration(
                        MigratableError::MigrateSend(
                            Cause { context: Context::LocalOverTcp, detail: None },
                        ),
                    ),
                )
            } else {
                at.0.pending is None && at.1 == StepView::Perform(
                    if data.local {
                        Action::SendMemoryFds
                    } else {
                        Action::EncodeConfig
                    },
                )
            }
        }),
{
    let start = sending(m, data);
    let outcomes = seq![Outcome::Flag(shared), Outcome::Done, Outcome::Done, Outcome::Done];
    let rest = behind_start(m.build, config, endpoint, data.local);
    let request = ask(Action::SendRequest(Command::Start, 0), Wrap::Migration);
    let wait = await_answer(Context::Start);
    lemma_sending_begins(m, data);
    lemma_one_further(start, outcomes, 0);
    lemma_one_further(start, outcomes, 1);
    lemma_one_further(start, outcomes, 2);
    lemma_one_further(start, outcomes, 3);
    lemma_connects(m, data, shared, config, endpoint);
    lemma_to_the_answer(
        onward(start, outcomes.take(1)).0,
        request,
        wait,
        rest,
    );
    lemma_behind_start(m.build, config, endpoint, data.local);
    lemma_from_the_answer(onward(start, outcomes.take(3)).0, rest, data.local);
}

/// From the connection to the answer.
proof fn lemma_to_the_answer(at: Monitor, request: Phase, wait: Phase, rest: Seq<Phase>)
    requires
        at.waiting matches Some(waiting) && waiting.expect is Done,
        at.plan == seq![request, wait] + rest,
        request matches Phase::Ask(_, Expect::Done, _),
        wait matches Phase::Ask(_, Expect::Answer(_), _),
    ensures
        ({
            let two = advanced(at, Outcome::Done);
            let three = advanced(two.0, Outcome::Done);
            &&& two.1 == StepView::Perform(request->Ask_0)
            &&& three.1 == StepView::Perform(wait->Ask_0)
            &&& three.0 == (Monitor { plan: rest, waiting: three.0.waiting, ..at })
            &&& three.0.waiting matches Some(waiting) && waiting.expect is Answer
        }),
{
    assert(at.plan =~= seq![request] + (seq![wait] + rest));
    lemma_succeeds(at, request, seq![wait] + rest);
    lemma_succeeds(advanced(at, Outcome::Done).0, wait, rest);
}

/// From the answer on.
proof fn lemma_from_the_answer(at: Monitor, rest: Seq<Phase>, local: bool)
    requires
        at.waiting matches Some(waiting) && waiting.expect is Answer,
        at.plan == rest,
        rest.len() > 0,
        at.pending is None,
        at.recovery == (Recovery::AbortSend { local }),
        !(rest[0] is Apply),
    ensures
        ({
            let next = advanced(at, Outcome::Done);
            match rest[0] {
                Phase::Ask(action, _, _) => next.1 == StepView::Perform(action)
                    && next.0.pending is None,
                Phase::Fail(failure) => next.0.pending == Some(failure) && next.1
                    == StepView::Perform(
                    if local {
                        Action::ReadState
                    } else {
                        Action::StopDirtyLog
                    },
                ),
                _ => true,
            }
        }),
{
    let tail = rest.drop_first();
    assert(rest =~= seq![rest[0]] + tail);
    match rest[0] {
        Phase::Ask(_, _, _) => lemma_succeeds(at, rest[0], tail),
        Phase::Fail(failure) => {
            let next = Monitor { waiting: None, ..at };
            assert(after(next, at.waiting->0.expect, Outcome::Done) == next);
            lemma_fails_there(next, failure, tail, local);
        },
        _ => {},
    }
}

} // verus!
