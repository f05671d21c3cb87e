//! What the host is asked for by the requests of a peer that sends a machine.

use vstd::prelude::*;
use crate::action_laws::{lemma_orders_four, lemma_orders_three, lemma_orders_two};
use crate::endpoint::endpoint_of;
use crate::error::{Cause, Context, Failure, MigratableError};
use crate::faults::law_end_leaves_no_request;
use crate::features::Build;
use crate::lifecycle::{
    ask, clone_event, events_plan, provided,
};
use crate::migration::{
    answer, at_endpoint, command_plan, memory_plan, next_request, receive_plan, served, state_plan,
    takes,
};
use crate::migration_laws::awaits_request;
use crate::model::{advanced, after, begun, fits, settled, Monitor, Waiting};
use crate::plan::{
    wrapped, Action, Change, Command, Expect, MonitorEvent, Outcome, Phase, Recovery, ReplyView,
    StepView, VmReceiveMigrationData, VmSource, Wrap,
};
use crate::run::{can_come, continued, lemma_next_ask, taken_up, Request};
use crate::trace::{
    expect_of, firm, lemma_failure_stays, lemma_firm_join, lemma_first_failure,
    lemma_on_course_start, lemma_on_course_step, lemma_orders_add, lemma_orders_first,
    lemma_orders_one, on_course, orders,
};

verus! {

/// The monitor, and what comes next, once some outcomes have come from some
/// point on.
#[verifier::opaque]
pub open spec fn onward(at: (Monitor, StepView), outcomes: Seq<Outcome>) -> (Monitor, StepView) {
    continued(at, outcomes)
}

/// Whether outcomes can come from some point on.
#[verifier::opaque]
pub open spec fn may_follow(at: (Monitor, StepView), outcomes: Seq<Outcome>) -> bool {
    can_come(at, outcomes)
}

/// The actions that the host has been asked for from some point on, one after
/// the other.
pub open spec fn asked_from(at: (Monitor, StepView), outcomes: Seq<Outcome>) -> Seq<Action>
    decreases outcomes.len(),
{
    let before = if outcomes.len() == 0 {
        Seq::empty()
    } else {
        asked_from(at, outcomes.drop_last())
    };
    match onward(at, outcomes).1 {
        StepView::Perform(action) => before.push(action),
        StepView::Done(_) => before,
    }
}

/// Whether a request goes on, and nothing has failed.
pub open spec fn goes_well(at: (Monitor, StepView)) -> bool {
    at.1 is Perform && at.0.pending is None
}

/// Nothing fits once a request is over.
pub proof fn lemma_over_from(start: Monitor, outcomes: Seq<Outcome>)
    ensures
        onward(settled(start), outcomes).1 is Done ==> onward(
            settled(start),
            outcomes,
        ).0.waiting is None,
{
    reveal(onward);
    if outcomes.len() == 0 {
        assert(begun(start, start.plan) == settled(start));
        law_end_leaves_no_request(start, start.plan, Outcome::Done);
    } else {
        law_end_leaves_no_request(
            onward(settled(start), outcomes.drop_last()).0,
            Seq::empty(),
            outcomes.last(),
        );
    }
}

/// From some point on, one outcome further.
pub proof fn lemma_onward(at: (Monitor, StepView), outcomes: Seq<Outcome>)
    requires
        may_follow(at, outcomes),
    ensures
        outcomes.len() == 0 ==> onward(at, outcomes) == at,
        outcomes.len() > 0 ==> {
            &&& may_follow(at, outcomes.drop_last())
            &&& fits(onward(at, outcomes.drop_last()).0, outcomes.last())
            &&& onward(at, outcomes) == advanced(
                onward(at, outcomes.drop_last()).0,
                outcomes.last(),
            )
        },
{
    reveal(onward);
    reveal(may_follow);
}

/// What a plan asks for is asked for in its order, as long as nothing fails.
#[verifier::rlimit(30)]
pub proof fn lemma_block(start: Monitor, all: Seq<(Action, Wrap)>, outcomes: Seq<Outcome>)
    requires
        firm(start.plan),
        all == orders(start.plan),
        start.pending is None,
        may_follow(settled(start), outcomes),
        outcomes.len() < all.len(),
        forall|i: int| 0 <= i < outcomes.len() ==> expect_of((#[trigger] all[i]).0) is Done,
    ensures
        goes_well(onward(settled(start), outcomes)) ==> {
            &&& on_course(all, onward(settled(start), outcomes), outcomes.len() as int + 1)
            &&& asked_from(settled(start), outcomes).len() == outcomes.len() + 1
            &&& forall|i: int|
                0 <= i <= outcomes.len() ==> #[trigger] asked_from(settled(start), outcomes)[i]
                    == all[i].0
        },
    decreases outcomes.len(),
{
    lemma_onward(settled(start), outcomes);
    if outcomes.len() == 0 {
        lemma_on_course_start(start);
        reveal(on_course);
    } else {
        let so_far = outcomes.drop_last();
        let before = onward(settled(start), so_far);
        lemma_block(start, all, so_far);
        lemma_over_from(start, so_far);
        if before.0.pending is Some {
            lemma_failure_stays(before.0, outcomes.last());
        } else {
            assert(expect_of(all[so_far.len() as int].0) is Done);
            lemma_on_course_step(all, before, so_far.len() as int + 1, outcomes.last());
            reveal(on_course);
        }
    }
}

/// What a failure of an action is reported as, or about to be.
#[verifier::opaque]
pub open spec fn fails_with(before: Monitor, fault: String, failure: Failure) -> bool {
    let at = advanced(before, Outcome::Failed(fault));
    match at.1 {
        StepView::Perform(_) => at.0.pending == Some(failure),
        StepView::Done(result) => result == Err::<ReplyView, Failure>(failure),
    }
}

/// An error of the receiving side, in a context.
pub open spec fn cannot_receive(context: Context, fault: String) -> Failure {
    Failure::Migration(MigratableError::MigrateReceive(Cause { context, detail: Some(fault) }))
}

/// The monitor, and what comes next, once a request of the peer has come that
/// it awaited.
#[verifier::opaque]
pub open spec fn upon(m: Monitor, command: Command, length: u64) -> (Monitor, StepView) {
    advanced(m, Outcome::Request(command, length))
}

/// The monitor as it goes on with a request of the peer that it takes.
pub open spec fn taking(m: Monitor, command: Command, length: u64) -> Monitor {
    served(Monitor { waiting: None, ..m }, command, length)
}

/// A request of the peer that is taken.
pub proof fn lemma_taking(m: Monitor, command: Command, length: u64)
    requires
        awaits_request(m),
        takes(m.session, command),
        !(command is Complete || command is Abandon),
    ensures
        upon(m, command, length) == settled(taking(m, command, length)),
        taking(m, command, length).plan == command_plan(m, command, length)
            + seq![next_request()],
        taking(m, command, length).pending == m.pending,
{
    reveal(served);
    reveal(upon);
    let rest = Monitor { waiting: None, ..m };
    assert(command_plan(rest, command, length)
        == command_plan(m, command, length));
    assert(taking(m, command, length).plan =~= command_plan(m, command, length)
        + seq![next_request()]);
}

/// What a request of the peer asks for, and what its failures are reported as,
/// as long as nothing has failed.
pub proof fn lemma_of_block(
    first: (Monitor, StepView),
    start: Monitor,
    all: Seq<(Action, Wrap)>,
    actions: Seq<Action>,
    outcomes: Seq<Outcome>,
    fault: String,
)
    requires
        first == settled(start),
        firm(start.plan),
        all == orders(start.plan),
        start.pending is None,
        may_follow(first, outcomes),
        outcomes.len() < all.len(),
        all.len() == actions.len(),
        forall|i: int| 0 <= i < all.len() ==> #[trigger] actions[i] == all[i].0,
        forall|i: int| 0 <= i < outcomes.len() ==> expect_of((#[trigger] all[i]).0) is Done,
    ensures
        goes_well(onward(first, outcomes)) ==> {
            let at = onward(first, outcomes);
            &&& asked_from(first, outcomes) == actions.take(outcomes.len() as int + 1)
            &&& at.1 == StepView::Perform(actions[outcomes.len() as int])
            &&& fails_with(
                at.0,
                fault,
                wrapped(all[outcomes.len() as int].1, fault),
            )
            &&& on_course(all, at, outcomes.len() as int + 1)
        },
{
    let at = onward(first, outcomes);
    lemma_block(start, all, outcomes);
    if goes_well(at) {
        reveal(on_course);
        assert forall|i: int| 0 <= i <= outcomes.len() implies asked_from(first, outcomes)[i]
            == actions.take(outcomes.len() as int + 1)[i] by {
            assert(actions[i] == all[i].0);
        }
        assert(asked_from(first, outcomes) =~= actions.take(outcomes.len() as int + 1));
        assert(actions[outcomes.len() as int] == all[outcomes.len() as int].0);
        lemma_first_failure(at.0, fault);
        reveal(fails_with);
    }
}

/// Memory that the peer sends: its table is read, with the length that the peer
/// gave, then the memory of the table, and then the peer is told and its next
/// request is read. What fails is reported as it is.
#[verifier::rlimit(30)]
pub proof fn law_received_memory_actions(
    m: Monitor,
    length: u64,
    outcomes: Seq<Outcome>,
    fault: String,
)
    requires
        awaits_request(m),
        m.pending is None,
        m.session.started,
        m.session.memory_manager,
        may_follow(upon(m, Command::Memory, length), outcomes),
        outcomes.len() < 4,
    ensures
        ({
            let first = upon(m, Command::Memory, length);
            let at = onward(first, outcomes);
            let all = seq![
                Action::ReadTable(length),
                Action::ReceiveRegions,
                Action::Answer(true),
                Action::ReadRequest,
            ];
            goes_well(at) ==> {
                &&& asked_from(first, outcomes) == all.take(outcomes.len() as int + 1)
                &&& at.1 == StepView::Perform(all[outcomes.len() as int])
                &&& fails_with(at.0, fault, Failure::Migration(MigratableError::Machine(fault)))
            }
        }),
{
    let first = upon(m, Command::Memory, length);
    lemma_taking(m, Command::Memory, length);
    lemma_memory_orders(length);
    lemma_of_block(
        first,
        taking(m, Command::Memory, length),
        orders(memory_plan(length) + seq![next_request()]),
        seq![
            Action::ReadTable(length),
            Action::ReceiveRegions,
            Action::Answer(true),
            Action::ReadRequest,
        ],
        outcomes,
        fault,
    );
}

/// What the taking in of memory asks for.
pub proof fn lemma_memory_orders(length: u64)
    ensures
        firm(memory_plan(length) + seq![next_request()]),
        orders(memory_plan(length) + seq![next_request()]) == seq![
            (Action::ReadTable(length), Wrap::Migration),
            (Action::ReceiveRegions, Wrap::Migration),
            (Action::Answer(true), Wrap::Migration),
            (Action::ReadRequest, Wrap::Migration),
        ],
{
    let plan = memory_plan(length);
    let tail = seq![
        plan[3],
        plan[4],
    ];
    lemma_orders_add(plan, seq![next_request()]);
    lemma_orders_one(next_request());
    assert(plan =~= seq![plan[0]] + (seq![plan[1]] + (seq![plan[2]] + tail)));
    lemma_orders_first(plan[0], seq![plan[1]] + (seq![plan[2]] + tail));
    lemma_orders_first(plan[1], seq![plan[2]] + tail);
    lemma_orders_first(plan[2], tail);
    lemma_orders_two(plan[3], plan[4]);
    assert(orders(plan + seq![next_request()]) =~= seq![
        (Action::ReadTable(length), Wrap::Migration),
        (Action::ReceiveRegions, Wrap::Migration),
        (Action::Answer(true), Wrap::Migration),
        (Action::ReadRequest, Wrap::Migration),
    ]);
}

/// What is asked for to clone the events of a machine that a peer sends.
pub proof fn lemma_events_received(build: Build)
    ensures
        firm(events_plan(build, true)),
        orders(events_plan(build, true)) == seq![
            (Action::CloneEvent(MonitorEvent::Exit), Wrap::Receive(Context::CloneExit)),
            (Action::CloneEvent(MonitorEvent::Reset), Wrap::Receive(Context::CloneReset)),
        ] + (if build.features.guest_debug {
            seq![(Action::CloneEvent(MonitorEvent::Debug), Wrap::Receive(Context::CloneDebug))]
        } else {
            Seq::empty()
        }) + seq![(Action::CloneEvent(MonitorEvent::Activate), Wrap::Receive(Context::CloneActivate))],
{
    let first = seq![
        clone_event(MonitorEvent::Exit, true),
        clone_event(MonitorEvent::Reset, true),
    ];
    let debug = provided(
        build.features.guest_debug,
        seq![clone_event(MonitorEvent::Debug, true)],
    );
    let last = seq![clone_event(MonitorEvent::Activate, true)];
    lemma_orders_add(first + debug, last);
    lemma_orders_add(first, debug);
    lemma_orders_two(first[0], first[1]);
    lemma_orders_one(clone_event(MonitorEvent::Debug, true));
    lemma_orders_one(last[0]);
}

/// What the taking in of a state asks for.
pub open spec fn state_orders(build: Build, length: u64) -> Seq<(Action, Wrap)> {
    seq![
        (Action::ReadPayload(length), Wrap::Socket),
        (Action::DecodeSnapshot, Wrap::Receive(Context::DecodeSnapshot)),
    ] + orders(events_plan(build, true)) + seq![
        (Action::CreateVm(VmSource::Migration), Wrap::Receive(Context::CreateVm)),
        (Action::RestoreVm, Wrap::Receive(Context::RestoreVm)),
        (Action::Answer(true), Wrap::Migration),
        (Action::ReadRequest, Wrap::Migration),
    ]
}

/// The plan of the taking in of a state.
#[verifier::rlimit(30)]
pub proof fn lemma_state_orders(build: Build, length: u64)
    ensures
        firm(state_plan(build, length) + seq![next_request()]),
        orders(state_plan(build, length) + seq![next_request()]) == state_orders(build, length),
{
    let head = seq![
        ask(Action::ReadPayload(length), Wrap::Socket),
        ask(Action::DecodeSnapshot, Wrap::Receive(Context::DecodeSnapshot)),
    ];
    let events = events_plan(build, true);
    let p0 = ask(Action::CreateVm(VmSource::Migration), Wrap::Receive(Context::CreateVm));
    let p1 = Phase::Apply(Change::OnFailure(Recovery::AnswerError));
    let p2 = ask(Action::RestoreVm, Wrap::Receive(Context::RestoreVm));
    let p3 = Phase::Apply(Change::OnFailure(Recovery::Nothing));
    let p4 = Phase::Apply(Change::InstallVm);
    let p5 = answer(true);
    let tail = seq![p0, p1, p2, p3, p4, p5];
    lemma_events_received(build);
    lemma_orders_two(head[0], head[1]);
    lemma_orders_add(head, events);
    lemma_orders_add(head + events, tail);
    lemma_orders_add(head + events + tail, seq![next_request()]);
    lemma_orders_one(next_request());
    assert(tail =~= seq![p0] + (seq![p1] + (seq![p2] + (seq![p3] + seq![p4, p5]))));
    lemma_orders_first(p0, seq![p1] + (seq![p2] + (seq![p3] + seq![p4, p5])));
    lemma_orders_first(p1, seq![p2] + (seq![p3] + seq![p4, p5]));
    lemma_orders_first(p2, seq![p3] + seq![p4, p5]);
    lemma_orders_first(p3, seq![p4, p5]);
    lemma_orders_two(p4, p5);
    lemma_firm_join(head, events);
    lemma_firm_join(head + events, tail);
    lemma_firm_join(head + events + tail, seq![next_request()]);
    assert(state_plan(build, length) + seq![next_request()] =~= head + events + tail + seq![
        next_request(),
    ]);
    assert(orders(head + events + tail + seq![next_request()]) =~= state_orders(build, length));
}

/// A state that the peer sends: it is read, with the length that the peer gave,
/// and decoded, then the events are cloned, a machine is made from it and
/// brought to its state, and then the peer is told and its next request is
/// read. What fails is reported under the name of what was being done.
#[verifier::rlimit(30)]
pub proof fn law_received_state_actions(
    m: Monitor,
    length: u64,
    outcomes: Seq<Outcome>,
    fault: String,
)
    requires
        awaits_request(m),
        m.pending is None,
        m.session.started,
        m.session.memory_manager,
        may_follow(upon(m, Command::State, length), outcomes),
        outcomes.len() < if m.build.features.guest_debug {
            10int
        } else {
            9
        },
    ensures
        ({
            let first = upon(m, Command::State, length);
            let at = onward(first, outcomes);
            let all = seq![
                Action::ReadPayload(length),
                Action::DecodeSnapshot,
                Action::CloneEvent(MonitorEvent::Exit),
                Action::CloneEvent(MonitorEvent::Reset),
            ] + (if m.build.features.guest_debug {
                seq![Action::CloneEvent(MonitorEvent::Debug)]
            } else {
                Seq::empty()
            }) + seq![
                Action::CloneEvent(MonitorEvent::Activate),
                Action::CreateVm(VmSource::Migration),
                Action::RestoreVm,
                Action::Answer(true),
                Action::ReadRequest,
            ];
            goes_well(at) ==> {
                &&& asked_from(first, outcomes) == all.take(outcomes.len() as int + 1)
                &&& at.1 == StepView::Perform(all[outcomes.len() as int])
                &&& fails_with(
                    at.0,
                    fault,
                    match all[outcomes.len() as int] {
                        Action::ReadPayload(_) => Failure::Migration(
                            MigratableError::MigrateSocket(fault),
                        ),
                        Action::DecodeSnapshot => cannot_receive(Context::DecodeSnapshot, fault),
                        Action::CloneEvent(MonitorEvent::Exit) => cannot_receive(
                            Context::CloneExit,
                            fault,
                        ),
                        Action::CloneEvent(MonitorEvent::Reset) => cannot_receive(
                            Context::CloneReset,
                            fault,
                        ),
                        Action::CloneEvent(MonitorEvent::Debug) => cannot_receive(
                            Context::CloneDebug,
                            fault,
                        ),
                        Action::CloneEvent(MonitorEvent::Activate) => cannot_receive(
                            Context::CloneActivate,
                            fault,
                        ),
                        Action::CreateVm(_) => cannot_receive(Context::CreateVm, fault),
                        Action::RestoreVm => cannot_receive(Context::RestoreVm, fault),
                        _ => Failure::Migration(MigratableError::Machine(fault)),
                    },
                )
            }
        }),
{
    let first = upon(m, Command::State, length);
    let all = state_list(m.build, length);
    let pairs = state_orders(m.build, length);
    lemma_taking(m, Command::State, length);
    lemma_state_orders(m.build, length);
    lemma_state_list(m.build, length);
    lemma_of_block(first, taking(m, Command::State, length), pairs, all, outcomes, fault);
    if goes_well(onward(first, outcomes)) {
        lemma_state_wrap(m.build, length, outcomes.len() as int);
    }
}

/// What the taking in of a state asks for, in its order.
pub open spec fn state_list(build: Build, length: u64) -> Seq<Action> {
    seq![
        Action::ReadPayload(length),
        Action::DecodeSnapshot,
        Action::CloneEvent(MonitorEvent::Exit),
        Action::CloneEvent(MonitorEvent::Reset),
    ] + (if build.features.guest_debug {
        seq![Action::CloneEvent(MonitorEvent::Debug)]
    } else {
        Seq::empty()
    }) + seq![
        Action::CloneEvent(MonitorEvent::Activate),
        Action::CreateVm(VmSource::Migration),
        Action::RestoreVm,
        Action::Answer(true),
        Action::ReadRequest,
    ]
}

/// What the taking in of a state asks for, with and without what its failures
/// are reported as.
#[verifier::rlimit(30)]
pub proof fn lemma_state_list(build: Build, length: u64)
    ensures
        ({
            let all = state_list(build, length);
            let pairs = state_orders(build, length);
            &&& all.len() == pairs.len()
            &&& all.len() == if build.features.guest_debug {
                10int
            } else {
                9
            }
            &&& forall|i: int| 0 <= i < all.len() ==> #[trigger] all[i] == pairs[i].0
            &&& forall|i: int|
                0 <= i < all.len() - 1 ==> expect_of((#[trigger] pairs[i]).0) is Done
        }),
{
    lemma_events_received(build);
    let all = state_list(build, length);
    let pairs = state_orders(build, length);
    if build.features.guest_debug {
        assert forall|i: int| 0 <= i < all.len() implies #[trigger] all[i] == pairs[i].0 by {}
    } else {
        assert forall|i: int| 0 <= i < all.len() implies #[trigger] all[i] == pairs[i].0 by {}
    }
}

/// What a failure in the taking in of a state is reported as.
proof fn lemma_state_wrap(build: Build, length: u64, i: int)
    requires
        0 <= i < state_orders(build, length).len(),
    ensures
        state_orders(build, length)[i].1 == (match state_orders(build, length)[i].0 {
            Action::ReadPayload(_) => Wrap::Socket,
            Action::DecodeSnapshot => Wrap::Receive(Context::DecodeSnapshot),
            Action::CloneEvent(MonitorEvent::Exit) => Wrap::Receive(Context::CloneExit),
            Action::CloneEvent(MonitorEvent::Reset) => Wrap::Receive(Context::CloneReset),
            Action::CloneEvent(MonitorEvent::Debug) => Wrap::Receive(Context::CloneDebug),
            Action::CloneEvent(MonitorEvent::Activate) => Wrap::Receive(Context::CloneActivate),
            Action::CreateVm(_) => Wrap::Receive(Context::CreateVm),
            Action::RestoreVm => Wrap::Receive(Context::RestoreVm),
            _ => Wrap::Migration,
        }),
{
    lemma_events_received(build);
}

/// A start is answered, and a file is received and then answered; then the next
/// request is read. A request that is no request is passed over.
pub proof fn law_short_requests_of_the_peer(
    m: Monitor,
    length: u64,
    bytes: [u8; 4],
    fd: i32,
    fault: String,
)
    requires
        awaits_request(m),
        m.pending is None,
        m.recovery == Recovery::Nothing,
    ensures
        ({
            let started = advanced(m, Outcome::Request(Command::Start, length));
            let passed = advanced(m, Outcome::Request(Command::Invalid, length));
            &&& started.1 == StepView::Perform(Action::Answer(true))
            &&& advanced(started.0, Outcome::Done).1 == StepView::Perform(Action::ReadRequest)
            &&& passed == (m, StepView::Perform(Action::ReadRequest))
        }),
        m.session.started && (m.session.endpoint matches Some(endpoint) && endpoint is Unix) ==> {
            let receiving = advanced(m, Outcome::Request(Command::MemoryFd, length));
            let answering = advanced(receiving.0, Outcome::File(bytes, fd));
            &&& receiving.1 == StepView::Perform(Action::ReceiveFile)
            &&& fails_with(receiving.0, fault, cannot_receive(Context::ReceiveSlot, fault))
            &&& answering.1 == StepView::Perform(Action::Answer(true))
            &&& advanced(answering.0, Outcome::Done).1 == StepView::Perform(Action::ReadRequest)
        },
{
    lemma_start_request(m, length);
    lemma_file_request(m, length, bytes, fd, fault);
}

/// A plan that begins with something for the host.
proof fn lemma_asks_first(m: Monitor, phase: Phase, rest: Seq<Phase>)
    requires
        m.plan == seq![phase] + rest,
        phase is Ask,
    ensures
        settled(m) == (
            Monitor {
                plan: rest,
                waiting: Some(Waiting { expect: phase->Ask_1, wrap: phase->Ask_2 }),
                ..m
            },
            StepView::Perform(phase->Ask_0),
        ),
{
    lemma_next_ask(m, phase->Ask_0, phase->Ask_1, phase->Ask_2, rest);
}

/// A start of the peer, and no request of it.
proof fn lemma_start_request(m: Monitor, length: u64)
    requires
        awaits_request(m),
        m.pending is None,
        m.recovery == Recovery::Nothing,
    ensures
        ({
            let started = advanced(m, Outcome::Request(Command::Start, length));
            let passed = advanced(m, Outcome::Request(Command::Invalid, length));
            &&& started.1 == StepView::Perform(Action::Answer(true))
            &&& advanced(started.0, Outcome::Done).1 == StepView::Perform(Action::ReadRequest)
            &&& passed == (m, StepView::Perform(Action::ReadRequest))
        }),
{
    reveal(upon);
    lemma_taking(m, Command::Start, length);
    lemma_taking(m, Command::Invalid, length);
    let start = taking(m, Command::Start, length);
    let rest = seq![next_request()];
    assert(start.plan =~= seq![answer(true)] + rest);
    lemma_asks_first(start, answer(true), rest);
    let answered = Monitor { waiting: None, ..settled(start).0 };
    assert(after(answered, Expect::Done, Outcome::Done) == answered);
    assert(answered.plan =~= seq![next_request()] + Seq::empty());
    lemma_asks_first(answered, next_request(), Seq::empty());
    let none = taking(m, Command::Invalid, length);
    assert(none.plan =~= seq![next_request()] + Seq::empty());
    lemma_asks_first(none, next_request(), Seq::empty());
    assert(none == Monitor { waiting: None, plan: none.plan, ..m }) by {
        reveal(served);
    }
    assert(m.plan =~= Seq::empty());
}

/// A file of the peer's.
proof fn lemma_file_request(m: Monitor, length: u64, bytes: [u8; 4], fd: i32, fault: String)
    requires
        awaits_request(m),
        m.pending is None,
        m.recovery == Recovery::Nothing,
    ensures
        m.session.started && (m.session.endpoint matches Some(endpoint) && endpoint is Unix) ==> {
            let receiving = advanced(m, Outcome::Request(Command::MemoryFd, length));
            let answering = advanced(receiving.0, Outcome::File(bytes, fd));
            &&& receiving.1 == StepView::Perform(Action::ReceiveFile)
            &&& fails_with(receiving.0, fault, cannot_receive(Context::ReceiveSlot, fault))
            &&& answering.1 == StepView::Perform(Action::Answer(true))
            &&& advanced(answering.0, Outcome::Done).1 == StepView::Perform(Action::ReadRequest)
        },
{
    if m.session.started && (m.session.endpoint matches Some(endpoint) && endpoint is Unix) {
        reveal(upon);
        lemma_taking(m, Command::MemoryFd, length);
        let start = taking(m, Command::MemoryFd, length);
        let phase = Phase::Ask(
            Action::ReceiveFile,
            Expect::MemoryFile,
            Wrap::Receive(Context::ReceiveSlot),
        );
        let rest = seq![answer(true)] + seq![next_request()];
        assert(start.plan =~= seq![phase] + rest);
        lemma_asks_first(start, phase, rest);
        lemma_receive_failure(settled(start).0, fault);
        lemma_file_received(settled(start).0, bytes, fd);
    }
}

/// A file that cannot be received.
proof fn lemma_receive_failure(at: Monitor, fault: String)
    requires
        at.waiting == Some(
            Waiting { expect: Expect::MemoryFile, wrap: Wrap::Receive(Context::ReceiveSlot) },
        ),
        at.pending is None,
    ensures
        fails_with(at, fault, cannot_receive(Context::ReceiveSlot, fault)),
{
    lemma_first_failure(at, fault);
    reveal(fails_with);
}

/// A file that has been received.
proof fn lemma_file_received(at: Monitor, bytes: [u8; 4], fd: i32)
    requires
        at.waiting == Some(
            Waiting { expect: Expect::MemoryFile, wrap: Wrap::Receive(Context::ReceiveSlot) },
        ),
        at.pending is None,
        at.plan == seq![answer(true)] + seq![next_request()],
    ensures
        ({
            let answering = advanced(at, Outcome::File(bytes, fd));
            &&& answering.1 == StepView::Perform(Action::Answer(true))
            &&& advanced(answering.0, Outcome::Done).1 == StepView::Perform(Action::ReadRequest)
        }),
{
    let received = after(
        Monitor { waiting: None, ..at },
        Expect::MemoryFile,
        Outcome::File(bytes, fd),
    );
    lemma_asks_first(received, answer(true), seq![next_request()]);
    lemma_answered(settled(received).0);
}

/// An answer that has been given.
proof fn lemma_answered(at: Monitor)
    requires
        at.waiting == Some(Waiting { expect: Expect::Done, wrap: Wrap::Migration }),
        at.pending is None,
        at.plan == seq![next_request()],
    ensures
        advanced(at, Outcome::Done).1 == StepView::Perform(Action::ReadRequest),
{
    let answered = Monitor { waiting: None, ..at };
    assert(after(answered, Expect::Done, Outcome::Done) == answered);
    assert(answered.plan =~= seq![next_request()] + Seq::empty());
    lemma_asks_first(answered, next_request(), Seq::empty());
}

/// The monitor, and what comes next, once it has been asked to take in a
/// machine.
#[verifier::opaque]
pub open spec fn opened(m: Monitor, data: VmReceiveMigrationData) -> (Monitor, StepView) {
    taken_up(m, Request::Receive(data))
}

/// The plan of the opening of a session.
proof fn lemma_opening(m: Monitor, data: VmReceiveMigrationData)
    requires
        m.idle(),
        endpoint_of(data.receiver_url@) is Some,
    ensures
        ({
            let start = Monitor {
                plan: receive_plan(data.receiver_url),
                ..at_endpoint(m, data.receiver_url@)
            };
            &&& opened(m, data) == settled(start)
            &&& start.pending is None
            &&& firm(start.plan)
            &&& orders(start.plan) == if endpoint_of(data.receiver_url@)->0 is Tcp {
                seq![
                    (Action::Bind, Wrap::Receive(Context::BindTcp)),
                    (Action::Accept, Wrap::Receive(Context::AcceptTcp)),
                    (Action::ReadRequest, Wrap::Migration),
                ]
            } else {
                seq![
                    (Action::Bind, Wrap::Receive(Context::BindUnix)),
                    (Action::Accept, Wrap::Receive(Context::AcceptUnix)),
                    (Action::RemoveSocketFile, Wrap::Receive(Context::RemoveSocketFile)),
                    (Action::ReadRequest, Wrap::Migration),
                ]
            }
        }),
{
    reveal(opened);
    let plan = receive_plan(data.receiver_url);
    if endpoint_of(data.receiver_url@)->0 is Tcp {
        lemma_orders_three(plan[0], plan[1], plan[2]);
        assert(orders(plan) =~= seq![
            (Action::Bind, Wrap::Receive(Context::BindTcp)),
            (Action::Accept, Wrap::Receive(Context::AcceptTcp)),
            (Action::ReadRequest, Wrap::Migration),
        ]);
    } else {
        lemma_orders_four(plan[0], plan[1], plan[2], plan[3]);
        assert(orders(plan) =~= seq![
            (Action::Bind, Wrap::Receive(Context::BindUnix)),
            (Action::Accept, Wrap::Receive(Context::AcceptUnix)),
            (Action::RemoveSocketFile, Wrap::Receive(Context::RemoveSocketFile)),
            (Action::ReadRequest, Wrap::Migration),
        ]);
    }
}

/// A session is opened where the URL says: the monitor listens there, accepts a
/// connection, removes the file of a UNIX socket, and reads the peer's first
/// request. What fails is reported under the name of what was being done.
#[verifier::rlimit(30)]
pub proof fn law_opening_of_a_session(
    m: Monitor,
    data: VmReceiveMigrationData,
    outcomes: Seq<Outcome>,
    fault: String,
)
    requires
        m.idle(),
        endpoint_of(data.receiver_url@) is Some,
        may_follow(opened(m, data), outcomes),
        outcomes.len() < if endpoint_of(data.receiver_url@)->0 is Tcp {
            3int
        } else {
            4
        },
    ensures
        ({
            let at = onward(opened(m, data), outcomes);
            let tcp = endpoint_of(data.receiver_url@)->0 is Tcp;
            let all = if tcp {
                seq![Action::Bind, Action::Accept, Action::ReadRequest]
            } else {
                seq![
                    Action::Bind,
                    Action::Accept,
                    Action::RemoveSocketFile,
                    Action::ReadRequest,
                ]
            };
            goes_well(at) ==> {
                &&& asked_from(opened(m, data), outcomes) == all.take(outcomes.len() as int + 1)
                &&& at.1 == StepView::Perform(all[outcomes.len() as int])
                &&& fails_with(
                    at.0,
                    fault,
                    match all[outcomes.len() as int] {
                        Action::Bind => cannot_receive(
                            if tcp {
                                Context::BindTcp
                            } else {
                                Context::BindUnix
                            },
                            fault,
                        ),
                        Action::Accept => cannot_receive(
                            if tcp {
                                Context::AcceptTcp
                            } else {
                                Context::AcceptUnix
                            },
                            fault,
                        ),
                        Action::RemoveSocketFile => cannot_receive(
                            Context::RemoveSocketFile,
                            fault,
                        ),
                        _ => Failure::Migration(MigratableError::Machine(fault)),
                    },
                )
            }
        }),
{
    let start = Monitor {
        plan: receive_plan(data.receiver_url),
        ..at_endpoint(m, data.receiver_url@)
    };
    let all = if endpoint_of(data.receiver_url@)->0 is Tcp {
        seq![Action::Bind, Action::Accept, Action::ReadRequest]
    } else {
        seq![Action::Bind, Action::Accept, Action::RemoveSocketFile, Action::ReadRequest]
    };
    lemma_opening(m, data);
    lemma_of_block(opened(m, data), start, orders(start.plan), all, outcomes, fault);
}

} // verus!
