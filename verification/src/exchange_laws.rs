//! What follows what in the sending of a machine.

use vstd::prelude::*;
use crate::config::VmConfigView;
use crate::endpoint::{endpoint_of, no_path_in, EndpointView};
use crate::error::{Cause, Context, Failure, MigratableError};
use crate::features::Build;
use crate::lifecycle::{ask, provided};
use crate::migration::{
    abort_plan, await_answer, connect_wrap, descriptors_plan, dirty_pass, dirty_plan,
    fail_send, length_plan, paused_plan, quiesce_plan, send_began, send_migration_plan, send_plan,
    source_cpuid_plan, table_plan, transfer_plan,
};
use crate::model::{advanced, after, applied, failed, fits, settled, Monitor};
use crate::plan::{
    send_error, wrapped, Action, Change, Command, Expect, Outcome, Phase, Recovery, ReplyView, StepView,
    VmSendMigrationData, Wrap,
};
use crate::run::{course, lemma_step, lemma_within, possible, Request};
use crate::straight::lemma_over;
use crate::trace::{
    asked, law_outcomes_and_actions, lemma_first_failure, lemma_settled_pending,
};

verus! {

/// What a phase asks for.
spec fn what(phase: Phase) -> Option<Action> {
    match phase {
        Phase::Ask(action, _, _) => Some(action),
        _ => None,
    }
}

/// Whether an action is a request to the peer that some bytes follow.
spec fn announces(action: Option<Action>) -> bool {
    action matches Some(Action::SendRequest(command, _)) && (command is Config || command is State)
}

/// Whether an action is a request to the peer that nothing follows.
spec fn is_bare(action: Option<Action>) -> bool {
    action matches Some(Action::SendRequest(command, _)) && !(command is Config || command is State
        || command is Memory)
}

/// Whether an action follows the last reading of the dirty log, while the
/// machine runs or once it is paused.
spec fn ends_pass(action: Option<Action>) -> bool {
    action == Some(Action::PauseVm) || action == Some(Action::ReleaseDiskLocks)
}

/// Whether an action is the first request to the peer.
spec fn is_first(action: Option<Action>) -> bool {
    action matches Some(Action::SendRequest(Command::Start, _))
}

/// Whether an action is a request to the peer that its memory follows.
spec fn announces_memory(action: Option<Action>) -> bool {
    action matches Some(Action::SendRequest(Command::Memory, _))
}

/// Whether an action encodes something.
spec fn encodes(action: Option<Action>) -> bool {
    action == Some(Action::EncodeConfig) || action == Some(Action::EncodeSnapshot)
}

/// Whether a phase expects of its action what that brings.
spec fn fine(phase: Phase) -> bool {
    match phase {
        Phase::Ask(action, expect, wrap) => {
            &&& match action {
                Action::SendRequest(Command::Memory, _) => wrap == Wrap::Never,
                Action::EncodeConfig => wrap == Wrap::Never,
                Action::EncodeSnapshot => wrap == Wrap::Never,
                Action::ReadSharedMemory => wrap == Wrap::Never,
                Action::ReadState => wrap == Wrap::Never,
                Action::Connect => wrap == Wrap::Send(Context::ConnectTcp) || wrap == Wrap::Send(
                    Context::ConnectUnix,
                ),
                Action::GenerateCpuid(_) => wrap == Wrap::Send(Context::SourceCpuid),
                Action::SendPayload => wrap == Wrap::Socket,
                Action::ReleaseDiskLocks => wrap == Wrap::Unlock,
                Action::SignalExit => wrap == Wrap::Send(Context::SignalExit),
                _ => wrap == Wrap::Migration,
            }
            &&& match expect {
                Expect::Done => !encodes(Some(action)) && !(action is ReadMemoryTable)
                    && !(action is ReadDirtyLog) && !(action is AwaitAnswer),
                Expect::Answer(_) => action is AwaitAnswer,
                Expect::SharedMemory(_) => action is ReadSharedMemory,
                Expect::Length(command) => (action is EncodeConfig && command is Config) || (
                action is EncodeSnapshot && command is State),
                Expect::Table => action is ReadMemoryTable,
                Expect::Dirty(_) => action is ReadDirtyLog,
                Expect::Paused => action is ReadState,
                _ => false,
            }
        },
        Phase::Apply(change) => change matches Change::OnFailure(recovery) && sane(recovery),
        Phase::Fail(_) => true,
    }
}

/// Whether what follows a failure can belong to a sending.
spec fn sane(recovery: Recovery) -> bool {
    recovery is Nothing || recovery is AbortSend
}

/// Whether a phase may stand before another in a plan, or at its end.
spec fn precedes(phase: Phase, next: Option<Phase>) -> bool {
    let a = what(phase);
    let b = match next {
        Some(next) => what(next),
        None => None,
    };
    &&& announces_memory(a) <==> b == Some(Action::SendTable)
    &&& a == Some(Action::SendTable) <==> b == Some(Action::SendRegions)
    &&& announces(a) <==> b == Some(Action::SendPayload)
    &&& (a == Some(Action::SendRegions) || a == Some(Action::SendPayload) || is_bare(a)
        || encodes(a)) <==> b == Some(Action::AwaitAnswer)
    &&& a == Some(Action::Connect) <==> is_first(b)
    &&& a == Some(Action::StartDirtyLog) <==> b == Some(Action::ReadMemoryTable)
    &&& a == Some(Action::ReleaseDiskLocks) <==> b == Some(Action::SnapshotVm)
    &&& a == Some(Action::SnapshotVm) <==> b == Some(Action::EncodeSnapshot)
    &&& a == Some(Action::ReadDirtyLog) && next is Some ==> ends_pass(b)
    &&& is_bare(b) ==> b->0->SendRequest_1 == 0
    &&& !announces(b)
    &&& !announces_memory(b)
}

/// Whether a phase of a plan is in its place.
spec fn in_place(plan: Seq<Phase>, i: int) -> bool {
    &&& fine(plan[i])
    &&& precedes(
        plan[i],
        if i + 1 < plan.len() {
            Some(plan[i + 1])
        } else {
            None
        },
    )
}

/// Whether every phase of a plan is in its place.
spec fn linked(plan: Seq<Phase>) -> bool {
    forall|i: int| 0 <= i < plan.len() ==> #[trigger] in_place(plan, i)
}

/// Whether an action can only come right behind another.
spec fn leans(action: Option<Action>) -> bool {
    ||| action == Some(Action::SendTable)
    ||| action == Some(Action::SendRegions)
    ||| action == Some(Action::SendPayload)
    ||| action == Some(Action::AwaitAnswer)
    ||| action == Some(Action::ReadMemoryTable)
    ||| action == Some(Action::SnapshotVm)
    ||| action == Some(Action::EncodeSnapshot)
    ||| is_bare(action) && action->0->SendRequest_1 != 0
    ||| is_first(action)
    ||| announces(action)
    ||| announces_memory(action)
}

/// Whether a plan begins with something that need not come behind another.
spec fn stands(plan: Seq<Phase>) -> bool {
    plan.len() > 0 ==> !leans(what(plan[0]))
}

/// The rest of a plan.
proof fn lemma_linked_rest(plan: Seq<Phase>)
    requires
        linked(plan),
        plan.len() > 0,
    ensures
        linked(plan.drop_first()),
        in_place(plan, 0),
{
    let rest = plan.drop_first();
    assert forall|i: int| 0 <= i < rest.len() implies #[trigger] in_place(rest, i) by {
        assert(in_place(plan, i + 1));
    }
}

/// Two plans, one after the other.
proof fn lemma_linked_join(head: Seq<Phase>, tail: Seq<Phase>)
    requires
        linked(head),
        linked(tail),
        stands(tail),
        head.len() > 0 && tail.len() > 0 && what(head.last()) == Some(Action::ReadDirtyLog)
            ==> ends_pass(what(tail[0])),
    ensures
        linked(head + tail),
        stands(head) ==> stands(head + tail),
{
    let plan = head + tail;
    assert forall|i: int| 0 <= i < plan.len() implies #[trigger] in_place(plan, i) by {
        if i < head.len() {
            assert(in_place(head, i));
        } else {
            assert(in_place(tail, i - head.len()));
        }
    }
}

/// A plan of phases that neither lean on others nor are leaned on.
proof fn lemma_linked_plain(plan: Seq<Phase>)
    requires
        forall|i: int|
            0 <= i < plan.len() ==> fine(#[trigger] plan[i]) && precedes(plan[i], None) && !leans(
                what(plan[i]),
            ) && (what(plan[i]) == Some(Action::ReadDirtyLog) ==> i + 1 == plan.len()),
    ensures
        linked(plan),
        stands(plan),
{
    assert forall|i: int| 0 <= i < plan.len() implies #[trigger] in_place(plan, i) by {
        if i + 1 < plan.len() {
            assert(!leans(what(plan[i + 1])));
        }
    }
}

/// What follows a table that was read, and what follows a failure.
proof fn lemma_pieces_linked(passes: u8, regions: u64, length: u64, local: bool)
    ensures
        linked(abort_plan(local)),
        stands(abort_plan(local)),
        linked(table_plan(length)),
        linked(dirty_plan(passes, regions, length)),
{
    assert forall|i: int| 0 <= i < table_plan(length).len() implies #[trigger] in_place(
        table_plan(length),
        i,
    ) by {}
    let again = provided(passes > 0, seq![dirty_pass((passes - 1) as u8)]);
    lemma_linked_plain(again);
    lemma_linked_join(table_plan(length), again);
    lemma_linked_plain(abort_plan(local));
}

/// The transfer of a machine.
#[verifier::rlimit(30)]
proof fn lemma_transfer_linked(
    build: Build,
    config: VmConfigView,
    endpoint: EndpointView,
    local: bool,
)
    ensures
        linked(transfer_plan(build, config, endpoint, local)),
        stands(transfer_plan(build, config, endpoint, local)),
{
    let first = seq![
        ask(Action::Connect, connect_wrap(endpoint)),
        ask(Action::SendRequest(Command::Start, 0), Wrap::Migration),
        await_answer(Context::Start),
    ];
    let cpuid = source_cpuid_plan(build, config);
    let descriptors = descriptors_plan(endpoint, local);
    let encode = seq![
        Phase::Ask(Action::EncodeConfig, Expect::Length(Command::Config), Wrap::Never),
        await_answer(Context::Config),
        ask(Action::StartMigration, Wrap::Migration),
    ];
    let quiesce = quiesce_plan(local);
    let state = seq![
        ask(Action::ReleaseDiskLocks, Wrap::Unlock),
        ask(Action::SnapshotVm, Wrap::Migration),
        Phase::Ask(Action::EncodeSnapshot, Expect::Length(Command::State), Wrap::Never),
        await_answer(Context::State),
        ask(Action::SendRequest(Command::Complete, 0), Wrap::Migration),
        await_answer(Context::Complete),
    ];
    let stop = provided(!local, seq![ask(Action::StopDirtyLog, Wrap::Migration)]);
    let last = seq![ask(Action::CompleteMigration, Wrap::Migration)];
    assert forall|i: int| 0 <= i < first.len() implies #[trigger] in_place(first, i) by {}
    assert forall|i: int| 0 <= i < encode.len() implies #[trigger] in_place(encode, i) by {}
    assert forall|i: int| 0 <= i < state.len() implies #[trigger] in_place(state, i) by {}
    lemma_linked_plain(cpuid);
    lemma_linked_plain(descriptors);
    assert forall|i: int| 0 <= i < quiesce.len() implies #[trigger] in_place(quiesce, i) by {}
    lemma_linked_plain(stop);
    lemma_linked_plain(last);
    lemma_linked_join(first, cpuid);
    lemma_linked_join(first + cpuid, descriptors);
    lemma_linked_join(first + cpuid + descriptors, encode);
    lemma_linked_join(first + cpuid + descriptors + encode, quiesce);
    lemma_linked_join(first + cpuid + descriptors + encode + quiesce, state);
    lemma_linked_join(first + cpuid + descriptors + encode + quiesce + state, stop);
    lemma_linked_join(first + cpuid + descriptors + encode + quiesce + state + stop, last);
}

/// All that a sending does.
proof fn lemma_send_linked(build: Build, config: VmConfigView, data: VmSendMigrationData)
    ensures
        linked(send_plan(build, config, data)),
        stands(send_plan(build, config, data)),
{
    let first = seq![Phase::Apply(Change::OnFailure(Recovery::AbortSend { local: data.local }))];
    lemma_linked_plain(first);
    match endpoint_of(data.destination_url@) {
        Some(endpoint) => {
            let transfer = transfer_plan(build, config, endpoint, data.local);
            let last = seq![
                Phase::Apply(Change::OnFailure(Recovery::Nothing)),
                ask(Action::SignalExit, Wrap::Send(Context::SignalExit)),
            ];
            lemma_transfer_linked(build, config, endpoint, data.local);
            lemma_linked_plain(last);
            lemma_linked_join(transfer, last);
            lemma_linked_join(first, transfer + last);
        },
        None => {
            let refused = seq![Phase::Fail(Failure::Migration(no_path_in(data.destination_url)))];
            lemma_linked_plain(refused);
            lemma_linked_join(first, refused);
        },
    }
}

/// Whether the monitor is in the course of a sending, with everything that is
/// still to come in its place.
spec fn under_way(at: (Monitor, StepView)) -> bool {
    at.1 matches StepView::Perform(action) ==> {
        &&& sane(at.0.recovery)
        &&& at.0.waiting matches Some(waiting)
        &&& linked(seq![Phase::Ask(action, waiting.expect, waiting.wrap)] + at.0.plan)
    }
}

/// What is to be done after a failure is in its place.
proof fn lemma_failed_linked(m: Monitor, failure: Failure)
    requires
        sane(m.recovery),
    ensures
        linked(failed(m, failure).plan),
        stands(failed(m, failure).plan),
        sane(failed(m, failure).recovery),
        failed(m, failure).plan.len() > 0 ==> what(failed(m, failure).plan[0]) == Some(
            Action::StopDirtyLog,
        ) || what(failed(m, failure).plan[0]) == Some(Action::ReadState),
{
    match m.recovery {
        Recovery::AbortSend { local } => lemma_pieces_linked(0, 0, 0, local),
        _ => {},
    }
}

/// A monitor that goes on with a plan whose phases are in their places. What
/// leans on another is asked for only where the plan begins with it.
#[verifier::rlimit(30)]
proof fn lemma_goes_on(m: Monitor)
    requires
        linked(m.plan),
        sane(m.recovery),
    ensures
        under_way(settled(m)),
        settled(m).1 matches StepView::Perform(action) ==> (leans(Some(action)) ==> m.plan.len() > 0
            && what(m.plan[0]) == Some(action)),
    decreases
            (if m.pending is None {
                1nat
            } else {
                0nat
            }),
            m.plan.len(),
{
    if m.plan.len() > 0 {
        let rest = Monitor { plan: m.plan.drop_first(), ..m };
        lemma_linked_rest(m.plan);
        match m.plan[0] {
            Phase::Ask(action, expect, wrap) => {
                assert(seq![m.plan[0]] + rest.plan =~= m.plan);
            },
            Phase::Apply(change) => {
                lemma_goes_on(applied(rest, change));
            },
            Phase::Fail(failure) => {
                lemma_failed_linked(rest, failure);
                lemma_goes_on(failed(rest, failure));
            },
        }
    }
}

/// Whether what is asked for next, or the end, is what has to follow an action
/// and its outcome.
pub open spec fn comes_next(action: Action, outcome: Outcome, next: StepView) -> bool {
    &&& outcome is Failed || outcome is Refused ==> {
        ||| next matches StepView::Done(Err(_))
        ||| next == StepView::Perform(Action::StopDirtyLog)
        ||| next == StepView::Perform(Action::ReadState)
    }
    &&& !(outcome is Failed || outcome is Refused) ==> {
        &&& (action matches Action::SendRequest(Command::Memory, _)) <==> next
            == StepView::Perform(Action::SendTable)
        &&& action == Action::SendTable <==> next == StepView::Perform(Action::SendRegions)
        &&& (action matches Action::SendRequest(command, _) && (command is Config
            || command is State)) <==> next == StepView::Perform(Action::SendPayload)
        &&& (action == Action::SendRegions || action == Action::SendPayload || (
        action matches Action::SendRequest(command, _) && !(command is Config || command is State
            || command is Memory))) <==> next == StepView::Perform(Action::AwaitAnswer)
        &&& action == Action::Connect <==> (next matches StepView::Perform(
            Action::SendRequest(Command::Start, _),
        ))
        &&& next matches StepView::Perform(Action::SendRequest(command, n)) ==> (command is Config
            || command is State || command is Memory || n == 0)
        &&& action == Action::StartDirtyLog <==> next == StepView::Perform(Action::ReadMemoryTable)
        &&& action == Action::ReleaseDiskLocks <==> next == StepView::Perform(Action::SnapshotVm)
        &&& action == Action::SnapshotVm <==> next == StepView::Perform(Action::EncodeSnapshot)
        &&& next matches StepView::Perform(Action::SendRequest(Command::Memory, n)) ==> {
            ||| action == Action::ReadMemoryTable && (outcome matches Outcome::Table(_, length)
                && length == n)
            ||| action == Action::ReadDirtyLog && (outcome matches Outcome::Table(regions, length)
                && regions != 0 && length == n)
        }
        &&& action == Action::ReadMemoryTable ==> (outcome matches Outcome::Table(_, length) && next
            == StepView::Perform(Action::SendRequest(Command::Memory, length)))
        &&& action == Action::ReadDirtyLog ==> (outcome matches Outcome::Table(regions, length) && (
        if regions != 0 {
            next == StepView::Perform(Action::SendRequest(Command::Memory, length))
        } else {
            next is Done || next == StepView::Perform(Action::PauseVm) || next
                == StepView::Perform(Action::ReleaseDiskLocks)
        }))
        &&& next matches StepView::Perform(Action::SendRequest(Command::Config, n)) ==> action
            == Action::EncodeConfig && outcome == Outcome::Number(n)
        &&& action == Action::EncodeConfig ==> (outcome matches Outcome::Number(n) && next
            == StepView::Perform(Action::SendRequest(Command::Config, n)))
        &&& next matches StepView::Perform(Action::SendRequest(Command::State, n)) ==> action
            == Action::EncodeSnapshot && outcome == Outcome::Number(n)
        &&& action == Action::EncodeSnapshot ==> (outcome matches Outcome::Number(n) && next
            == StepView::Perform(Action::SendRequest(Command::State, n)))
    }
}

/// A sending goes on after a failure.
proof fn lemma_next_failed(rest: Monitor, failure: Failure, action: Action, outcome: Outcome)
    requires
        sane(rest.recovery),
        outcome is Failed || outcome is Refused,
    ensures
        under_way(settled(failed(rest, failure))),
        comes_next(action, outcome, settled(failed(rest, failure)).1),
        match settled(failed(rest, failure)).1 {
            StepView::Perform(_) => settled(failed(rest, failure)).0.pending is Some,
            StepView::Done(result) => result is Err,
        },
{
    let end = failed(rest, failure);
    lemma_failed_linked(rest, failure);
    lemma_goes_on(end);
    lemma_settled_pending(end);
}

/// A sending goes on after an action that brings nothing but its success.
proof fn lemma_next_plain(rest: Monitor, phase: Phase, action: Action, outcome: Outcome)
    requires
        sane(rest.recovery),
        linked(seq![phase] + rest.plan),
        what(phase) == Some(action),
        !encodes(Some(action)),
        !(action is ReadMemoryTable),
        !(action is ReadDirtyLog),
        outcome is Done || outcome is State,
    ensures
        under_way(settled(rest)),
        comes_next(action, outcome, settled(rest).1),
{
    let line = seq![phase] + rest.plan;
    lemma_linked_rest(line);
    assert(line.drop_first() =~= rest.plan);
    lemma_goes_on(rest);
    assert(rest.plan.len() > 0 ==> line[1] == rest.plan[0]);
}

/// A sending goes on after its machine is found paused, or not.
proof fn lemma_next_paused(rest: Monitor, phase: Phase, action: Action, outcome: Outcome)
    requires
        sane(rest.recovery),
        linked(seq![phase] + rest.plan),
        phase matches Phase::Ask(a, Expect::Paused, _) && a == action,
        outcome is State,
    ensures
        under_way(settled(rest.then_do(paused_plan(outcome->State_0)))),
        comes_next(action, outcome, settled(rest.then_do(paused_plan(outcome->State_0))).1),
{
    let line = seq![phase] + rest.plan;
    lemma_linked_rest(line);
    assert(line.drop_first() =~= rest.plan);
    assert(rest.plan.len() > 0 ==> line[1] == rest.plan[0]);
    let plan = paused_plan(outcome->State_0);
    lemma_linked_plain(plan);
    lemma_linked_join(plan, rest.plan);
    let next = rest.then_do(plan);
    lemma_goes_on(next);
    if plan.len() > 0 {
        assert(next.plan[0] == plan[0]);
    } else {
        assert(next.plan =~= rest.plan);
    }
}

/// A sending goes on after a table was read.
#[verifier::rlimit(30)]
proof fn lemma_next_table(rest: Monitor, phase: Phase, action: Action, outcome: Outcome)
    requires
        sane(rest.recovery),
        linked(seq![phase] + rest.plan),
        fine(phase),
        phase matches Phase::Ask(a, expect, _) && a == action && (expect is Table
            || expect is Dirty),
        outcome is Table,
    ensures
        ({
            let next = after(rest, phase->Ask_1, outcome);
            under_way(settled(next)) && comes_next(action, outcome, settled(next).1)
        }),
{
    let line = seq![phase] + rest.plan;
    lemma_linked_rest(line);
    assert(line.drop_first() =~= rest.plan);
    assert(rest.plan.len() > 0 ==> line[1] == rest.plan[0]);
    assert(stands(rest.plan));
    let next = after(rest, phase->Ask_1, outcome);
    match (phase->Ask_1, outcome) {
        (Expect::Table, Outcome::Table(_, length)) => {
            lemma_pieces_linked(0, 0, length, true);
            lemma_linked_join(table_plan(length), rest.plan);
            lemma_goes_on(next);
            assert(next.plan[0] == table_plan(length)[0]);
        },
        (Expect::Dirty(passes), Outcome::Table(regions, length)) => {
            lemma_pieces_linked(passes, regions, length, true);
            lemma_linked_join(dirty_plan(passes, regions, length), rest.plan);
            lemma_goes_on(next);
            if regions != 0 {
                assert(next.plan[0] == table_plan(length)[0]);
            } else {
                assert(next.plan =~= rest.plan);
            }
        },
        _ => {},
    }
}

/// A sending goes on after something was encoded.
#[verifier::rlimit(30)]
proof fn lemma_next_length(rest: Monitor, phase: Phase, action: Action, outcome: Outcome)
    requires
        sane(rest.recovery),
        linked(seq![phase] + rest.plan),
        fine(phase),
        phase matches Phase::Ask(a, Expect::Length(_), _) && a == action,
        outcome is Number,
    ensures
        ({
            let next = after(rest, phase->Ask_1, outcome);
            under_way(settled(next)) && comes_next(action, outcome, settled(next).1)
        }),
{
    let line = seq![phase] + rest.plan;
    lemma_linked_rest(line);
    assert(line.drop_first() =~= rest.plan);
    assert(rest.plan.len() > 0 ==> line[1] == rest.plan[0]);
    let next = after(rest, phase->Ask_1, outcome);
    match (phase->Ask_1, outcome) {
        (Expect::Length(command), Outcome::Number(length)) => {
            let head = length_plan(command, length);
            assert(what(rest.plan[0]) == Some(Action::AwaitAnswer));
            assert forall|i: int| 0 <= i < next.plan.len() implies #[trigger] in_place(
                next.plan,
                i,
            ) by {
                if i >= 2 {
                    assert(in_place(rest.plan, i - 2));
                } else if i == 1 {
                    assert(next.plan[2] == rest.plan[0]);
                }
            }
            lemma_goes_on(next);
            assert(next.plan[0] == head[0]);
        },
        _ => {},
    }
}

/// A sending begins.
#[verifier::rlimit(30)]
proof fn lemma_next_begun(rest: Monitor, phase: Phase, action: Action, outcome: Outcome)
    requires
        sane(rest.recovery),
        linked(seq![phase] + rest.plan),
        fine(phase),
        phase matches Phase::Ask(a, Expect::SharedMemory(_), _) && a == action,
        outcome is Flag,
    ensures
        ({
            let next = after(rest, phase->Ask_1, outcome);
            under_way(settled(next)) && comes_next(action, outcome, settled(next).1)
        }),
{
    reveal(send_began);
    let line = seq![phase] + rest.plan;
    lemma_linked_rest(line);
    assert(line.drop_first() =~= rest.plan);
    assert(rest.plan.len() > 0 ==> line[1] == rest.plan[0]);
    let next = after(rest, phase->Ask_1, outcome);
    match (phase->Ask_1, outcome) {
        (Expect::SharedMemory(data), Outcome::Flag(shared)) => {
            let head = if !shared && data.local {
                seq![fail_send(Context::LocalNeedsSharedMemory)]
            } else {
                match (rest.vm, rest.machine_config()) {
                    (Some(_), Some(config)) => send_plan(rest.build, config, data),
                    _ => seq![fail_send(Context::NotRunning)],
                }
            };
            assert(next.plan == head + rest.plan);
            if let (Some(_), Some(config)) = (rest.vm, rest.machine_config()) {
                lemma_send_linked(rest.build, config, data);
            }
            if head.len() == 1 {
                assert(linked(head) && stands(head)) by {
                    if !shared && data.local || !(rest.vm is Some && rest.machine_config() is Some) {
                        lemma_linked_plain(head);
                    }
                }
            }
            lemma_linked_join(head, rest.plan);
            lemma_goes_on(next);
        },
        _ => {},
    }
}

/// A sending, one outcome further.
#[verifier::rlimit(30)]
proof fn lemma_next(before: (Monitor, StepView), outcome: Outcome)
    requires
        under_way(before),
        before.1 is Perform,
        fits(before.0, outcome),
    ensures
        under_way(advanced(before.0, outcome)),
        comes_next(before.1->Perform_0, outcome, advanced(before.0, outcome).1),
        before.0.pending is Some || outcome is Failed || outcome is Refused ==> match advanced(
            before.0,
            outcome,
        ).1 {
            StepView::Perform(_) => advanced(before.0, outcome).0.pending is Some,
            StepView::Done(result) => result is Err,
        },
{
    let action = before.1->Perform_0;
    let waiting = before.0.waiting->0;
    let phase = Phase::Ask(action, waiting.expect, waiting.wrap);
    let rest = Monitor { waiting: None, ..before.0 };
    let line = seq![phase] + rest.plan;
    lemma_linked_rest(line);
    assert(line[0] == phase);
    assert(fine(phase));
    match outcome {
        Outcome::Failed(fault) => lemma_next_failed(
            rest,
            wrapped(waiting.wrap, fault),
            action,
            outcome,
        ),
        _ => {
            let next = after(rest, waiting.expect, outcome);
            if rest.pending is Some {
                reveal(send_began);
                lemma_settled_pending(next);
            }
            match (waiting.expect, outcome) {
                (Expect::Answer(context), Outcome::Refused) => lemma_next_failed(
                    rest,
                    Failure::Migration(send_error(context, None)),
                    action,
                    outcome,
                ),
                (Expect::Paused, _) => lemma_next_paused(rest, phase, action, outcome),
                (Expect::Table, _) => lemma_next_table(rest, phase, action, outcome),
                (Expect::Dirty(_), _) => lemma_next_table(rest, phase, action, outcome),
                (Expect::Length(_), _) => lemma_next_length(rest, phase, action, outcome),
                (Expect::SharedMemory(_), _) => lemma_next_begun(rest, phase, action, outcome),
                _ => lemma_next_plain(rest, phase, action, outcome),
            }
        },
    }
}

/// The course of a sending.
#[verifier::rlimit(30)]
proof fn lemma_sending(m: Monitor, data: VmSendMigrationData, outcomes: Seq<Outcome>)
    requires
        possible(m, Request::Send(data), outcomes),
    ensures
        under_way(course(m, Request::Send(data), outcomes)),
        outcomes.len() > 0 ==> {
            let before = course(m, Request::Send(data), outcomes.drop_last());
            &&& before.1 matches StepView::Perform(action)
            &&& comes_next(action, outcomes.last(), course(m, Request::Send(data), outcomes).1)
        },
        course(m, Request::Send(data), outcomes).1 matches StepView::Done(Ok(_)) ==> forall|i: int|
            0 <= i < outcomes.len() ==> !(#[trigger] outcomes[i] is Failed || outcomes[i] is Refused),
        course(m, Request::Send(data), outcomes).1 is Perform && course(
            m,
            Request::Send(data),
            outcomes,
        ).0.pending is None ==> forall|i: int|
            0 <= i < outcomes.len() ==> !(#[trigger] outcomes[i] is Failed || outcomes[i] is Refused),
    decreases outcomes.len(),
{
    let request = Request::Send(data);
    if outcomes.len() == 0 {
        reveal(course);
        reveal(possible);
        let start = Monitor { plan: send_migration_plan(data), ..m };
        lemma_linked_plain(start.plan);
        lemma_goes_on(start);
    } else {
        let so_far = outcomes.drop_last();
        let before = course(m, request, so_far);
        lemma_step(m, request, outcomes);
        lemma_sending(m, data, so_far);
        lemma_over(m, request, so_far);
        lemma_next(before, outcomes.last());
        let at = course(m, request, outcomes);
        if (at.1 matches StepView::Done(Ok(_))) || (at.1 is Perform && at.0.pending is None) {
            assert forall|i: int| 0 <= i < outcomes.len() implies !(#[trigger] outcomes[i] is Failed
                || outcomes[i] is Refused) by {
                if i + 1 < outcomes.len() {
                    assert(outcomes[i] == so_far[i]);
                }
            }
        }
    }
}

/// The exchanges of a sending that succeeds, by what the host was asked for:
/// each request that memory follows is sent right after a table was read, with
/// the length of that table, and right behind it come the table, once, then the
/// memory of the table, once, and then the peer's answer is awaited. Neither a
/// table nor memory is sent anywhere else. Each table of the machine's memory,
/// and each table of dirty pages that is not empty, is sent like that. In the
/// same way the configuration and the state are encoded, announced with the
/// length that came out, sent, once, and answered. The first request follows
/// the connection. The table of the whole memory is read as soon as dirty pages
/// are logged. The disk locks are released right before the snapshot, and that
/// is encoded at once. A table of dirty pages that is empty ends the passes.
#[verifier::rlimit(30)]
pub proof fn law_exchanges_of_a_sending(m: Monitor, data: VmSendMigrationData, outcomes: Seq<Outcome>)
    requires
        possible(m, Request::Send(data), outcomes),
        course(m, Request::Send(data), outcomes).1 matches StepView::Done(Ok(_)),
    ensures
        ({
            let actions = asked(m, Request::Send(data), outcomes);
            &&& actions.len() == outcomes.len()
            &&& forall|i: int|
                0 <= i < actions.len() ==> match #[trigger] actions[i] {
                    Action::SendRequest(Command::Memory, n) => {
                        &&& 0 < i
                        &&& i + 3 < actions.len()
                        &&& actions[i - 1] == Action::ReadMemoryTable || actions[i - 1]
                            == Action::ReadDirtyLog
                        &&& outcomes[i - 1] matches Outcome::Table(_, length) && length == n
                        &&& actions[i + 1] == Action::SendTable
                        &&& actions[i + 2] == Action::SendRegions
                        &&& actions[i + 3] == Action::AwaitAnswer
                    },
                    Action::SendTable => 0 < i && (actions[i - 1] matches Action::SendRequest(
                        Command::Memory,
                        _,
                    )),
                    Action::SendRegions => 0 < i && actions[i - 1] == Action::SendTable,
                    Action::Connect => {
                        &&& i + 1 < actions.len()
                        &&& actions[i + 1] == Action::SendRequest(Command::Start, 0)
                    },
                    Action::SendRequest(Command::Start, n) => {
                        &&& 0 < i
                        &&& actions[i - 1] == Action::Connect
                        &&& n == 0
                    },
                    Action::SendRequest(Command::Complete, n) => n == 0,
                    Action::StartDirtyLog => {
                        &&& i + 1 < actions.len()
                        &&& actions[i + 1] == Action::ReadMemoryTable
                    },
                    Action::ReleaseDiskLocks => {
                        &&& i + 1 < actions.len()
                        &&& actions[i + 1] == Action::SnapshotVm
                    },
                    Action::SnapshotVm => {
                        &&& i + 1 < actions.len()
                        &&& 0 < i
                        &&& actions[i - 1] == Action::ReleaseDiskLocks
                        &&& actions[i + 1] == Action::EncodeSnapshot
                    },
                    Action::ReadMemoryTable => {
                        &&& 0 < i
                        &&& actions[i - 1] == Action::StartDirtyLog
                        &&& i + 1 < actions.len()
                        &&& outcomes[i] matches Outcome::Table(_, n) && actions[i + 1]
                            == Action::SendRequest(Command::Memory, n)
                    },
                    Action::ReadDirtyLog => {
                        &&& outcomes[i] matches Outcome::Table(regions, n) && if regions != 0 {
                            i + 1 < actions.len() && actions[i + 1] == Action::SendRequest(
                                Command::Memory,
                                n,
                            )
                        } else {
                            i + 1 < actions.len() ==> actions[i + 1] == Action::PauseVm || actions[i
                                + 1] == Action::ReleaseDiskLocks
                        }
                    },
                    Action::EncodeConfig => {
                        &&& i + 3 < actions.len()
                        &&& outcomes[i] matches Outcome::Number(n) && actions[i + 1]
                            == Action::SendRequest(Command::Config, n)
                        &&& actions[i + 2] == Action::SendPayload
                        &&& actions[i + 3] == Action::AwaitAnswer
                    },
                    Action::EncodeSnapshot => {
                        &&& i + 3 < actions.len()
                        &&& outcomes[i] matches Outcome::Number(n) && actions[i + 1]
                            == Action::SendRequest(Command::State, n)
                        &&& actions[i + 2] == Action::SendPayload
                        &&& actions[i + 3] == Action::AwaitAnswer
                    },
                    Action::SendPayload => 1 < i && (actions[i - 2] == Action::EncodeConfig
                        || actions[i - 2] == Action::EncodeSnapshot),
                    Action::AwaitAnswer => 0 < i && (actions[i - 1] == Action::SendRegions
                        || actions[i - 1] == Action::SendPayload || (
                    actions[i - 1] matches Action::SendRequest(command, _) && !(command is Config
                        || command is State || command is Memory))),
                    _ => true,
                }
            &&& forall|i: int|
                0 <= i < actions.len() ==> !(#[trigger] outcomes[i] is Failed || outcomes[i] is Refused)
        }),
{
    let actions = asked(m, Request::Send(data), outcomes);
    law_outcomes_and_actions(m, Request::Send(data), outcomes);
    lemma_sending(m, data, outcomes);
    assert forall|i: int| 0 <= i < actions.len() implies #[trigger] comes_next(
        actions[i],
        outcomes[i],
        next_step(actions, i),
    ) by {
        lemma_at(m, data, outcomes, i);
    }
    lemma_first_step(m, data, outcomes);
    assert forall|i: int| 0 <= i < actions.len() implies match #[trigger] actions[i] {
            Action::SendRequest(Command::Memory, n) => {
                &&& 0 < i
                &&& i + 3 < actions.len()
                &&& actions[i - 1] == Action::ReadMemoryTable || actions[i - 1]
                    == Action::ReadDirtyLog
                &&& outcomes[i - 1] matches Outcome::Table(_, length) && length == n
                &&& actions[i + 1] == Action::SendTable
                &&& actions[i + 2] == Action::SendRegions
                &&& actions[i + 3] == Action::AwaitAnswer
            },
            Action::SendTable => 0 < i && (actions[i - 1] matches Action::SendRequest(
                Command::Memory,
                _,
            )),
            Action::SendRegions => 0 < i && actions[i - 1] == Action::SendTable,
            Action::Connect => {
                &&& i + 1 < actions.len()
                &&& actions[i + 1] == Action::SendRequest(Command::Start, 0)
            },
            Action::SendRequest(Command::Start, n) => {
                &&& 0 < i
                &&& actions[i - 1] == Action::Connect
                &&& n == 0
            },
            Action::SendRequest(Command::Complete, n) => n == 0,
            Action::StartDirtyLog => {
                &&& i + 1 < actions.len()
                &&& actions[i + 1] == Action::ReadMemoryTable
            },
            Action::ReleaseDiskLocks => {
                &&& i + 1 < actions.len()
                &&& actions[i + 1] == Action::SnapshotVm
            },
            Action::SnapshotVm => {
                &&& i + 1 < actions.len()
                &&& 0 < i
                &&& actions[i - 1] == Action::ReleaseDiskLocks
                &&& actions[i + 1] == Action::EncodeSnapshot
            },
            Action::ReadMemoryTable => {
                &&& 0 < i
                &&& actions[i - 1] == Action::StartDirtyLog
                &&& i + 1 < actions.len()
                &&& outcomes[i] matches Outcome::Table(_, n) && actions[i + 1]
                    == Action::SendRequest(Command::Memory, n)
            },
            Action::ReadDirtyLog => {
                &&& outcomes[i] matches Outcome::Table(regions, n) && if regions != 0 {
                    i + 1 < actions.len() && actions[i + 1] == Action::SendRequest(
                        Command::Memory,
                        n,
                    )
                } else {
                    i + 1 < actions.len() ==> actions[i + 1] == Action::PauseVm || actions[i
                        + 1] == Action::ReleaseDiskLocks
                }
            },
            Action::EncodeConfig => {
                &&& i + 3 < actions.len()
                &&& outcomes[i] matches Outcome::Number(n) && actions[i + 1]
                    == Action::SendRequest(Command::Config, n)
                &&& actions[i + 2] == Action::SendPayload
                &&& actions[i + 3] == Action::AwaitAnswer
            },
            Action::EncodeSnapshot => {
                &&& i + 3 < actions.len()
                &&& outcomes[i] matches Outcome::Number(n) && actions[i + 1]
                    == Action::SendRequest(Command::State, n)
                &&& actions[i + 2] == Action::SendPayload
                &&& actions[i + 3] == Action::AwaitAnswer
            },
            Action::SendPayload => 1 < i && (actions[i - 2] == Action::EncodeConfig
                || actions[i - 2] == Action::EncodeSnapshot),
            Action::AwaitAnswer => 0 < i && (actions[i - 1] == Action::SendRegions
                || actions[i - 1] == Action::SendPayload || (
            actions[i - 1] matches Action::SendRequest(command, _) && !(command is Config
                || command is State || command is Memory))),
            _ => true,
        } by {
        lemma_exchange(actions, outcomes, i);
    }
}

/// What is asked for after an action of a sending that has succeeded, or the
/// end.
spec fn next_step(actions: Seq<Action>, i: int) -> StepView {
    if i + 1 < actions.len() {
        StepView::Perform(actions[i + 1])
    } else {
        StepView::Done(Ok(ReplyView::Done))
    }
}

/// One step of a sending that has succeeded.
proof fn lemma_at(m: Monitor, data: VmSendMigrationData, outcomes: Seq<Outcome>, i: int)
    requires
        possible(m, Request::Send(data), outcomes),
        course(m, Request::Send(data), outcomes).1 matches StepView::Done(Ok(_)),
        0 <= i < outcomes.len(),
    ensures
        comes_next(
            asked(m, Request::Send(data), outcomes)[i],
            outcomes[i],
            next_step(asked(m, Request::Send(data), outcomes), i),
        ),
{
    let request = Request::Send(data);
    let actions = asked(m, request, outcomes);
    law_outcomes_and_actions(m, request, outcomes);
    lemma_sending(m, data, outcomes);
    lemma_within(m, request, outcomes, i);
    let upto = outcomes.take(i + 1);
    assert(upto.drop_last() =~= outcomes.take(i));
    assert(upto.last() == outcomes[i]);
    lemma_sending(m, data, upto);
    assert(course(m, request, outcomes.take(i)).1 == StepView::Perform(actions[i]));
    if i + 1 < outcomes.len() {
        assert(course(m, request, outcomes.take(i + 1)).1 == StepView::Perform(actions[i + 1]));
    } else {
        assert(upto =~= outcomes);
    }
}

/// A sending first finds out whether memory can be shared.
proof fn lemma_first_step(m: Monitor, data: VmSendMigrationData, outcomes: Seq<Outcome>)
    requires
        possible(m, Request::Send(data), outcomes),
        course(m, Request::Send(data), outcomes).1 is Done,
    ensures
        asked(m, Request::Send(data), outcomes).len() > 0,
        asked(m, Request::Send(data), outcomes)[0] == Action::ReadSharedMemory,
{
    law_outcomes_and_actions(m, Request::Send(data), outcomes);
    reveal(course);
    if outcomes.len() > 0 {
        assert(outcomes.take(0) =~= Seq::empty());
    }
}

/// An exchange of a sending, from what follows what.
#[verifier::rlimit(30)]
proof fn lemma_exchange(actions: Seq<Action>, outcomes: Seq<Outcome>, i: int)
    requires
        actions.len() == outcomes.len(),
        actions.len() > 0,
        actions[0] == Action::ReadSharedMemory,
        forall|i: int|
            0 <= i < actions.len() ==> #[trigger] comes_next(
                actions[i],
                outcomes[i],
                next_step(actions, i),
            ),
        forall|i: int|
            0 <= i < outcomes.len() ==> !(#[trigger] outcomes[i] is Failed || outcomes[i] is Refused),
        0 <= i < actions.len(),
    ensures
        match actions[i] {
            Action::SendRequest(Command::Memory, n) => {
                &&& 0 < i
                &&& i + 3 < actions.len()
                &&& actions[i - 1] == Action::ReadMemoryTable || actions[i - 1]
                    == Action::ReadDirtyLog
                &&& outcomes[i - 1] matches Outcome::Table(_, length) && length == n
                &&& actions[i + 1] == Action::SendTable
                &&& actions[i + 2] == Action::SendRegions
                &&& actions[i + 3] == Action::AwaitAnswer
            },
            Action::SendTable => 0 < i && (actions[i - 1] matches Action::SendRequest(
                Command::Memory,
                _,
            )),
            Action::SendRegions => 0 < i && actions[i - 1] == Action::SendTable,
            Action::Connect => {
                &&& i + 1 < actions.len()
                &&& actions[i + 1] == Action::SendRequest(Command::Start, 0)
            },
            Action::SendRequest(Command::Start, n) => {
                &&& 0 < i
                &&& actions[i - 1] == Action::Connect
                &&& n == 0
            },
            Action::SendRequest(Command::Complete, n) => n == 0,
            Action::StartDirtyLog => {
                &&& i + 1 < actions.len()
                &&& actions[i + 1] == Action::ReadMemoryTable
            },
            Action::ReleaseDiskLocks => {
                &&& i + 1 < actions.len()
                &&& actions[i + 1] == Action::SnapshotVm
            },
            Action::SnapshotVm => {
                &&& i + 1 < actions.len()
                &&& 0 < i
                &&& actions[i - 1] == Action::ReleaseDiskLocks
                &&& actions[i + 1] == Action::EncodeSnapshot
            },
            Action::ReadMemoryTable => {
                &&& 0 < i
                &&& actions[i - 1] == Action::StartDirtyLog
                &&& i + 1 < actions.len()
                &&& outcomes[i] matches Outcome::Table(_, n) && actions[i + 1]
                    == Action::SendRequest(Command::Memory, n)
            },
            Action::ReadDirtyLog => {
                &&& outcomes[i] matches Outcome::Table(regions, n) && if regions != 0 {
                    i + 1 < actions.len() && actions[i + 1] == Action::SendRequest(
                        Command::Memory,
                        n,
                    )
                } else {
                    i + 1 < actions.len() ==> actions[i + 1] == Action::PauseVm || actions[i
                        + 1] == Action::ReleaseDiskLocks
                }
            },
            Action::EncodeConfig => {
                &&& i + 3 < actions.len()
                &&& outcomes[i] matches Outcome::Number(n) && actions[i + 1]
                    == Action::SendRequest(Command::Config, n)
                &&& actions[i + 2] == Action::SendPayload
                &&& actions[i + 3] == Action::AwaitAnswer
            },
            Action::EncodeSnapshot => {
                &&& i + 3 < actions.len()
                &&& outcomes[i] matches Outcome::Number(n) && actions[i + 1]
                    == Action::SendRequest(Command::State, n)
                &&& actions[i + 2] == Action::SendPayload
                &&& actions[i + 3] == Action::AwaitAnswer
            },
            Action::SendPayload => 1 < i && (actions[i - 2] == Action::EncodeConfig
                || actions[i - 2] == Action::EncodeSnapshot),
            Action::AwaitAnswer => 0 < i && (actions[i - 1] == Action::SendRegions
                || actions[i - 1] == Action::SendPayload || (
            actions[i - 1] matches Action::SendRequest(command, _) && !(command is Config
                || command is State || command is Memory))),
            _ => true,
        },
{
    assert(comes_next(actions[i], outcomes[i], next_step(actions, i)));
    if i > 0 {
        assert(comes_next(actions[i - 1], outcomes[i - 1], next_step(actions, i - 1)));
    }
    if i > 1 {
        assert(comes_next(actions[i - 2], outcomes[i - 2], next_step(actions, i - 2)));
    }
    if i + 1 < actions.len() {
        assert(comes_next(actions[i + 1], outcomes[i + 1], next_step(actions, i + 1)));
    }
    if i + 2 < actions.len() {
        assert(comes_next(actions[i + 2], outcomes[i + 2], next_step(actions, i + 2)));
    }
}

/// What a sending reports as its first failure, or is about to report once it
/// has put things in order, by the action that failed.
pub proof fn law_failures_of_a_sending(m: Monitor, data: VmSendMigrationData, outcomes: Seq<Outcome>)
    requires
        possible(m, Request::Send(data), outcomes),
        outcomes.len() > 0,
        course(m, Request::Send(data), outcomes.drop_last()).0.pending is None,
        outcomes.last() is Failed,
    ensures
        ({
            let before = course(m, Request::Send(data), outcomes.drop_last());
            let end = course(m, Request::Send(data), outcomes);
            let fault = outcomes.last()->Failed_0;
            let failure = match end.1 {
                StepView::Perform(_) => end.0.pending,
                StepView::Done(Err(e)) => Some(e),
                _ => None,
            };
            &&& before.1 is Perform
            &&& match before.1->Perform_0 {
                Action::Connect => failure == Some(
                    Failure::Migration(
                        MigratableError::MigrateSend(
                            Cause { context: Context::ConnectTcp, detail: Some(fault) },
                        ),
                    ),
                ) || failure == Some(
                    Failure::Migration(
                        MigratableError::MigrateSend(
                            Cause { context: Context::ConnectUnix, detail: Some(fault) },
                        ),
                    ),
                ),
                Action::GenerateCpuid(_) => failure == Some(
                    Failure::Migration(
                        MigratableError::MigrateSend(
                            Cause { context: Context::SourceCpuid, detail: Some(fault) },
                        ),
                    ),
                ),
                Action::SendPayload => failure == Some(
                    Failure::Migration(MigratableError::MigrateSocket(fault)),
                ),
                Action::ReleaseDiskLocks => failure == Some(
                    Failure::Migration(MigratableError::UnlockError(fault)),
                ),
                Action::SignalExit => failure == Some(
                    Failure::Migration(
                        MigratableError::MigrateSend(
                            Cause { context: Context::SignalExit, detail: Some(fault) },
                        ),
                    ),
                ),
                _ => failure == Some(Failure::Migration(MigratableError::Machine(fault))),
            }
        }),
{
    let request = Request::Send(data);
    let so_far = outcomes.drop_last();
    let before = course(m, request, so_far);
    lemma_step(m, request, outcomes);
    lemma_sending(m, data, so_far);
    lemma_over(m, request, so_far);
    let waiting = before.0.waiting->0;
    let line = seq![Phase::Ask(before.1->Perform_0, waiting.expect, waiting.wrap)] + before.0.plan;
    assert(in_place(line, 0));
    assert(fine(line[0]));
    lemma_first_failure(before.0, outcomes.last()->Failed_0);
}

} // verus!
