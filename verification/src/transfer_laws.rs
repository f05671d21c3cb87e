//! What holds of whole transfers of a machine: the order in which a sending
//! goes through its stages, and what follows a refusal of the peer.

use vstd::prelude::*;
use crate::config::VmConfigView;
use crate::endpoint::{endpoint_of, no_path_in, EndpointView};
use crate::error::{Context, Failure};
use crate::features::Build;
use crate::lifecycle::ask;
use crate::migration::{
    abort_plan, await_answer, descriptors_plan, dirty_pass, dirty_plan, length_plan, quiesce_plan,
    send_began, source_cpuid_plan, table_plan, transfer_plan, MAX_DIRTY_MIGRATIONS,
};
use crate::migration_laws::{config_sent, log_stopped, opening, state_sent};
use crate::model::{advanced, after, applied, failed, fits, settled, Monitor, Waiting};
use crate::plan::{
    send_error, wrapped, Action, Change, Command, Expect, Outcome, Phase, Recovery, StepView,
    VmSendMigrationData, Wrap,
};
use crate::run::{course, lemma_next_ask, lemma_step, lemma_within, possible, taken_up, Request};

verus! {

/// A milestone of a transfer.
pub enum Mark {
    /// A request has been sent to the peer.
    Sent(Command),
    /// An answer of the peer has been awaited.
    Answered(Context),
    /// The machine, or the monitor, has been called upon.
    Called(Action),
}

/// What is on record of a transfer.
pub struct Record {
    /// The milestones, but for those of the memory.
    pub marks: Seq<Mark>,
    /// How many requests have been sent with memory.
    pub memory: nat,
    /// Whether these came only after dirty pages were logged, and before the
    /// disk locks were released.
    pub placed: bool,
    /// Whether a request has been sent whose answer has not been awaited.
    pub open: bool,
    /// Whether each request was sent after the answer to the last.
    pub paired: bool,
    /// Whether the machine has been paused.
    pub paused: bool,
    /// How often the dirty log was read before that.
    pub before: nat,
    /// How often the dirty log was read after that.
    pub after: nat,
    /// Whether the dirty log was empty at some time.
    pub clean: bool,
}

/// A record of nothing.
pub open spec fn no_record() -> Record {
    Record {
        marks: Seq::empty(),
        memory: 0,
        placed: true,
        open: false,
        paired: true,
        paused: false,
        before: 0,
        after: 0,
        clean: false,
    }
}

/// The milestones up to the sending of the machine.
pub open spec fn first_marks(local: bool) -> Seq<Mark> {
    seq![Mark::Sent(Command::Start), Mark::Answered(Context::Start)] + (if local {
        seq![Mark::Called(Action::SendMemoryFds)]
    } else {
        Seq::empty()
    }) + seq![
        Mark::Sent(Command::Config),
        Mark::Answered(Context::Config),
        Mark::Called(Action::StartMigration),
    ] + (if local {
        Seq::empty()
    } else {
        seq![Mark::Called(Action::StartDirtyLog)]
    })
}

/// All milestones of a transfer that succeeds, in their order.
pub open spec fn all_marks(local: bool) -> Seq<Mark> {
    first_marks(local) + seq![
        Mark::Called(Action::PauseVm),
        Mark::Called(Action::ReleaseDiskLocks),
        Mark::Called(Action::SnapshotVm),
        Mark::Sent(Command::State),
        Mark::Answered(Context::State),
        Mark::Sent(Command::Complete),
        Mark::Answered(Context::Complete),
    ] + (if local {
        Seq::empty()
    } else {
        seq![Mark::Called(Action::StopDirtyLog)]
    }) + seq![Mark::Called(Action::CompleteMigration), Mark::Called(Action::SignalExit)]
}

/// The milestone that an action is, where it is one.
pub open spec fn mark_of(action: Action, expect: Expect) -> Seq<Mark> {
    match action {
        Action::SendRequest(command, _) => if command is Memory {
            Seq::empty()
        } else {
            seq![Mark::Sent(command)]
        },
        Action::AwaitAnswer => match expect {
            Expect::Answer(context) => if context is Memory {
                Seq::empty()
            } else {
                seq![Mark::Answered(context)]
            },
            _ => Seq::empty(),
        },
        Action::SendMemoryFds => seq![Mark::Called(action)],
        Action::StartMigration => seq![Mark::Called(action)],
        Action::StartDirtyLog => seq![Mark::Called(action)],
        Action::PauseVm => seq![Mark::Called(action)],
        Action::ReleaseDiskLocks => seq![Mark::Called(action)],
        Action::SnapshotVm => seq![Mark::Called(action)],
        Action::StopDirtyLog => seq![Mark::Called(action)],
        Action::CompleteMigration => seq![Mark::Called(action)],
        Action::SignalExit => seq![Mark::Called(action)],
        _ => Seq::empty(),
    }
}

/// Whether memory may be sent at this point of a transfer.
pub open spec fn memory_may_go(marks: Seq<Mark>) -> bool {
    marks == first_marks(false) || marks == first_marks(false).push(Mark::Called(Action::PauseVm))
}

/// The record once an action has been asked for.
pub open spec fn recorded(q: Record, action: Action, expect: Expect) -> Record {
    let memory = action matches Action::SendRequest(Command::Memory, _);
    Record {
        marks: q.marks + mark_of(action, expect),
        memory: q.memory + if memory {
            1nat
        } else {
            0nat
        },
        placed: q.placed && (memory ==> memory_may_go(q.marks)),
        open: if action is SendRequest {
            true
        } else if action is AwaitAnswer {
            false
        } else {
            q.open
        },
        paired: q.paired && (action is SendRequest ==> !q.open) && (action is AwaitAnswer
            ==> q.open),
        paused: q.paused || action is PauseVm,
        before: q.before + if action is ReadDirtyLog && !q.paused {
            1nat
        } else {
            0nat
        },
        after: q.after + if action is ReadDirtyLog && q.paused {
            1nat
        } else {
            0nat
        },
        clean: q.clean,
    }
}

/// The record once an outcome has come.
pub open spec fn noted(q: Record, expect: Expect, outcome: Outcome) -> Record {
    match (expect, outcome) {
        (Expect::Dirty(_), Outcome::Table(regions, _)) => Record {
            clean: q.clean || regions == 0,
            ..q
        },
        _ => q,
    }
}

/// The record once the monitor has come to a step.
pub open spec fn recorded_at(q: Record, at: (Monitor, StepView)) -> Record {
    match (at.1, at.0.waiting) {
        (StepView::Perform(action), Some(waiting)) => recorded(q, action, waiting.expect),
        _ => q,
    }
}

/// The record of the course of a request.
pub open spec fn record(m: Monitor, request: Request, outcomes: Seq<Outcome>) -> Record
    decreases outcomes.len(),
{
    if outcomes.len() == 0 {
        recorded_at(no_record(), course(m, request, outcomes))
    } else {
        let before = course(m, request, outcomes.drop_last()).0;
        let q = record(m, request, outcomes.drop_last());
        recorded_at(
            match before.waiting {
                Some(waiting) => noted(q, waiting.expect, outcomes.last()),
                None => q,
            },
            course(m, request, outcomes),
        )
    }
}

/// Whether a record is that of a transfer that has succeeded.
pub open spec fn complete_record(q: Record, local: bool) -> bool {
    &&& q.marks == all_marks(local)
    &&& q.placed
    &&& q.paired
    &&& !q.open
    &&& local ==> q.memory == 0 && q.before == 0 && q.after == 0
    &&& !local ==> {
        &&& 1 <= q.memory <= MAX_DIRTY_MIGRATIONS + 2
        &&& q.before <= MAX_DIRTY_MIGRATIONS
        &&& q.after == 1
        &&& !q.clean ==> q.memory == MAX_DIRTY_MIGRATIONS + 2
    }
}

/// The phases that an outcome leads to in a transfer.
spec fn opened(expect: Expect, outcome: Outcome) -> Seq<Phase> {
    match (expect, outcome) {
        (Expect::Length(command), Outcome::Number(length)) => length_plan(command, length),
        (Expect::Table, Outcome::Table(_, length)) => table_plan(length),
        (Expect::Dirty(passes), Outcome::Table(regions, length)) => dirty_plan(
            passes,
            regions,
            length,
        ),
        _ => Seq::empty(),
    }
}

/// Whether something can be asked for in a transfer.
spec fn stage(expect: Expect, wrap: Wrap) -> bool {
    &&& expect is Done || expect is Answer || expect is Length || expect is Table || expect is Dirty
    &&& wrap != Wrap::Ignore
}

/// Whether a change belongs to a transfer.
spec fn guards(change: Change) -> bool {
    change matches Change::OnFailure(recovery) && (recovery is Nothing || recovery is AbortSend)
}

/// Whether an outcome can come in a transfer, and is no failure.
spec fn suits(expect: Expect, outcome: Outcome) -> bool {
    match expect {
        Expect::Length(_) => outcome is Number,
        Expect::Table => outcome is Table,
        Expect::Dirty(_) => outcome is Table,
        _ => true,
    }
}

/// Whether a plan completes a record, as far as one looks, whatever outcomes
/// come.
spec fn completes(n: nat, q: Record, plan: Seq<Phase>, local: bool) -> bool
    decreases n,
{
    n > 0 ==> if plan.len() == 0 {
        complete_record(q, local)
    } else {
        match plan[0] {
            Phase::Ask(action, expect, wrap) => stage(expect, wrap) && forall|outcome: Outcome|
                #[trigger] suits(expect, outcome) ==> completes(
                    (n - 1) as nat,
                    noted(recorded(q, action, expect), expect, outcome),
                    opened(expect, outcome) + plan.drop_first(),
                    local,
                ),
            Phase::Apply(change) => guards(change) && completes(
                (n - 1) as nat,
                q,
                plan.drop_first(),
                local,
            ),
            Phase::Fail(_) => true,
        }
    }
}

/// Whether a plan completes a record, whatever outcomes come.
spec fn always(q: Record, plan: Seq<Phase>, local: bool) -> bool {
    forall|n: nat| completes(n, q, plan, local)
}

/// Whether an outcome leads to no more phases.
spec fn simple(expect: Expect, wrap: Wrap) -> bool {
    (expect is Done || expect is Answer) && wrap != Wrap::Ignore
}

/// Phases whose outcomes lead to no more phases.
spec fn all_simple(plan: Seq<Phase>) -> bool {
    forall|i: int|
        0 <= i < plan.len() ==> (#[trigger] plan[i] matches Phase::Ask(_, expect, wrap) && simple(
            expect,
            wrap,
        ))
}

/// The record once some actions have been asked for.
spec fn recorded_all(q: Record, plan: Seq<Phase>) -> Record
    decreases plan.len(),
{
    if plan.len() == 0 {
        q
    } else {
        recorded_all(
            match plan[0] {
                Phase::Ask(action, expect, _) => recorded(q, action, expect),
                _ => q,
            },
            plan.drop_first(),
        )
    }
}

/// A plan that begins with an action completes a record where it does after
/// every outcome.
proof fn lemma_ask(q: Record, action: Action, expect: Expect, wrap: Wrap, rest: Seq<Phase>, local: bool)
    requires
        stage(expect, wrap),
        forall|outcome: Outcome| #[trigger]
            suits(expect, outcome) ==> always(
                noted(recorded(q, action, expect), expect, outcome),
                opened(expect, outcome) + rest,
                local,
            ),
    ensures
        always(q, seq![Phase::Ask(action, expect, wrap)] + rest, local),
{
    let plan = seq![Phase::Ask(action, expect, wrap)] + rest;
    assert(plan.drop_first() =~= rest);
    assert forall|n: nat| completes(n, q, plan, local) by {
        if n > 0 {
            assert forall|outcome: Outcome| #[trigger] suits(expect, outcome) implies completes(
                (n - 1) as nat,
                noted(recorded(q, action, expect), expect, outcome),
                opened(expect, outcome) + plan.drop_first(),
                local,
            ) by {
                assert(always(
                    noted(recorded(q, action, expect), expect, outcome),
                    opened(expect, outcome) + rest,
                    local,
                ));
            }
        }
    }
}

/// The same for some actions whose outcomes lead to no more phases.
proof fn lemma_asks(q: Record, head: Seq<Phase>, rest: Seq<Phase>, local: bool)
    requires
        all_simple(head),
        always(recorded_all(q, head), rest, local),
    ensures
        always(q, head + rest, local),
    decreases head.len(),
{
    if head.len() == 0 {
        assert(head + rest =~= rest);
    } else {
        let tail = head.drop_first();
        assert(all_simple(tail)) by {
            assert forall|i: int| 0 <= i < tail.len() implies (
            #[trigger] tail[i] matches Phase::Ask(_, expect, wrap) && simple(expect, wrap)) by {
                assert(tail[i] == head[i + 1]);
            }
        }
        match head[0] {
            Phase::Ask(action, expect, wrap) => {
                let next = recorded(q, action, expect);
                lemma_asks(next, tail, rest, local);
                assert forall|outcome: Outcome| #[trigger] suits(expect, outcome) implies always(
                    noted(next, expect, outcome),
                    opened(expect, outcome) + (tail + rest),
                    local,
                ) by {
                    assert(opened(expect, outcome) + (tail + rest) =~= tail + rest);
                }
                lemma_ask(q, action, expect, wrap, tail + rest, local);
                assert(head + rest =~= seq![head[0]] + (tail + rest));
            },
            _ => {},
        }
    }
}

/// A change does not touch the record.
proof fn lemma_change(q: Record, change: Change, rest: Seq<Phase>, local: bool)
    requires
        guards(change),
        always(q, rest, local),
    ensures
        always(q, seq![Phase::Apply(change)] + rest, local),
{
    let plan = seq![Phase::Apply(change)] + rest;
    assert(plan.drop_first() =~= rest);
    assert forall|n: nat| completes(n, q, plan, local) by {
        if n > 0 {
            assert(completes((n - 1) as nat, q, rest, local));
        }
    }
}

/// A plan that begins with a failure does not succeed.
proof fn lemma_fails(q: Record, plan: Seq<Phase>, local: bool)
    requires
        plan.len() > 0,
        plan[0] is Fail,
    ensures
        always(q, plan, local),
{
}

/// Bytes are sent after their length.
proof fn lemma_sent(q: Record, action: Action, command: Command, rest: Seq<Phase>, local: bool)
    requires
        action is EncodeConfig || action is EncodeSnapshot,
        command is Config || command is State,
        always(recorded(q, Action::SendRequest(command, 0), Expect::Done), rest, local),
    ensures
        always(
            q,
            seq![Phase::Ask(action, Expect::Length(command), Wrap::Never)] + rest,
            local,
        ),
{
    let expect = Expect::Length(command);
    let next = recorded(q, action, expect);
    assert(next.marks =~= q.marks);
    assert forall|outcome: Outcome| #[trigger] suits(expect, outcome) implies always(
        noted(next, expect, outcome),
        opened(expect, outcome) + rest,
        local,
    ) by {
        match outcome {
            Outcome::Number(length) => {
                let plan = length_plan(command, length);
                assert(plan.drop_first() =~= seq![ask(Action::SendPayload, Wrap::Socket)]);
                reveal_with_fuel(recorded_all, 3);
                assert(recorded_all(next, plan).marks =~= recorded(
                    q,
                    Action::SendRequest(command, 0),
                    Expect::Done,
                ).marks);
                assert(recorded_all(next, plan) == recorded(
                    q,
                    Action::SendRequest(command, 0),
                    Expect::Done,
                ));
                lemma_asks(next, plan, rest, local);
            },
            _ => {},
        }
    }
    lemma_ask(q, action, expect, Wrap::Never, rest, local);
}

/// The record once a table of memory has been sent, and the memory after it.
spec fn with_memory(q: Record) -> Record {
    Record {
        memory: q.memory + 1,
        placed: q.placed && memory_may_go(q.marks),
        paired: q.paired && !q.open,
        open: false,
        ..q
    }
}

/// A table of memory is sent.
proof fn lemma_table_sent(q: Record, length: u64)
    ensures
        all_simple(table_plan(length)),
        recorded_all(q, table_plan(length)) == with_memory(q),
{
    let plan = table_plan(length);
    let one = recorded(q, Action::SendRequest(Command::Memory, length), Expect::Done);
    let two = recorded(one, Action::SendTable, Expect::Done);
    let three = recorded(two, Action::SendRegions, Expect::Done);
    let four = recorded(three, Action::AwaitAnswer, Expect::Answer(Context::Memory));
    assert(one.marks =~= q.marks);
    assert(two.marks =~= q.marks);
    assert(three.marks =~= q.marks);
    assert(four.marks =~= q.marks);
    assert(four == with_memory(q));
    let rest = plan.drop_first();
    let more = rest.drop_first();
    let last = more.drop_first();
    assert(last.drop_first() =~= Seq::empty());
    assert(recorded_all(four, last.drop_first()) == four);
    assert(recorded_all(three, last) == four);
    assert(recorded_all(two, more) == four);
    assert(recorded_all(one, rest) == four);
}

/// The table of the memory is read.
proof fn lemma_table(q: Record, rest: Seq<Phase>, local: bool)
    requires
        always(with_memory(q), rest, local),
    ensures
        always(
            q,
            seq![Phase::Ask(Action::ReadMemoryTable, Expect::Table, Wrap::Migration)] + rest,
            local,
        ),
{
    let next = recorded(q, Action::ReadMemoryTable, Expect::Table);
    assert(next.marks =~= q.marks);
    assert(next == q);
    assert forall|outcome: Outcome| #[trigger] suits(Expect::Table, outcome) implies always(
        noted(next, Expect::Table, outcome),
        opened(Expect::Table, outcome) + rest,
        local,
    ) by {
        if let Outcome::Table(_, length) = outcome {
            lemma_table_sent(q, length);
            lemma_asks(q, table_plan(length), rest, local);
        }
    }
    lemma_ask(q, Action::ReadMemoryTable, Expect::Table, Wrap::Migration, rest, local);
}

/// What is on record while the machine runs and its memory is sent, with so
/// many passes at most to come.
spec fn passing(q: Record, passes: int) -> bool {
    &&& q.marks == first_marks(false)
    &&& q.placed
    &&& q.paired
    &&& !q.open
    &&& !q.paused
    &&& q.after == 0
    &&& q.before + passes <= MAX_DIRTY_MIGRATIONS
    &&& 1 <= q.memory <= 1 + q.before
    &&& !q.clean ==> q.memory == 1 + q.before && q.before + passes == MAX_DIRTY_MIGRATIONS
}

/// A pass of dirty memory while the machine runs.
proof fn lemma_pass(q: Record, passes: u8, rest: Seq<Phase>)
    requires
        passing(q, passes + 1),
        forall|r: Record| #[trigger] passing(r, 0) ==> always(r, rest, false),
    ensures
        always(q, seq![dirty_pass(passes)] + rest, false),
    decreases passes,
{
    let expect = Expect::Dirty(passes);
    let next = recorded(q, Action::ReadDirtyLog, expect);
    assert(next.marks =~= q.marks);
    assert forall|outcome: Outcome| #[trigger] suits(expect, outcome) implies always(
        noted(next, expect, outcome),
        opened(expect, outcome) + rest,
        false,
    ) by {
        if let Outcome::Table(regions, length) = outcome {
            let then = noted(next, expect, outcome);
            if regions == 0 {
                assert(opened(expect, outcome) + rest =~= rest);
                assert(passing(then, 0));
            } else {
                let sent = with_memory(then);
                lemma_table_sent(then, length);
                if passes > 0 {
                    let again = seq![dirty_pass((passes - 1) as u8)];
                    assert(passing(sent, passes as int));
                    lemma_pass(sent, (passes - 1) as u8, rest);
                    lemma_asks(then, table_plan(length), again + rest, false);
                    assert(opened(expect, outcome) + rest =~= table_plan(length) + (again + rest));
                } else {
                    assert(passing(sent, 0));
                    lemma_asks(then, table_plan(length), rest, false);
                    assert(opened(expect, outcome) + rest =~= table_plan(length) + rest);
                }
            }
        }
    }
    lemma_ask(q, Action::ReadDirtyLog, expect, Wrap::Migration, rest, false);
}

/// What is on record once all memory has been sent.
spec fn sent_all(q: Record, local: bool) -> bool {
    &&& q.marks == first_marks(local).push(Mark::Called(Action::PauseVm))
    &&& q.placed
    &&& q.paired
    &&& !q.open
    &&& local ==> q.memory == 0 && q.before == 0 && q.after == 0
    &&& !local ==> {
        &&& 1 <= q.memory <= MAX_DIRTY_MIGRATIONS + 2
        &&& q.before <= MAX_DIRTY_MIGRATIONS
        &&& q.after == 1
        &&& !q.clean ==> q.memory == MAX_DIRTY_MIGRATIONS + 2
    }
}

/// The machine is paused, and what was written meanwhile is sent.
proof fn lemma_last_pass(q: Record, rest: Seq<Phase>)
    requires
        passing(q, 0),
        forall|r: Record| #[trigger] sent_all(r, false) ==> always(r, rest, false),
    ensures
        always(
            q,
            seq![ask(Action::PauseVm, Wrap::Migration)] + (seq![dirty_pass(0)] + rest),
            false,
        ),
{
    let paused = recorded(q, Action::PauseVm, Expect::Done);
    assert(paused.marks =~= first_marks(false).push(Mark::Called(Action::PauseVm)));
    let expect = Expect::Dirty(0);
    let next = recorded(paused, Action::ReadDirtyLog, expect);
    assert(next.marks =~= paused.marks);
    assert forall|outcome: Outcome| #[trigger] suits(expect, outcome) implies always(
        noted(next, expect, outcome),
        opened(expect, outcome) + rest,
        false,
    ) by {
        if let Outcome::Table(regions, length) = outcome {
            let then = noted(next, expect, outcome);
            if regions == 0 {
                assert(opened(expect, outcome) + rest =~= rest);
                assert(sent_all(then, false));
            } else {
                lemma_table_sent(then, length);
                assert(sent_all(with_memory(then), false));
                lemma_asks(then, table_plan(length), rest, false);
                assert(opened(expect, outcome) + rest =~= table_plan(length) + rest);
            }
        }
    }
    lemma_ask(paused, Action::ReadDirtyLog, expect, Wrap::Migration, rest, false);
    let head = seq![ask(Action::PauseVm, Wrap::Migration)];
    assert(head.drop_first() =~= Seq::empty());
    reveal_with_fuel(recorded_all, 2);
    lemma_asks(q, head, seq![dirty_pass(0)] + rest, false);
}

/// The end of a transfer, and of the sending.
spec fn ending(local: bool) -> Seq<Phase> {
    log_stopped(local) + seq![ask(Action::CompleteMigration, Wrap::Migration)]
}

/// What follows the transfer.
spec fn leaving() -> Seq<Phase> {
    seq![
        Phase::Apply(Change::OnFailure(Recovery::Nothing)),
        ask(Action::SignalExit, Wrap::Send(Context::SignalExit)),
    ]
}

/// One more action, whose outcome leads to no more phases.
proof fn lemma_one(q: Record, action: Action, expect: Expect, wrap: Wrap, rest: Seq<Phase>, local: bool)
    requires
        simple(expect, wrap),
        always(recorded(q, action, expect), rest, local),
    ensures
        always(q, seq![Phase::Ask(action, expect, wrap)] + rest, local),
{
    let head = seq![Phase::Ask(action, expect, wrap)];
    assert(head.drop_first() =~= Seq::empty());
    reveal_with_fuel(recorded_all, 2);
    lemma_asks(q, head, rest, local);
}

/// What is on record once the peer has the machine's state.
spec fn handed_over(q: Record, local: bool) -> bool {
    &&& q.marks == first_marks(local) + seq![
        Mark::Called(Action::PauseVm),
        Mark::Called(Action::ReleaseDiskLocks),
        Mark::Called(Action::SnapshotVm),
        Mark::Sent(Command::State),
        Mark::Answered(Context::State),
        Mark::Sent(Command::Complete),
        Mark::Answered(Context::Complete),
    ]
    &&& sent_all(
        Record { marks: first_marks(local).push(Mark::Called(Action::PauseVm)), ..q },
        local,
    )
}

/// The last phases of a sending.
proof fn lemma_end(q: Record, local: bool)
    requires
        handed_over(q, local),
    ensures
        always(q, ending(local) + leaving(), local),
{
    let stopped = if local {
        q
    } else {
        recorded(q, Action::StopDirtyLog, Expect::Done)
    };
    let completed = recorded(stopped, Action::CompleteMigration, Expect::Done);
    let exited = recorded(completed, Action::SignalExit, Expect::Done);
    let none = Seq::<Phase>::empty();
    assert(exited.marks =~= all_marks(local));
    assert(complete_record(exited, local));
    assert(always(exited, none, local));
    let exit = seq![ask(Action::SignalExit, Wrap::Send(Context::SignalExit))];
    lemma_one(
        completed,
        Action::SignalExit,
        Expect::Done,
        Wrap::Send(Context::SignalExit),
        none,
        local,
    );
    assert(exit + none =~= exit);
    lemma_change(completed, Change::OnFailure(Recovery::Nothing), exit, local);
    assert(leaving() =~= seq![Phase::Apply(Change::OnFailure(Recovery::Nothing))] + exit);
    lemma_one(
        stopped,
        Action::CompleteMigration,
        Expect::Done,
        Wrap::Migration,
        leaving(),
        local,
    );
    let last = seq![ask(Action::CompleteMigration, Wrap::Migration)] + leaving();
    if local {
        assert(ending(local) + leaving() =~= last);
    } else {
        lemma_one(q, Action::StopDirtyLog, Expect::Done, Wrap::Migration, last, local);
        assert(ending(local) + leaving() =~= seq![ask(Action::StopDirtyLog, Wrap::Migration)]
            + last);
    }
}

/// The sending of the state, and what follows it.
proof fn lemma_state_sent(q: Record, local: bool)
    requires
        sent_all(q, local),
    ensures
        always(q, state_sent() + (ending(local) + leaving()), local),
{
    let rest = ending(local) + leaving();
    let released = recorded(q, Action::ReleaseDiskLocks, Expect::Done);
    let taken = recorded(released, Action::SnapshotVm, Expect::Done);
    let state = recorded(taken, Action::SendRequest(Command::State, 0), Expect::Done);
    let answered = recorded(state, Action::AwaitAnswer, Expect::Answer(Context::State));
    let complete = recorded(answered, Action::SendRequest(Command::Complete, 0), Expect::Done);
    let over = recorded(complete, Action::AwaitAnswer, Expect::Answer(Context::Complete));
    assert(over.marks =~= first_marks(local) + seq![
        Mark::Called(Action::PauseVm),
        Mark::Called(Action::ReleaseDiskLocks),
        Mark::Called(Action::SnapshotVm),
        Mark::Sent(Command::State),
        Mark::Answered(Context::State),
        Mark::Sent(Command::Complete),
        Mark::Answered(Context::Complete),
    ]);
    lemma_end(over, local);
    let one = seq![await_answer(Context::Complete)] + rest;
    lemma_one(
        complete,
        Action::AwaitAnswer,
        Expect::Answer(Context::Complete),
        Wrap::Migration,
        rest,
        local,
    );
    let two = seq![ask(Action::SendRequest(Command::Complete, 0), Wrap::Migration)] + one;
    lemma_one(
        answered,
        Action::SendRequest(Command::Complete, 0),
        Expect::Done,
        Wrap::Migration,
        one,
        local,
    );
    let three = seq![await_answer(Context::State)] + two;
    lemma_one(
        state,
        Action::AwaitAnswer,
        Expect::Answer(Context::State),
        Wrap::Migration,
        two,
        local,
    );
    let encode = Phase::Ask(Action::EncodeSnapshot, Expect::Length(Command::State), Wrap::Never);
    lemma_sent(taken, Action::EncodeSnapshot, Command::State, three, local);
    let four = seq![encode] + three;
    lemma_one(released, Action::SnapshotVm, Expect::Done, Wrap::Migration, four, local);
    let five = seq![ask(Action::SnapshotVm, Wrap::Migration)] + four;
    lemma_one(q, Action::ReleaseDiskLocks, Expect::Done, Wrap::Unlock, five, local);
    assert(state_sent() + rest =~= seq![ask(Action::ReleaseDiskLocks, Wrap::Unlock)] + five);
}

/// What is on record once the machine's migration has started.
spec fn prepared(q: Record, local: bool) -> bool {
    q == Record {
        marks: if local {
            first_marks(true)
        } else {
            first_marks(false).drop_last()
        },
        ..no_record()
    }
}

/// The machine is paused, with its memory sent, and handed over.
proof fn lemma_quiesced(q: Record, local: bool)
    requires
        prepared(q, local),
    ensures
        always(q, quiesce_plan(local) + (state_sent() + (ending(local) + leaving())), local),
{
    let rest = state_sent() + (ending(local) + leaving());
    if local {
        let paused = recorded(q, Action::PauseVm, Expect::Done);
        assert(paused.marks =~= first_marks(true).push(Mark::Called(Action::PauseVm)));
        lemma_state_sent(paused, true);
        lemma_one(q, Action::PauseVm, Expect::Done, Wrap::Migration, rest, true);
        assert(quiesce_plan(true) =~= seq![ask(Action::PauseVm, Wrap::Migration)]);
    } else {
        let logging = recorded(q, Action::StartDirtyLog, Expect::Done);
        assert(logging.marks =~= first_marks(false));
        assert forall|r: Record| #[trigger] sent_all(r, false) implies always(r, rest, false) by {
            lemma_state_sent(r, false);
        }
        let one = seq![ask(Action::PauseVm, Wrap::Migration)] + (seq![dirty_pass(0)] + rest);
        assert forall|r: Record| #[trigger] passing(r, 0) implies always(r, one, false) by {
            lemma_last_pass(r, rest);
        }
        let passes = (MAX_DIRTY_MIGRATIONS - 1) as u8;
        let sent = with_memory(logging);
        assert(passing(sent, passes + 1));
        lemma_pass(sent, passes, one);
        let two = seq![dirty_pass(passes)] + one;
        lemma_table(logging, two, false);
        let read = Phase::Ask(Action::ReadMemoryTable, Expect::Table, Wrap::Migration);
        let three = seq![read] + two;
        lemma_one(q, Action::StartDirtyLog, Expect::Done, Wrap::Migration, three, false);
        assert(quiesce_plan(false) + rest =~= seq![ask(Action::StartDirtyLog, Wrap::Migration)]
            + three);
    }
}

/// The configuration is sent, and all that follows it.
proof fn lemma_config_sent(q: Record, local: bool)
    requires
        q == (Record {
            marks: first_marks(local).take(
                if local {
                    3
                } else {
                    2
                },
            ),
            ..no_record()
        }),
    ensures
        always(
            q,
            config_sent() + (quiesce_plan(local) + (state_sent() + (ending(local) + leaving()))),
            local,
        ),
{
    let rest = quiesce_plan(local) + (state_sent() + (ending(local) + leaving()));
    let sent = recorded(q, Action::SendRequest(Command::Config, 0), Expect::Done);
    let answered = recorded(sent, Action::AwaitAnswer, Expect::Answer(Context::Config));
    let started = recorded(answered, Action::StartMigration, Expect::Done);
    if local {
        assert(started.marks =~= first_marks(true));
    } else {
        assert(started.marks =~= first_marks(false).drop_last());
    }
    assert(prepared(started, local));
    lemma_quiesced(started, local);
    let one = seq![ask(Action::StartMigration, Wrap::Migration)] + rest;
    lemma_one(answered, Action::StartMigration, Expect::Done, Wrap::Migration, rest, local);
    let two = seq![await_answer(Context::Config)] + one;
    lemma_one(
        sent,
        Action::AwaitAnswer,
        Expect::Answer(Context::Config),
        Wrap::Migration,
        one,
        local,
    );
    lemma_sent(q, Action::EncodeConfig, Command::Config, two, local);
    let encode = Phase::Ask(Action::EncodeConfig, Expect::Length(Command::Config), Wrap::Never);
    assert(config_sent() + rest =~= seq![encode] + two);
}

/// A transfer completes its record.
proof fn lemma_transfer_completes(
    build: Build,
    config: VmConfigView,
    endpoint: EndpointView,
    local: bool,
)
    ensures
        always(
            no_record(),
            transfer_plan(build, config, endpoint, local) + leaving(),
            local,
        ),
{
    let rest = config_sent() + (quiesce_plan(local) + (state_sent() + (ending(local)
        + leaving())));
    let cpuid = source_cpuid_plan(build, config);
    let descriptors = descriptors_plan(endpoint, local);
    let q = no_record();
    let connected = recorded(q, Action::Connect, Expect::Done);
    let sent = recorded(connected, Action::SendRequest(Command::Start, 0), Expect::Done);
    let opened = recorded(sent, Action::AwaitAnswer, Expect::Answer(Context::Start));
    let marks = seq![Mark::Sent(Command::Start), Mark::Answered(Context::Start)];
    assert(connected.marks =~= q.marks);
    assert(opened.marks =~= marks);
    assert(opened == Record { marks, ..no_record() });
    let with_files = descriptors + rest;
    if !local {
        assert(first_marks(false).take(2) =~= marks);
        lemma_config_sent(opened, false);
        assert(with_files =~= rest);
    } else if endpoint is Unix {
        let files = recorded(opened, Action::SendMemoryFds, Expect::Done);
        assert(files.marks =~= first_marks(true).take(3));
        lemma_config_sent(files, true);
        lemma_one(opened, Action::SendMemoryFds, Expect::Done, Wrap::Migration, rest, true);
        assert(with_files =~= seq![ask(Action::SendMemoryFds, Wrap::Migration)] + rest);
    } else {
        lemma_fails(opened, with_files, true);
    }
    let with_cpuid = cpuid + with_files;
    if cpuid.len() == 0 {
        assert(with_cpuid =~= with_files);
    } else if cpuid[0] is Fail {
        lemma_fails(opened, with_cpuid, local);
    } else if let Phase::Ask(action, expect, wrap) = cpuid[0] {
        let generated = recorded(opened, action, expect);
        assert(generated.marks =~= opened.marks);
        lemma_one(opened, action, expect, wrap, with_files, local);
        assert(with_cpuid =~= seq![cpuid[0]] + with_files);
    }
    let head = opening(endpoint);
    assert(recorded_all(q, head) == opened) by {
        assert(head.drop_first().drop_first().drop_first() =~= Seq::empty());
        reveal_with_fuel(recorded_all, 4);
    }
    lemma_asks(q, head, with_cpuid, local);
    assert(transfer_plan(build, config, endpoint, local) + leaving() =~= head + with_cpuid);
}

/// A phase of what follows a failed transfer.
spec fn cleans(phase: Phase) -> bool {
    ||| phase == ask(Action::StopDirtyLog, Wrap::Migration)
    ||| phase == Phase::Ask(Action::ReadState, Expect::Paused, Wrap::Never)
    ||| phase == ask(Action::ResumeVm, Wrap::Migration)
}

/// Phases of what follows a failed transfer.
spec fn all_clean(plan: Seq<Phase>) -> bool {
    forall|i: int| 0 <= i < plan.len() ==> cleans(#[trigger] plan[i])
}

/// A transfer has failed, and what follows that is under way.
spec fn cleaning(at: (Monitor, StepView), failure: Failure) -> bool {
    match at.1 {
        StepView::Perform(action) => {
            &&& at.0.pending == Some(failure)
            &&& all_clean(at.0.plan)
            &&& at.0.waiting matches Some(waiting)
            &&& cleans(Phase::Ask(action, waiting.expect, waiting.wrap))
        },
        StepView::Done(r) => r matches Err(e) && e == failure && at.0.waiting is None,
    }
}

/// What follows a failed transfer goes on as planned.
proof fn lemma_cleaning_settles(m: Monitor, failure: Failure)
    requires
        m.waiting is None,
        m.pending == Some(failure),
        all_clean(m.plan),
    ensures
        cleaning(settled(m), failure),
{
    if m.plan.len() > 0 {
        assert(cleans(m.plan[0]));
        let rest = m.plan.drop_first();
        assert forall|i: int| 0 <= i < rest.len() implies cleans(#[trigger] rest[i]) by {
            assert(rest[i] == m.plan[i + 1]);
        }
    }
}

/// A transfer that fails is cleaned up.
proof fn lemma_transfer_fails(m: Monitor, failure: Failure)
    requires
        m.waiting is None,
        m.pending is None,
        m.recovery is Nothing || m.recovery is AbortSend,
    ensures
        cleaning(settled(failed(m, failure)), failure),
{
    if let Recovery::AbortSend { local } = m.recovery {
        assert(all_clean(abort_plan(local)));
    }
    lemma_cleaning_settles(failed(m, failure), failure);
}

/// What follows a failed transfer, one outcome further. A failure of it ends
/// the request.
proof fn lemma_cleaning_step(at: (Monitor, StepView), failure: Failure, outcome: Outcome)
    requires
        cleaning(at, failure),
        fits(at.0, outcome),
    ensures
        match outcome {
            Outcome::Failed(fault) => cleaning(
                advanced(at.0, outcome),
                wrapped(at.0.waiting->0.wrap, fault),
            ) && advanced(at.0, outcome).1 is Done,
            _ => cleaning(advanced(at.0, outcome), failure),
        },
{
    let rest = Monitor { waiting: None, ..at.0 };
    let waiting = at.0.waiting->0;
    match outcome {
        Outcome::Failed(fault) => lemma_cleaning_settles(
            failed(rest, wrapped(waiting.wrap, fault)),
            wrapped(waiting.wrap, fault),
        ),
        _ => {
            let next = after(rest, waiting.expect, outcome);
            assert(all_clean(next.plan));
            lemma_cleaning_settles(next, failure);
        },
    }
}

/// Where a sending can be, with this on record.
spec fn sending_at(at: (Monitor, StepView), q: Record, local: bool) -> bool {
    match at.1 {
        StepView::Done(r) => at.0.waiting is None && (r is Ok ==> complete_record(q, local)),
        StepView::Perform(_) => match at.0.pending {
            Some(failure) => cleaning(at, failure),
            None => {
                &&& at.0.recovery is Nothing || at.0.recovery is AbortSend
                &&& at.0.waiting matches Some(waiting)
                &&& stage(waiting.expect, waiting.wrap)
                &&& forall|outcome: Outcome| #[trigger]
                    suits(waiting.expect, outcome) ==> always(
                        noted(q, waiting.expect, outcome),
                        opened(waiting.expect, outcome) + at.0.plan,
                        local,
                    )
            },
        },
    }
}

/// A plan that completes a record does so after its first action.
proof fn lemma_asked(q: Record, plan: Seq<Phase>, local: bool)
    requires
        always(q, plan, local),
        plan.len() > 0,
    ensures
        match plan[0] {
            Phase::Ask(action, expect, wrap) => stage(expect, wrap) && forall|outcome: Outcome|
                #[trigger] suits(expect, outcome) ==> always(
                    noted(recorded(q, action, expect), expect, outcome),
                    opened(expect, outcome) + plan.drop_first(),
                    local,
                ),
            Phase::Apply(change) => guards(change) && always(q, plan.drop_first(), local),
            Phase::Fail(_) => true,
        },
{
    assert(completes(1, q, plan, local));
    match plan[0] {
        Phase::Ask(action, expect, _) => {
            assert forall|outcome: Outcome| #[trigger] suits(expect, outcome) implies always(
                noted(recorded(q, action, expect), expect, outcome),
                opened(expect, outcome) + plan.drop_first(),
                local,
            ) by {
                assert forall|n: nat| completes(
                    n,
                    noted(recorded(q, action, expect), expect, outcome),
                    opened(expect, outcome) + plan.drop_first(),
                    local,
                ) by {
                    assert(completes(n + 1, q, plan, local));
                }
            }
        },
        Phase::Apply(_) => {
            assert forall|n: nat| completes(n, q, plan.drop_first(), local) by {
                assert(completes(n + 1, q, plan, local));
            }
        },
        Phase::Fail(_) => {},
    }
}

/// A sending goes on as planned.
proof fn lemma_sending_settles(m: Monitor, q: Record, local: bool)
    requires
        m.waiting is None,
        m.pending is None,
        m.recovery is Nothing || m.recovery is AbortSend,
        always(q, m.plan, local),
    ensures
        sending_at(settled(m), recorded_at(q, settled(m)), local),
    decreases m.plan.len(),
{
    if m.plan.len() == 0 {
        assert(completes(1, q, m.plan, local));
    } else {
        let rest = Monitor { plan: m.plan.drop_first(), ..m };
        lemma_asked(q, m.plan, local);
        match m.plan[0] {
            Phase::Ask(action, expect, wrap) => {
                assert(m.plan =~= seq![m.plan[0]] + rest.plan);
                lemma_next_ask(m, action, expect, wrap, rest.plan);
            },
            Phase::Apply(change) => lemma_sending_settles(applied(rest, change), q, local),
            Phase::Fail(failure) => lemma_transfer_fails(rest, failure),
        }
    }
}

/// A sending, one outcome further.
proof fn lemma_sending_step(at: (Monitor, StepView), q: Record, local: bool, outcome: Outcome)
    requires
        sending_at(at, q, local),
        fits(at.0, outcome),
    ensures
        ({
            let next = advanced(at.0, outcome);
            let noted_q = noted(q, at.0.waiting->0.expect, outcome);
            sending_at(next, recorded_at(noted_q, next), local)
        }),
{
    let rest = Monitor { waiting: None, ..at.0 };
    let waiting = at.0.waiting->0;
    match at.0.pending {
        Some(failure) => lemma_cleaning_step(at, failure, outcome),
        None => match outcome {
            Outcome::Failed(fault) => lemma_transfer_fails(rest, wrapped(waiting.wrap, fault)),
            Outcome::Refused => lemma_transfer_fails(
                rest,
                Failure::Migration(send_error(waiting.expect->Answer_0, None)),
            ),
            _ => {
                let next = after(rest, waiting.expect, outcome);
                assert(suits(waiting.expect, outcome));
                assert(next.plan =~= opened(waiting.expect, outcome) + rest.plan);
                lemma_sending_settles(next, noted(q, waiting.expect, outcome), local);
            },
        },
    }
}

/// The sending begins once it is known whether memory is shared.
proof fn lemma_sending_begins(m: Monitor, data: VmSendMigrationData, shared: bool)
    requires
        m.waiting is None,
        m.pending is None,
        m.recovery is Nothing,
        m.plan.len() == 0,
    ensures
        ({
            let next = settled(send_began(m, data, shared));
            sending_at(next, recorded_at(no_record(), next), data.local)
        }),
{
    reveal(send_began);
    let next = send_began(m, data, shared);
    let local = data.local;
    if !shared && local || m.vm is None || m.machine_config() is None {
        lemma_fails(no_record(), next.plan, local);
    } else {
        let config = m.machine_config()->0;
        let guard = Change::OnFailure(Recovery::AbortSend { local });
        match endpoint_of(data.destination_url@) {
            Some(endpoint) => {
                let transfer = transfer_plan(m.build, config, endpoint, local) + leaving();
                lemma_transfer_completes(m.build, config, endpoint, local);
                lemma_change(no_record(), guard, transfer, local);
                assert(next.plan =~= seq![Phase::Apply(guard)] + transfer);
            },
            None => {
                let fails = seq![
                    Phase::Fail(Failure::Migration(no_path_in(data.destination_url))),
                ];
                lemma_fails(no_record(), fails, local);
                lemma_change(no_record(), guard, fails, local);
                assert(next.plan =~= seq![Phase::Apply(guard)] + fails);
            },
        }
    }
    lemma_sending_settles(next, no_record(), local);
}

/// The host is asked whether memory is shared.
spec fn asks_shared(at: (Monitor, StepView), data: VmSendMigrationData) -> bool {
    &&& at.1 == StepView::Perform(Action::ReadSharedMemory)
    &&& at.0.pending is None
    &&& at.0.recovery is Nothing
    &&& at.0.plan.len() == 0
    &&& at.0.waiting == Some(Waiting { expect: Expect::SharedMemory(data), wrap: Wrap::Never })
}

/// A sending is somewhere on its way.
proof fn lemma_sending_record(m: Monitor, data: VmSendMigrationData, outcomes: Seq<Outcome>)
    requires
        possible(m, Request::Send(data), outcomes),
    ensures
        ({
            let at = course(m, Request::Send(data), outcomes);
            let q = record(m, Request::Send(data), outcomes);
            if outcomes.len() == 0 {
                asks_shared(at, data) && q == no_record()
            } else {
                sending_at(at, q, data.local)
            }
        }),
    decreases outcomes.len(),
{
    let request = Request::Send(data);
    if outcomes.len() == 0 {
        reveal(course);
        reveal(possible);
        let at = taken_up(m, request);
        assert(at.0.plan =~= Seq::empty());
        assert(record(m, request, outcomes).marks =~= Seq::empty());
    } else {
        let before = outcomes.drop_last();
        lemma_step(m, request, outcomes);
        lemma_sending_record(m, data, before);
        let at = course(m, request, before);
        if before.len() == 0 {
            if let Outcome::Flag(shared) = outcomes.last() {
                lemma_sending_begins(Monitor { waiting: None, ..at.0 }, data, shared);
            }
        } else {
            lemma_sending_step(at, record(m, request, before), data.local, outcomes.last());
        }
    }
}

/// A sending that succeeds has gone through all its stages in their order, and
/// through each once. Each request was sent after the answer to the last had
/// come. Memory was sent only where the migration is not local, once dirty
/// pages were logged and before the disk locks were released: in one request at
/// least and seven at most, and in seven where the dirty log was never empty.
/// The dirty log was read at most five times before the machine was paused,
/// and once after.
pub proof fn law_order_of_a_sending(
    m: Monitor,
    data: VmSendMigrationData,
    outcomes: Seq<Outcome>,
)
    requires
        possible(m, Request::Send(data), outcomes),
        course(m, Request::Send(data), outcomes).1 matches StepView::Done(Ok(_)),
    ensures
        complete_record(record(m, Request::Send(data), outcomes), data.local),
{
    lemma_sending_record(m, data, outcomes);
}

/// The failure that an outcome brings about in a transfer.
pub open spec fn failure_of(m: Monitor, outcome: Outcome) -> Failure {
    match outcome {
        Outcome::Failed(fault) => wrapped(m.waiting->0.wrap, fault),
        _ => Failure::Migration(send_error(m.waiting->0.expect->Answer_0, None)),
    }
}

/// Once a transfer has failed, what follows is under way.
proof fn lemma_after_failure(
    m: Monitor,
    data: VmSendMigrationData,
    outcomes: Seq<Outcome>,
    i: int,
    j: int,
)
    requires
        possible(m, Request::Send(data), outcomes),
        0 <= i < j <= outcomes.len(),
        outcomes[i] is Refused || outcomes[i] is Failed && course(
            m,
            Request::Send(data),
            outcomes.take(i),
        ).0.pending is None,
    ensures
        ({
            let at = course(m, Request::Send(data), outcomes.take(j));
            let failure = failure_of(
                course(m, Request::Send(data), outcomes.take(i)).0,
                outcomes[i],
            );
            &&& exists|f: Failure| cleaning(at, f)
            &&& (forall|k: int| i < k < j ==> !(#[trigger] outcomes[k] is Failed)) ==> cleaning(
                at,
                failure,
            )
        }),
    decreases j,
{
    let request = Request::Send(data);
    lemma_within(m, request, outcomes, j - 1);
    let before = course(m, request, outcomes.take(j - 1));
    if j - 1 == i {
        lemma_sending_record(m, data, outcomes.take(i));
        let failure = failure_of(before.0, outcomes[i]);
        if i > 0 {
            if let Some(pending) = before.0.pending {
                assert(cleaning(before, pending));
            }
        }
        lemma_transfer_fails(Monitor { waiting: None, ..before.0 }, failure);
        assert(cleaning(course(m, request, outcomes.take(j)), failure));
    } else {
        lemma_after_failure(m, data, outcomes, i, j - 1);
        let f = choose|f: Failure| cleaning(before, f);
        lemma_cleaning_step(before, f, outcomes[j - 1]);
        if forall|k: int| i < k < j ==> !(#[trigger] outcomes[k] is Failed) {
            let failure = failure_of(course(m, request, outcomes.take(i)).0, outcomes[i]);
            assert(!(outcomes[j - 1] is Failed));
            lemma_cleaning_step(before, failure, outcomes[j - 1]);
        }
    }
}

/// After a refusal of the peer, or a failure, nothing of a later stage of the
/// transfer is done: dirty pages are no longer logged, the machine's state is
/// looked up, and the machine is resumed, and that is all. In particular the
/// migration is not completed, and the monitor does not exit. The sending
/// fails, with that refusal or failure unless one of these fails too.
pub proof fn law_nothing_follows_a_refusal(
    m: Monitor,
    data: VmSendMigrationData,
    outcomes: Seq<Outcome>,
    i: int,
    j: int,
)
    requires
        possible(m, Request::Send(data), outcomes),
        0 <= i < j <= outcomes.len(),
        outcomes[i] is Refused || outcomes[i] is Failed && course(
            m,
            Request::Send(data),
            outcomes.take(i),
        ).0.pending is None,
    ensures
        match course(m, Request::Send(data), outcomes.take(j)).1 {
            StepView::Perform(action) => action is StopDirtyLog || action is ReadState
                || action is ResumeVm,
            StepView::Done(r) => r matches Err(e) && ((forall|k: int|
                i < k < j ==> !(#[trigger] outcomes[k] is Failed)) ==> e == failure_of(
                course(m, Request::Send(data), outcomes.take(i)).0,
                outcomes[i],
            )),
        },
{
    lemma_after_failure(m, data, outcomes, i, j);
}

} // verus!
