//! What a peer hears of a failure while its machine is taken in.

use vstd::prelude::*;
use crate::error::{Context, Failure};
use crate::features::Build;
use crate::lifecycle::{ask, events_plan};
use crate::migration::{answer, memory_plan, next_request, served, state_plan};
use crate::migration_laws::awaits_request;
use crate::model::{advanced, after, applied, failed, settled, Monitor};
use crate::plan::{
    wrapped, Action, Change, Command, Expect, Outcome, Phase, Recovery, ReplyView, StepView,
    VmSource, Wrap,
};
use crate::run::{lemma_failed_ends, lemma_next_ask};
use crate::session_actions::{
    goes_well, lemma_block, lemma_events_received, lemma_memory_orders, lemma_onward, lemma_over_from, lemma_state_list,
    lemma_state_orders, lemma_taking, may_follow, onward, state_orders, taking, upon,
};
use crate::trace::{
    expect_of, firm, lemma_failure_stays, lemma_first_failure, lemma_settled_pending, on_course,
    orders,
};

verus! {

/// What follows a failure of each thing that a plan asks for.
spec fn shields(plan: Seq<Phase>, recovery: Recovery) -> Seq<Recovery>
    decreases plan.len(),
{
    if plan.len() == 0 {
        Seq::empty()
    } else {
        match plan[0] {
            Phase::Ask(_, _, _) => seq![recovery] + shields(plan.drop_first(), recovery),
            Phase::Apply(Change::OnFailure(next)) => shields(plan.drop_first(), next),
            _ => shields(plan.drop_first(), recovery),
        }
    }
}

/// What follows the failures of a plan that begins with some phase.
proof fn lemma_shields_first(phase: Phase, rest: Seq<Phase>, recovery: Recovery)
    ensures
        shields(seq![phase] + rest, recovery) == (match phase {
            Phase::Ask(_, _, _) => seq![recovery] + shields(rest, recovery),
            Phase::Apply(Change::OnFailure(next)) => shields(rest, next),
            _ => shields(rest, recovery),
        }),
{
    assert((seq![phase] + rest).drop_first() =~= rest);
}

/// What follows the failures of a plan that begins with things to ask for.
proof fn lemma_shields_asks(asks: Seq<Phase>, rest: Seq<Phase>, recovery: Recovery)
    requires
        forall|i: int| 0 <= i < asks.len() ==> #[trigger] asks[i] is Ask,
    ensures
        shields(asks + rest, recovery) == Seq::new(asks.len(), |i: int| recovery) + shields(
            rest,
            recovery,
        ),
    decreases asks.len(),
{
    if asks.len() == 0 {
        assert(asks + rest =~= rest);
        assert(Seq::new(asks.len(), |i: int| recovery) + shields(rest, recovery) =~= shields(
            rest,
            recovery,
        ));
    } else {
        let tail = asks.drop_first();
        assert forall|i: int| 0 <= i < tail.len() implies #[trigger] tail[i] is Ask by {
            assert(tail[i] == asks[i + 1]);
        }
        lemma_shields_asks(tail, rest, recovery);
        assert((asks + rest).drop_first() =~= tail + rest);
        assert(asks[0] is Ask);
        assert(seq![recovery] + (Seq::new(tail.len(), |i: int| recovery) + shields(rest, recovery))
            =~= Seq::new(asks.len(), |i: int| recovery) + shields(rest, recovery));
    }
}

/// A monitor that has not failed has what follows a failure set for the first
/// that its plan asks for.
#[verifier::rlimit(30)]
proof fn lemma_settled_shields(m: Monitor)
    requires
        m.pending is None,
    ensures
        goes_well(settled(m)) ==> shields(m.plan, m.recovery) == seq![settled(m).0.recovery]
            + shields(settled(m).0.plan, settled(m).0.recovery),
    decreases m.plan.len(),
{
    if m.plan.len() > 0 {
        let rest = Monitor { plan: m.plan.drop_first(), ..m };
        match m.plan[0] {
            Phase::Ask(_, _, _) => {},
            Phase::Apply(change) => lemma_settled_shields(applied(rest, change)),
            Phase::Fail(failure) => lemma_settled_pending(failed(rest, failure)),
        }
    }
}

/// What follows a failure of what is asked for, in its turn.
#[verifier::rlimit(30)]
proof fn lemma_shielded(start: Monitor, all: Seq<(Action, Wrap)>, outcomes: Seq<Outcome>)
    requires
        firm(start.plan),
        all == orders(start.plan),
        start.pending is None,
        may_follow(settled(start), outcomes),
        outcomes.len() < all.len(),
        forall|i: int| 0 <= i < outcomes.len() ==> expect_of((#[trigger] all[i]).0) is Done,
    ensures
        goes_well(onward(settled(start), outcomes)) ==> {
            let at = onward(settled(start), outcomes).0;
            let kept = shields(start.plan, start.recovery);
            &&& outcomes.len() < kept.len()
            &&& at.recovery == kept[outcomes.len() as int]
            &&& shields(at.plan, at.recovery) == kept.skip(outcomes.len() as int + 1)
        },
    decreases outcomes.len(),
{
    let kept = shields(start.plan, start.recovery);
    let at = onward(settled(start), outcomes);
    lemma_onward(settled(start), outcomes);
    if outcomes.len() == 0 {
        lemma_settled_shields(start);
        assert(kept.skip(0) =~= kept);
        if goes_well(at) {
            lemma_skip(kept, 0, at.0.recovery, shields(at.0.plan, at.0.recovery));
        }
    } else {
        let so_far = outcomes.drop_last();
        let before = onward(settled(start), so_far);
        lemma_shielded(start, all, so_far);
        lemma_block(start, all, so_far);
        lemma_over_from(start, so_far);
        if before.0.pending is Some {
            lemma_failure_stays(before.0, outcomes.last());
        } else {
            reveal(on_course);
            assert(expect_of(all[so_far.len() as int].0) is Done);
            lemma_shielded_step(before.0, outcomes.last());
            if goes_well(at) {
                lemma_skip(
                    kept,
                    outcomes.len() as int,
                    at.0.recovery,
                    shields(at.0.plan, at.0.recovery),
                );
            }
        }
    }
}

/// What follows a failure, one outcome further.
proof fn lemma_shielded_step(before: Monitor, outcome: Outcome)
    requires
        before.pending is None,
        before.waiting matches Some(waiting) && waiting.expect is Done && waiting.wrap
            != Wrap::Ignore,
    ensures
        goes_well(advanced(before, outcome)) ==> shields(before.plan, before.recovery) == seq![
            advanced(before, outcome).0.recovery,
        ] + shields(
            advanced(before, outcome).0.plan,
            advanced(before, outcome).0.recovery,
        ),
{
    let rest = Monitor { waiting: None, ..before };
    match outcome {
        Outcome::Failed(fault) => lemma_settled_pending(
            failed(rest, wrapped(before.waiting->0.wrap, fault)),
        ),
        _ => {
            assert(after(rest, Expect::Done, outcome) == rest);
            lemma_settled_shields(rest);
        },
    }
}

/// The rest of a sequence without its first.
proof fn lemma_skip(all: Seq<Recovery>, n: int, first: Recovery, rest: Seq<Recovery>)
    requires
        0 <= n <= all.len(),
        all.skip(n) == seq![first] + rest,
    ensures
        n < all.len(),
        all[n] == first,
        rest == all.skip(n + 1),
{
    assert(all.skip(n).len() == 1 + rest.len());
    assert(all.skip(n)[0] == first);
    assert forall|i: int| 0 <= i < rest.len() implies rest[i] == all.skip(n + 1)[i] by {
        assert(all.skip(n)[i + 1] == rest[i]);
    }
    assert(rest =~= all.skip(n + 1));
}

/// What follows the failures in the taking in of a state.
#[verifier::rlimit(30)]
proof fn lemma_state_shields(build: Build, length: u64)
    ensures
        ({
            let plan = state_plan(build, length) + seq![next_request()];
            let kept = shields(plan, Recovery::Nothing);
            let n = orders(plan).len();
            &&& kept.len() == n
            &&& forall|i: int|
                0 <= i < n ==> #[trigger] kept[i] == if i == n - 3 {
                    Recovery::AnswerError
                } else {
                    Recovery::Nothing
                }
        }),
{
    let head = seq![
        ask(Action::ReadPayload(length), Wrap::Socket),
        ask(
            Action::DecodeSnapshot,
            Wrap::Receive(Context::DecodeSnapshot),
        ),
    ];
    let events = events_plan(build, true);
    let p0 = ask(
        Action::CreateVm(VmSource::Migration),
        Wrap::Receive(Context::CreateVm),
    );
    let p1 = Phase::Apply(Change::OnFailure(Recovery::AnswerError));
    let p2 = ask(Action::RestoreVm, Wrap::Receive(Context::RestoreVm));
    let p3 = Phase::Apply(Change::OnFailure(Recovery::Nothing));
    let p4 = Phase::Apply(Change::InstallVm);
    let p5 = answer(true);
    let end = seq![next_request()];
    let asks = head + events + seq![p0];
    let none = Recovery::Nothing;
    assert forall|i: int| 0 <= i < asks.len() implies #[trigger] asks[i] is Ask by {
        if 2 <= i < 2 + events.len() {
            assert(asks[i] == events[i - 2]);
            assert(events[i - 2] is Ask);
        }
    }
    let t5 = seq![p5] + end;
    let t4 = seq![p4] + t5;
    let t3 = seq![p3] + t4;
    let t2 = seq![p2] + t3;
    let t1 = seq![p1] + t2;
    let plan = state_plan(build, length) + end;
    assert(plan =~= asks + t1);
    lemma_shields_asks(asks, t1, none);
    lemma_shields_first(p1, t2, none);
    lemma_shields_first(p2, t3, Recovery::AnswerError);
    lemma_shields_first(p3, t4, Recovery::AnswerError);
    lemma_shields_first(p4, t5, none);
    lemma_shields_first(p5, end, none);
    assert(end =~= end + Seq::empty());
    lemma_shields_first(next_request(), Seq::empty(), none);
    assert(shields(Seq::empty(), none) =~= Seq::empty());
    lemma_state_orders(build, length);
    lemma_state_list(build, length);
    lemma_events_received(build);
    assert(shields(t1, none) =~= seq![Recovery::AnswerError, none, none]);
    assert(asks.len() + 3 == orders(plan).len());
}

/// A failure that the peer hears of: it is told no, and then the failure ends
/// the session, whether the peer has heard it or not.
#[verifier::rlimit(30)]
proof fn lemma_told(at: Monitor, fault: String, heard: Outcome)
    requires
        at.pending is None,
        at.recovery == Recovery::AnswerError,
        at.waiting matches Some(waiting) && waiting.wrap != Wrap::Ignore,
        heard is Done || heard is Failed,
    ensures
        ({
            let told = advanced(at, Outcome::Failed(fault));
            &&& told.1 == StepView::Perform(Action::Answer(false))
            &&& advanced(told.0, heard).1 == StepView::Done(
                Err::<ReplyView, Failure>(wrapped(at.waiting->0.wrap, fault)),
            )
        }),
{
    let failure = wrapped(at.waiting->0.wrap, fault);
    let end = failed(Monitor { waiting: None, ..at }, failure);
    let no = ask(Action::Answer(false), Wrap::Ignore);
    assert(end.plan =~= seq![no] + Seq::empty());
    lemma_next_ask(end, Action::Answer(false), Expect::Done, Wrap::Ignore, Seq::empty());
    let told = advanced(at, Outcome::Failed(fault)).0;
    let rest = Monitor { waiting: None, ..told };
    assert(after(rest, Expect::Done, heard) == rest);
}

/// A failure that the peer does not hear of.
proof fn lemma_untold(at: Monitor, fault: String)
    requires
        at.pending is None,
        at.recovery == Recovery::Nothing,
        at.waiting matches Some(waiting) && waiting.wrap != Wrap::Ignore,
    ensures
        advanced(at, Outcome::Failed(fault)).1 is Done,
{
    lemma_failed_ends(
        Monitor { waiting: None, ..at },
        wrapped(at.waiting->0.wrap, fault),
    );
}

/// Where a machine that the peer has sent cannot be brought to its state, the
/// peer is told so before the session ends with that failure. Any other failure
/// in the taking in of a state ends the session at once.
#[verifier::rlimit(30)]
pub proof fn law_failed_state_is_answered(
    m: Monitor,
    length: u64,
    outcomes: Seq<Outcome>,
    fault: String,
    heard: Outcome,
)
    requires
        awaits_request(m),
        m.pending is None,
        m.recovery == Recovery::Nothing,
        m.session.started,
        m.session.memory_manager,
        may_follow(upon(m, Command::State, length), outcomes),
        outcomes.len() < if m.build.features.guest_debug {
            10int
        } else {
            9
        },
        goes_well(onward(upon(m, Command::State, length), outcomes)),
        heard is Done || heard is Failed,
    ensures
        ({
            let at = onward(upon(m, Command::State, length), outcomes);
            let told = advanced(at.0, Outcome::Failed(fault));
            if at.1 == StepView::Perform(Action::RestoreVm) {
                &&& told.1 == StepView::Perform(Action::Answer(false))
                &&& advanced(told.0, heard).1 matches StepView::Done(Err(_))
            } else {
                told.1 matches StepView::Done(Err(_))
            }
        }),
{
    let start = taking(m, Command::State, length);
    let pairs = state_orders(m.build, length);
    lemma_taking(m, Command::State, length);
    lemma_taking_recovery(m, Command::State, length);
    lemma_state_orders(m.build, length);
    lemma_state_list(m.build, length);
    lemma_state_shields(m.build, length);
    lemma_block(start, pairs, outcomes);
    lemma_shielded(start, pairs, outcomes);
    let at = onward(upon(m, Command::State, length), outcomes).0;
    reveal(on_course);
    lemma_restore_place(m.build, length, outcomes.len() as int);
    if outcomes.len() == pairs.len() - 3 {
        lemma_told(at, fault, heard);
    } else {
        lemma_untold(at, fault);
        lemma_first_failure(at, fault);
    }
}

/// Where the state of the machine is restored.
proof fn lemma_restore_place(build: Build, length: u64, i: int)
    requires
        0 <= i < state_orders(build, length).len(),
    ensures
        state_orders(build, length)[i].0 == Action::RestoreVm <==> i == state_orders(
            build,
            length,
        ).len() - 3,
        state_orders(build, length)[i].1 != Wrap::Ignore,
{
    lemma_events_received(build);
}

/// A request that is taken leaves what follows a failure.
proof fn lemma_taking_recovery(m: Monitor, command: Command, length: u64)
    ensures
        taking(m, command, length).recovery == m.recovery,
{
    reveal(served);
}

/// What follows the failures in the taking in of memory.
proof fn lemma_memory_shields(length: u64)
    ensures
        shields(memory_plan(length) + seq![next_request()], Recovery::Nothing) == seq![
            Recovery::Nothing,
            Recovery::AnswerError,
            Recovery::Nothing,
            Recovery::Nothing,
        ],
{
    let none = Recovery::Nothing;
    let plan = memory_plan(length);
    let end = seq![next_request()];
    let t4 = seq![plan[4]] + end;
    let t3 = seq![plan[3]] + t4;
    let t2 = seq![plan[2]] + t3;
    let t1 = seq![plan[1]] + t2;
    assert(plan + end =~= seq![plan[0]] + t1);
    lemma_shields_first(plan[0], t1, none);
    lemma_shields_first(plan[1], t2, none);
    lemma_shields_first(plan[2], t3, Recovery::AnswerError);
    lemma_shields_first(plan[3], t4, Recovery::AnswerError);
    lemma_shields_first(plan[4], end, none);
    assert(end =~= end + Seq::empty());
    lemma_shields_first(next_request(), Seq::empty(), none);
    assert(shields(Seq::empty(), none) =~= Seq::empty());
    assert(shields(plan + end, none) =~= seq![none, Recovery::AnswerError, none, none]);
}

/// Where the memory that the peer sends cannot be read, the peer is told so
/// before the session ends with that failure. Any other failure in the taking
/// in of memory ends the session at once.
#[verifier::rlimit(30)]
pub proof fn law_failed_memory_is_answered(
    m: Monitor,
    length: u64,
    outcomes: Seq<Outcome>,
    fault: String,
    heard: Outcome,
)
    requires
        awaits_request(m),
        m.pending is None,
        m.recovery == Recovery::Nothing,
        m.session.started,
        m.session.memory_manager,
        may_follow(upon(m, Command::Memory, length), outcomes),
        outcomes.len() < 4,
        goes_well(onward(upon(m, Command::Memory, length), outcomes)),
        heard is Done || heard is Failed,
    ensures
        ({
            let at = onward(upon(m, Command::Memory, length), outcomes);
            let told = advanced(at.0, Outcome::Failed(fault));
            if at.1 == StepView::Perform(Action::ReceiveRegions) {
                &&& told.1 == StepView::Perform(Action::Answer(false))
                &&& advanced(told.0, heard).1 matches StepView::Done(Err(_))
            } else {
                told.1 matches StepView::Done(Err(_))
            }
        }),
{
    let start = taking(m, Command::Memory, length);
    let pairs = orders(memory_plan(length) + seq![next_request()]);
    lemma_taking(m, Command::Memory, length);
    lemma_taking_recovery(m, Command::Memory, length);
    lemma_memory_orders(length);
    lemma_memory_shields(length);
    lemma_block(start, pairs, outcomes);
    lemma_shielded(start, pairs, outcomes);
    let at = onward(upon(m, Command::Memory, length), outcomes).0;
    reveal(on_course);
    if outcomes.len() == 1 {
        lemma_told(at, fault, heard);
    } else {
        lemma_untold(at, fault);
        lemma_first_failure(at, fault);
    }
}

} // verus!
