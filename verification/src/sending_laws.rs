//! What holds of the sending of a machine, whatever the host and the peer say.

use vstd::prelude::*;
use crate::config::VmConfigView;
use crate::endpoint::{endpoint_of, no_path_in, EndpointView};
use crate::error::{Context, Failure};
use crate::features::Build;
use crate::lifecycle::ask;
use crate::migration::{
    abort_plan, at_endpoint, descriptors_plan, dirty_pass, dirty_plan, fail_send, length_plan, paused_plan, quiesce_plan,
    send_began, send_plan, source_cpuid_plan, table_plan, transfer_plan, MAX_DIRTY_MIGRATIONS,
};
use crate::migration_laws::{
    all_are, config_sent, lemma_all_are, lemma_transfer, log_stopped, opening, state_sent,
};
use crate::model::{
    advanced, after, applied, failed, fits, settled, Monitor, Waiting,
};
use crate::plan::{
    send_error, wrapped, Action, Change, Expect, Outcome, Phase, Recovery, StepView,
    VmSendMigrationData, VmState, Wrap,
};
use crate::run::{course, lemma_next_ask, lemma_step, possible, taken_up, Request};

verus! {

/// What an outcome can be for in the transfer of a machine.
pub open spec fn in_transfer(expect: Expect) -> bool {
    expect is Done || expect is Answer || expect is Length || expect is Table || expect is Dirty
        || expect is Paused
}

/// A phase of the transfer of a machine. None of them changes the monitor.
pub open spec fn hands_off(phase: Phase) -> bool {
    match phase {
        Phase::Ask(action, expect, _) => in_transfer(expect) && (action is ReadDirtyLog
            <==> expect is Dirty),
        Phase::Apply(change) => change matches Change::OnFailure(recovery) && (recovery is Nothing
            || recovery is AbortSend),
        Phase::Fail(_) => true,
    }
}

/// The phases of the transfer of a machine.
pub open spec fn all_hands_off(plan: Seq<Phase>) -> bool {
    all_are(plan, |phase: Phase| hands_off(phase))
}

/// How often a phase may still lead to the reading of the dirty log.
pub open spec fn readings_of(phase: Phase) -> nat {
    match phase {
        Phase::Ask(_, Expect::Dirty(passes), _) => passes as nat + 1,
        _ => 0,
    }
}

/// How often a plan may still lead to the reading of the dirty log.
pub open spec fn readings(plan: Seq<Phase>) -> nat
    decreases plan.len(),
{
    if plan.len() == 0 {
        0
    } else {
        readings_of(plan[0]) + readings(plan.drop_first())
    }
}

/// How often the dirty log may still be read, besides the reading that is
/// awaited.
pub open spec fn readings_left(m: Monitor) -> nat {
    readings(m.plan) + match m.waiting {
        Some(Waiting { expect: Expect::Dirty(passes), .. }) => passes as nat,
        _ => 0,
    }
}

/// The readings of two plans, one after the other.
proof fn lemma_readings(head: Seq<Phase>, tail: Seq<Phase>)
    ensures
        readings(head + tail) == readings(head) + readings(tail),
    decreases head.len(),
{
    if head.len() == 0 {
        assert(head + tail =~= tail);
    } else {
        assert((head + tail).drop_first() =~= head.drop_first() + tail);
        assert((head + tail)[0] == head[0]);
        lemma_readings(head.drop_first(), tail);
    }
}

/// Where nothing leads to it, the dirty log is not read.
proof fn lemma_no_readings(plan: Seq<Phase>)
    requires
        all_are(plan, |phase: Phase| readings_of(phase) == 0),
    ensures
        readings(plan) == 0,
    decreases plan.len(),
{
    if plan.len() > 0 {
        let kind = |phase: Phase| readings_of(phase) == 0;
        let rest = plan.drop_first();
        assert(kind(plan[0]));
        assert forall|i: int| 0 <= i < rest.len() implies kind(#[trigger] rest[i]) by {
            assert(rest[i] == plan[i + 1]);
            assert(kind(plan[i + 1]));
        }
        lemma_no_readings(rest);
    }
}

/// What the monitor is in a transfer: as it was, but for the request.
pub open spec fn transferring(before: Monitor, m: Monitor) -> bool {
    &&& m.at_rest() == before
    &&& m.recovery is Nothing || m.recovery is AbortSend
    &&& all_hands_off(m.plan)
    &&& m.waiting matches Some(waiting) ==> in_transfer(waiting.expect)
}

/// What follows a failure of a transfer changes nothing of the monitor.
proof fn lemma_recovery(before: Monitor, m: Monitor, failure: Failure)
    requires
        transferring(before, m),
    ensures
        transferring(before, failed(m, failure)),
        readings(failed(m, failure).plan) == 0,
{
    if let Recovery::AbortSend { local } = m.recovery {
        assert(all_hands_off(abort_plan(local)));
        lemma_no_readings(abort_plan(local));
    }
}

/// A transfer goes on as it is.
proof fn lemma_settled(before: Monitor, m: Monitor)
    requires
        transferring(before, m),
        m.waiting is None,
    ensures
        transferring(before, settled(m).0),
        readings_left(settled(m).0) + reading_now(settled(m).1) <= readings(m.plan),
    decreases
            (if m.pending is None {
                1nat
            } else {
                0nat
            }),
            m.plan.len(),
{
    if m.plan.len() > 0 {
        let kind = |phase: Phase| hands_off(phase);
        let rest = Monitor { plan: m.plan.drop_first(), ..m };
        assert(kind(m.plan[0]));
        assert forall|i: int| 0 <= i < rest.plan.len() implies kind(#[trigger] rest.plan[i]) by {
            assert(rest.plan[i] == m.plan[i + 1]);
            assert(kind(m.plan[i + 1]));
        }
        match m.plan[0] {
            Phase::Ask(_, _, _) => {},
            Phase::Apply(change) => lemma_settled(before, applied(rest, change)),
            Phase::Fail(failure) => {
                lemma_recovery(before, rest, failure);
                lemma_settled(before, failed(rest, failure));
            },
        }
    }
}

/// One, where the dirty log is to be read now.
pub open spec fn reading_now(step: StepView) -> nat {
    if step == StepView::Perform(Action::ReadDirtyLog) {
        1
    } else {
        0
    }
}

/// Phases that are put before the others in a transfer.
proof fn lemma_then_do(before: Monitor, m: Monitor, phases: Seq<Phase>)
    requires
        transferring(before, m),
        all_hands_off(phases),
    ensures
        transferring(before, m.then_do(phases)),
        readings(m.then_do(phases).plan) == readings(phases) + readings(m.plan),
{
    lemma_all_are(phases, m.plan, |phase: Phase| hands_off(phase));
    lemma_readings(phases, m.plan);
}

/// The plans that a transfer comes upon on its way.
proof fn lemma_on_the_way(length: u64, passes: u8, regions: u64)
    ensures
        all_hands_off(table_plan(length)),
        readings(table_plan(length)) == 0,
        all_hands_off(dirty_plan(passes, regions, length)),
        readings(dirty_plan(passes, regions, length)) <= passes,
{
    let table = table_plan(length);
    assert(all_hands_off(table));
    lemma_no_readings(table);
    if regions != 0 {
        if passes > 0 {
            let next = seq![dirty_pass((passes - 1) as u8)];
            assert(all_hands_off(next));
            lemma_all_are(table, next, |phase: Phase| hands_off(phase));
            lemma_readings(table, next);
            reveal_with_fuel(readings, 2);
        } else {
            assert(dirty_plan(passes, regions, length) =~= table);
        }
    }
}

/// An outcome leaves a transfer as it is.
proof fn lemma_after(before: Monitor, m: Monitor, expect: Expect, outcome: Outcome)
    requires
        transferring(before, m),
        m.waiting is None,
        in_transfer(expect),
    ensures
        transferring(before, after(m, expect, outcome)),
        after(m, expect, outcome).waiting is None,
        readings(after(m, expect, outcome).plan) <= readings(m.plan) + match expect {
            Expect::Dirty(passes) => passes as nat,
            _ => 0,
        },
{
    match (expect, outcome) {
        (Expect::Answer(context), Outcome::Refused) => lemma_recovery(
            before,
            m,
            Failure::Migration(send_error(context, None)),
        ),
        (Expect::Length(command), Outcome::Number(length)) => {
            let plan = length_plan(command, length);
            assert(all_hands_off(plan));
            lemma_no_readings(plan);
            lemma_then_do(before, m, plan);
        },
        (Expect::Table, Outcome::Table(_, length)) => {
            lemma_on_the_way(length, 0, 0);
            lemma_then_do(before, m, table_plan(length));
        },
        (Expect::Dirty(passes), Outcome::Table(regions, length)) => {
            lemma_on_the_way(length, passes, regions);
            lemma_then_do(before, m, dirty_plan(passes, regions, length));
        },
        (Expect::Paused, Outcome::State(state)) => {
            let plan = paused_plan(state);
            assert(all_hands_off(plan));
            lemma_no_readings(plan);
            lemma_then_do(before, m, plan);
        },
        _ => {},
    }
}

/// A transfer, one outcome further.
proof fn lemma_advanced(before: Monitor, m: Monitor, outcome: Outcome)
    requires
        transferring(before, m),
        fits(m, outcome),
    ensures
        transferring(before, advanced(m, outcome).0),
        readings_left(advanced(m, outcome).0) + reading_now(advanced(m, outcome).1)
            <= readings_left(m),
{
    let waiting = m.waiting->0;
    let rest = Monitor { waiting: None, ..m };
    match outcome {
        Outcome::Failed(fault) => {
            if waiting.wrap == Wrap::Ignore {
                lemma_settled(before, rest);
            } else {
                lemma_recovery(before, rest, wrapped(waiting.wrap, fault));
                lemma_settled(before, failed(rest, wrapped(waiting.wrap, fault)));
            }
        },
        _ => {
            lemma_after(before, rest, waiting.expect, outcome);
            lemma_settled(before, after(rest, waiting.expect, outcome));
        },
    }
}

/// The readings of a transfer.
proof fn lemma_transfer_readings(
    build: Build,
    config: VmConfigView,
    endpoint: EndpointView,
    local: bool,
)
    ensures
        all_hands_off(transfer_plan(build, config, endpoint, local)),
        readings(transfer_plan(build, config, endpoint, local)) <= MAX_DIRTY_MIGRATIONS + 1,
{
    let kind = |phase: Phase| readings_of(phase) == 0;
    let quiesce = quiesce_plan(local);
    let cpuid = source_cpuid_plan(build, config);
    let descriptors = descriptors_plan(endpoint, local);
    let prepared = opening(endpoint) + cpuid + descriptors + config_sent();
    let end = seq![ask(Action::CompleteMigration, Wrap::Migration)];
    lemma_transfer(build, config, endpoint, local, |phase: Phase| hands_off(phase));
    lemma_all_are(opening(endpoint), cpuid, kind);
    lemma_all_are(opening(endpoint) + cpuid, descriptors, kind);
    lemma_all_are(opening(endpoint) + cpuid + descriptors, config_sent(), kind);
    lemma_no_readings(prepared);
    assert(readings(quiesce) <= MAX_DIRTY_MIGRATIONS + 1) by {
        reveal_with_fuel(readings, 6);
    }
    lemma_no_readings(state_sent());
    lemma_no_readings(log_stopped(local));
    lemma_no_readings(end);
    lemma_readings(prepared, quiesce);
    lemma_readings(prepared + quiesce, state_sent());
    lemma_readings(prepared + quiesce + state_sent(), log_stopped(local));
    lemma_readings(prepared + quiesce + state_sent() + log_stopped(local), end);
}

/// The readings of a sending.
proof fn lemma_send_readings(build: Build, config: VmConfigView, data: VmSendMigrationData)
    ensures
        all_hands_off(send_plan(build, config, data)),
        readings(send_plan(build, config, data)) <= MAX_DIRTY_MIGRATIONS + 1,
{
    let kind = |phase: Phase| hands_off(phase);
    let first = seq![Phase::Apply(Change::OnFailure(Recovery::AbortSend { local: data.local }))];
    lemma_no_readings(first);
    match endpoint_of(data.destination_url@) {
        Some(endpoint) => {
            let transfer = transfer_plan(build, config, endpoint, data.local);
            let last = seq![
                Phase::Apply(Change::OnFailure(Recovery::Nothing)),
                ask(Action::SignalExit, Wrap::Send(Context::SignalExit)),
            ];
            lemma_transfer_readings(build, config, endpoint, data.local);
            lemma_no_readings(last);
            lemma_all_are(transfer, last, kind);
            lemma_all_are(first, transfer + last, kind);
            lemma_readings(transfer, last);
            lemma_readings(first, transfer + last);
        },
        None => {
            let fails = seq![
                Phase::Fail(Failure::Migration(no_path_in(data.destination_url))),
            ];
            lemma_no_readings(fails);
            lemma_all_are(first, fails, kind);
            lemma_readings(first, fails);
        },
    }
}

/// A sending that fails before it begins.
proof fn lemma_not_begun(before: Monitor, m: Monitor, context: Context)
    requires
        transferring(before, m),
        m.plan.len() == 0,
    ensures
        transferring(before, m.then_do(seq![fail_send(context)])),
        readings(m.then_do(seq![fail_send(context)]).plan) == 0,
{
    let plan = seq![fail_send(context)];
    lemma_no_readings(plan);
    assert(all_hands_off(plan));
    assert(plan + m.plan =~= plan);
}

/// The beginning of a sending, once it is known whether memory is shared.
proof fn lemma_began(before: Monitor, m: Monitor, data: VmSendMigrationData, shared: bool)
    requires
        transferring(before, m),
        m.waiting is None,
        m.plan.len() == 0,
    ensures
        transferring(before, send_began(m, data, shared)),
        send_began(m, data, shared).waiting is None,
        readings(send_began(m, data, shared).plan) <= MAX_DIRTY_MIGRATIONS + 1,
{
    reveal(send_began);
    if !shared && data.local {
        lemma_not_begun(before, m, Context::LocalNeedsSharedMemory);
    } else if m.vm is None || m.machine_config() is None {
        lemma_not_begun(before, m, Context::NotRunning);
    } else {
        let config = m.machine_config()->0;
        let plan = send_plan(m.build, config, data);
        lemma_send_readings(m.build, config, data);
        lemma_then_do(before, m, plan);
        let begun = at_endpoint(m, data.destination_url@).then_do(plan);
        assert(begun.at_rest() == m.at_rest());
        assert(begun.plan == m.then_do(plan).plan);
    }
}

/// The host is asked whether memory is shared.
spec fn asking_shared(before: Monitor, at: (Monitor, StepView), data: VmSendMigrationData) -> bool {
    &&& at.1 == StepView::Perform(Action::ReadSharedMemory)
    &&& at.0.at_rest() == before
    &&& at.0.recovery is Nothing
    &&& at.0.plan.len() == 0
    &&& at.0.waiting == Some(Waiting { expect: Expect::SharedMemory(data), wrap: Wrap::Never })
}

/// How often the dirty log has been asked for in a request.
pub open spec fn readings_done(m: Monitor, request: Request, outcomes: Seq<Outcome>) -> nat
    decreases outcomes.len(),
{
    reading_now(course(m, request, outcomes).1) + if outcomes.len() == 0 {
        0
    } else {
        readings_done(m, request, outcomes.drop_last())
    }
}

/// A sending is somewhere on its way.
proof fn lemma_sending(m: Monitor, data: VmSendMigrationData, outcomes: Seq<Outcome>)
    requires
        possible(m, Request::Send(data), outcomes),
    ensures
        ({
            let at = course(m, Request::Send(data), outcomes);
            ||| asking_shared(m, at, data) && outcomes.len() == 0
            ||| transferring(m, at.0) && readings_done(m, Request::Send(data), outcomes)
                + readings_left(at.0) <= MAX_DIRTY_MIGRATIONS + 1
        }),
    decreases outcomes.len(),
{
    let request = Request::Send(data);
    if outcomes.len() == 0 {
        reveal(course);
        reveal(possible);
        let at = taken_up(m, request);
        assert(at.0.plan =~= Seq::empty());
    } else {
        let earlier = outcomes.drop_last();
        lemma_step(m, request, outcomes);
        lemma_sending(m, data, earlier);
        let at = course(m, request, earlier);
        if asking_shared(m, at, data) && earlier.len() == 0 {
            let rest = Monitor { waiting: None, ..at.0 };
            if let Outcome::Flag(shared) = outcomes.last() {
                assert(all_hands_off(rest.plan));
                lemma_began(m, rest, data, shared);
                lemma_settled(m, send_began(rest, data, shared));
                assert(readings_done(m, request, earlier) == 0);
            }
        } else {
            lemma_advanced(m, at.0, outcomes.last());
        }
    }
}

/// The sending of a machine changes nothing of the monitor, whether it
/// succeeds or fails, and whatever the host and the peer say: neither its
/// machine nor its configuration, its console devices or its announcements.
pub proof fn law_sending_changes_nothing(
    m: Monitor,
    data: VmSendMigrationData,
    outcomes: Seq<Outcome>,
)
    requires
        possible(m, Request::Send(data), outcomes),
    ensures
        course(m, Request::Send(data), outcomes).0.at_rest() == m,
{
    lemma_sending(m, data, outcomes);
}

/// The dirty log is read a bounded number of times in a sending: in at most so
/// many passes while the machine runs, and once after it is paused.
pub proof fn law_dirty_passes_are_bounded(
    m: Monitor,
    data: VmSendMigrationData,
    outcomes: Seq<Outcome>,
)
    requires
        possible(m, Request::Send(data), outcomes),
    ensures
        readings_done(m, Request::Send(data), outcomes) <= MAX_DIRTY_MIGRATIONS + 1,
{
    lemma_sending(m, data, outcomes);
}

/// A failure in the transfer, or a refusal of the peer, is followed by the end
/// of the dirty log, unless the migration is local, and by a look at whether
/// the machine is paused. The failure is reported in the end.
pub proof fn law_failed_transfer(m: Monitor, outcome: Outcome, local: bool)
    requires
        m.recovery == (Recovery::AbortSend { local }),
        m.pending is None,
        fits(m, outcome),
        m.waiting matches Some(waiting) && match outcome {
            Outcome::Failed(_) => waiting.wrap != Wrap::Ignore,
            Outcome::Refused => true,
            _ => false,
        },
    ensures
        advanced(m, outcome).1 == StepView::Perform(
            if local {
                Action::ReadState
            } else {
                Action::StopDirtyLog
            },
        ),
        advanced(m, outcome).0.pending == Some(
            match outcome {
                Outcome::Failed(fault) => wrapped(m.waiting->0.wrap, fault),
                _ => Failure::Migration(
                    send_error(m.waiting->0.expect->Answer_0, None),
                ),
            },
        ),
        advanced(m, outcome).0.plan == abort_plan(local).skip(1),
{
    let rest = Monitor { waiting: None, ..m };
    let failure = match outcome {
        Outcome::Failed(fault) => wrapped(m.waiting->0.wrap, fault),
        _ => Failure::Migration(send_error(m.waiting->0.expect->Answer_0, None)),
    };
    let f = failed(rest, failure);
    assert(f.plan == abort_plan(local));
    assert(f.plan.drop_first() =~= abort_plan(local).skip(1));
    assert(advanced(m, outcome) == settled(f));
}

/// A machine that is found paused after a failed transfer is resumed, and one
/// that is not is left alone. Then the failure is reported.
pub proof fn law_paused_machine_is_resumed(m: Monitor, state: VmState, failure: Failure)
    requires
        m.plan.len() == 0,
        m.pending == Some(failure),
        m.waiting == Some(Waiting { expect: Expect::Paused, wrap: Wrap::Never }),
    ensures
        state == VmState::Paused ==> {
            let resuming = advanced(m, Outcome::State(state));
            &&& resuming.1 == StepView::Perform(Action::ResumeVm)
            &&& advanced(resuming.0, Outcome::Done) == (
                m.at_rest(),
                StepView::Done(Err(failure)),
            )
        },
        state != VmState::Paused ==> advanced(m, Outcome::State(state)) == (
            m.at_rest(),
            StepView::Done(Err(failure)),
        ),
{
    let rest = Monitor { waiting: None, ..m };
    let next = after(rest, Expect::Paused, Outcome::State(state));
    if state == VmState::Paused {
        assert(next.plan =~= seq![ask(Action::ResumeVm, Wrap::Migration)] + Seq::empty());
        lemma_next_ask(next, Action::ResumeVm, Expect::Done, Wrap::Migration, Seq::empty());
    } else {
        assert(next.plan =~= Seq::empty());
    }
}

} // verus!
