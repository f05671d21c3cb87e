//! What holds of the taking in of a machine: what the monitor has once the
//! peer's requests have been served.

use vstd::prelude::*;
use crate::config::{VmConfig, VmConfigView};
use crate::endpoint::EndpointView;
use crate::error::{Context, Failure};
use crate::features::Build;
use crate::lifecycle::{ask, console_plan, cpuid_plan, events_plan, landlock_plan};
use crate::migration::{
    answer, memory_plan, migrated_plan, next_request, served, session_after, state_plan, takes,
    topology_plan, MAX_XAPIC_ID,
};
use crate::migration_laws::awaits_request;
use crate::model::{advanced, after, applied, failed, fits, settled, Monitor, SessionView, Waiting};
use crate::plan::{
    wrapped, Action, Change, Command, Expect, Outcome, Phase, Recovery, StepView, VmSource, Wrap,
};
use crate::run::{can_come, continued, lemma_failed_ends, lemma_next_ask};
use crate::straight::{changed, lemma_applied_any_plan, lemma_changed_chain, lemma_changed_none};

verus! {

/// A phase on the way through a request of the peer. A failure of it is
/// answered at most.
spec fn plain(phase: Phase) -> bool {
    match phase {
        Phase::Ask(_, expect, wrap) => (expect is Done || expect is ApicId) && wrap != Wrap::Ignore,
        Phase::Apply(Change::OnFailure(recovery)) => recovery is Nothing || recovery is AnswerError,
        _ => true,
    }
}

/// Phases on the way through a request of the peer.
spec fn all_plain(plan: Seq<Phase>) -> bool {
    forall|i: int| 0 <= i < plan.len() ==> plain(#[trigger] plan[i])
}

/// Whether a plan changes nothing by itself.
spec fn no_change(plan: Seq<Phase>) -> bool {
    forall|i: int| 0 <= i < plan.len() ==> !(#[trigger] plan[i] is Apply)
}

/// Whether the monitor can take up a plan: nothing has failed, and a failure
/// is answered at most.
spec fn fresh(m: Monitor) -> bool {
    &&& m.pending is None
    &&& m.waiting is None
    &&& m.recovery is Nothing || m.recovery is AnswerError
}

/// The monitor with a plan to come, and the peer's next request after it.
pub open spec fn before_request(m: Monitor, plan: Seq<Phase>) -> Monitor {
    Monitor { plan: plan + seq![next_request()], ..m }
}

/// Whether the monitor has been through `k` phases of a plan, and awaits the
/// outcome of the last.
spec fn on_way(m: Monitor, plan: Seq<Phase>, k: int, at: (Monitor, StepView)) -> bool {
    &&& 0 <= k <= plan.len()
    &&& at.1 is Perform
    &&& at.0.waiting matches Some(waiting)
    &&& waiting.expect is Done || waiting.expect is ApicId
    &&& waiting.wrap != Wrap::Ignore
    &&& at.0 == Monitor {
        waiting: at.0.waiting,
        ..before_request(changed(m, plan, k), plan.skip(k))
    }
}

/// The monitor once it has been through a plan, and awaits the peer's next
/// request.
spec fn arrived(m: Monitor, plan: Seq<Phase>) -> Monitor {
    Monitor {
        plan: Seq::empty(),
        waiting: Some(Waiting { expect: Expect::Request, wrap: Wrap::Migration }),
        ..changed(m, plan, plan.len() as int)
    }
}

/// Whether the request has failed, and will read no other of the peer's.
spec fn lost(at: (Monitor, StepView)) -> bool {
    match at.1 {
        StepView::Perform(_) => {
            &&& at.0.pending is Some
            &&& at.0.plan.len() == 0
            &&& at.0.waiting == Some(Waiting { expect: Expect::Done, wrap: Wrap::Ignore })
        },
        StepView::Done(r) => r is Err && at.0.waiting is None,
    }
}

/// Where the monitor can be on its way through a plan.
spec fn under_way(m: Monitor, plan: Seq<Phase>, at: (Monitor, StepView)) -> bool {
    ||| exists|k: int| on_way(m, plan, k, at)
    ||| at.0 == arrived(m, plan) && at.1 is Perform
    ||| lost(at)
}

/// The changes of a plan leave the monitor fresh.
proof fn lemma_stays_fresh(m: Monitor, plan: Seq<Phase>, k: int)
    requires
        all_plain(plan),
        fresh(m),
        k <= plan.len(),
    ensures
        fresh(changed(m, plan, k)),
    decreases k,
{
    reveal_with_fuel(changed, 1);
    if k > 0 {
        lemma_stays_fresh(m, plan, k - 1);
        assert(plain(plan[k - 1]));
    }
}

/// A failure ends the request, after an answer at most.
proof fn lemma_lost(m: Monitor, failure: Failure)
    requires
        fresh(m),
    ensures
        lost(settled(failed(m, failure))),
{
    let f = failed(m, failure);
    if m.recovery is AnswerError {
        assert(f.plan =~= seq![ask(Action::Answer(false), Wrap::Ignore)] + Seq::empty());
        lemma_next_ask(f, Action::Answer(false), Expect::Done, Wrap::Ignore, Seq::empty());
    } else {
        lemma_failed_ends(m, failure);
    }
}

/// The monitor goes on from phase `k` of a plan.
proof fn lemma_on_from(m: Monitor, plan: Seq<Phase>, k: int)
    requires
        all_plain(plan),
        fresh(m),
        0 <= k <= plan.len(),
    ensures
        under_way(m, plan, settled(before_request(changed(m, plan, k), plan.skip(k)))),
    decreases plan.len() - k,
{
    let now = before_request(changed(m, plan, k), plan.skip(k));
    lemma_stays_fresh(m, plan, k);
    if k == plan.len() {
        assert(now.plan =~= seq![next_request()] + Seq::empty());
        lemma_next_ask(now, Action::ReadRequest, Expect::Request, Wrap::Migration, Seq::empty());
    } else {
        let rest = plan.skip(k + 1) + seq![next_request()];
        assert(now.plan =~= seq![plan[k]] + rest);
        assert(plain(plan[k]));
        reveal_with_fuel(changed, 1);
        match plan[k] {
            Phase::Ask(action, expect, wrap) => {
                lemma_next_ask(now, action, expect, wrap, rest);
                assert(changed(m, plan, k + 1) == changed(m, plan, k));
                assert(on_way(m, plan, k + 1, settled(now)));
            },
            Phase::Apply(change) => {
                assert(now.plan.drop_first() =~= rest);
                lemma_applied_any_plan(changed(m, plan, k), rest, change);
                lemma_on_from(m, plan, k + 1);
            },
            Phase::Fail(failure) => {
                assert(now.plan.drop_first() =~= rest);
                lemma_lost(Monitor { plan: rest, ..now }, failure);
            },
        }
    }
}

/// The monitor goes on with an outcome that is no request of the peer.
proof fn lemma_on_with(m: Monitor, plan: Seq<Phase>, at: (Monitor, StepView), outcome: Outcome)
    requires
        all_plain(plan),
        fresh(m),
        under_way(m, plan, at),
        fits(at.0, outcome),
        !(outcome is Request),
    ensures
        under_way(m, plan, advanced(at.0, outcome)),
{
    let rest = Monitor { waiting: None, ..at.0 };
    let waiting = at.0.waiting->0;
    if lost(at) {
        assert(after(rest, waiting.expect, outcome) == rest);
        assert(rest.plan =~= Seq::empty());
    } else if at.0 == arrived(m, plan) {
        lemma_stays_fresh(m, plan, plan.len() as int);
        match outcome {
            Outcome::Failed(fault) => lemma_lost(rest, wrapped(waiting.wrap, fault)),
            _ => {},
        }
    } else {
        let k = choose|k: int| on_way(m, plan, k, at);
        lemma_stays_fresh(m, plan, k);
        assert(rest == before_request(changed(m, plan, k), plan.skip(k)));
        match outcome {
            Outcome::Failed(fault) => lemma_lost(rest, wrapped(waiting.wrap, fault)),
            Outcome::Number(id) => {
                let next = after(rest, waiting.expect, outcome);
                if id <= MAX_XAPIC_ID {
                    assert(next.plan =~= rest.plan);
                    lemma_on_from(m, plan, k);
                } else {
                    assert(next.plan =~= seq![ask(Action::EnableX2Apic, Wrap::Never)] + rest.plan);
                    lemma_next_ask(
                        next,
                        Action::EnableX2Apic,
                        Expect::Done,
                        Wrap::Never,
                        rest.plan,
                    );
                    assert(on_way(m, plan, k, settled(next)));
                }
            },
            _ => lemma_on_from(m, plan, k),
        }
    }
}

/// The monitor goes on with some outcomes of which none is a request of the
/// peer.
proof fn lemma_through(m: Monitor, plan: Seq<Phase>, outcomes: Seq<Outcome>)
    requires
        all_plain(plan),
        fresh(m),
        can_come(settled(before_request(m, plan)), outcomes),
        forall|i: int| 0 <= i < outcomes.len() ==> !(#[trigger] outcomes[i] is Request),
    ensures
        under_way(m, plan, continued(settled(before_request(m, plan)), outcomes)),
    decreases outcomes.len(),
{
    if outcomes.len() == 0 {
        lemma_changed_none(m, plan);
        assert(plan.skip(0) =~= plan);
        lemma_on_from(m, plan, 0);
    } else {
        let before = outcomes.drop_last();
        assert forall|i: int| 0 <= i < before.len() implies !(#[trigger] before[i] is Request) by {
            assert(before[i] == outcomes[i]);
        }
        assert(!(outcomes[outcomes.len() - 1] is Request));
        lemma_through(m, plan, before);
        lemma_on_with(
            m,
            plan,
            continued(settled(before_request(m, plan)), before),
            outcomes.last(),
        );
    }
}

/// Where the peer's next request is awaited, all changes of the plan have been
/// made.
proof fn lemma_through_to_request(m: Monitor, plan: Seq<Phase>, outcomes: Seq<Outcome>)
    requires
        all_plain(plan),
        fresh(m),
        can_come(settled(before_request(m, plan)), outcomes),
        forall|i: int| 0 <= i < outcomes.len() ==> !(#[trigger] outcomes[i] is Request),
        awaits_request(continued(settled(before_request(m, plan)), outcomes).0),
    ensures
        continued(settled(before_request(m, plan)), outcomes).0 == arrived(m, plan),
{
    lemma_through(m, plan, outcomes);
}

/// Two plans on the way through a request, one after the other.
proof fn lemma_plain_chain(head: Seq<Phase>, tail: Seq<Phase>)
    requires
        all_plain(head),
        all_plain(tail),
    ensures
        all_plain(head + tail),
{
    assert forall|i: int| 0 <= i < (head + tail).len() implies plain(#[trigger] (head + tail)[i]) by {
        if i < head.len() {
            assert(plain(head[i]));
        } else {
            assert(plain(tail[i - head.len()]));
        }
    }
}

/// A plan without changes changes nothing.
proof fn lemma_nothing_changed(m: Monitor, plan: Seq<Phase>, k: int)
    requires
        no_change(plan),
        k <= plan.len(),
    ensures
        changed(m, plan, k) == m,
    decreases k,
{
    reveal_with_fuel(changed, 1);
    if k > 0 {
        lemma_nothing_changed(m, plan, k - 1);
        assert(!(plan[k - 1] is Apply));
    }
}

/// What a plan changes that goes on without changes.
proof fn lemma_then_nothing(m: Monitor, head: Seq<Phase>, tail: Seq<Phase>)
    requires
        no_change(tail),
    ensures
        changed(m, head + tail, (head + tail).len() as int) == changed(
            m,
            head,
            head.len() as int,
        ),
{
    lemma_changed_chain(m, head, tail, tail.len() as int);
    lemma_nothing_changed(changed(m, head, head.len() as int), tail, tail.len() as int);
}

/// What a plan changes that goes on with a change.
proof fn lemma_then_change(m: Monitor, head: Seq<Phase>, change: Change)
    ensures
        ({
            let plan = head + seq![Phase::Apply(change)];
            changed(m, plan, plan.len() as int) == applied(
                changed(m, head, head.len() as int),
                change,
            )
        }),
{
    let last = seq![Phase::Apply(change)];
    lemma_changed_chain(m, head, last, 1);
    reveal_with_fuel(changed, 2);
}

/// What the installing of a received configuration changes.
proof fn lemma_migrated(m: Monitor, build: Build, config: VmConfigView)
    ensures
        all_plain(migrated_plan(build, config)),
        ({
            let plan = migrated_plan(build, config);
            let installed = applied(m, Change::InstallCandidate);
            changed(m, plan, plan.len() as int) == (Monitor {
                console_info: true,
                session: SessionView { memory_manager: true, ..m.session },
                ..installed
            })
        }),
{
    reveal(migrated_plan);
    let cpuid = cpuid_plan(build, config, false);
    let install = seq![Phase::Apply(Change::InstallCandidate)];
    let console = console_plan(Wrap::Receive(Context::CreateConsole));
    let landlock = landlock_plan(config.landlock_enable, Wrap::Receive(Context::ApplyLandlock));
    let machine = seq![
        ask(Action::CreateHypervisorVm, Wrap::Receive(Context::CreateHypervisorVm)),
    ];
    let topology = topology_plan(build, config.cpus.topology);
    let memory = seq![
        ask(
            Action::CreateMemoryManager(config.cpus.max_phys_bits),
            Wrap::Receive(Context::CreateMemoryManager),
        ),
        answer(true),
    ];
    let ready = seq![Phase::Apply(Change::MemoryManagerReady)];
    let ask_console = seq![
        ask(Action::CreateConsole, Wrap::Receive(Context::CreateConsole)),
    ];
    let one = cpuid + install;
    let two = one + ask_console + seq![Phase::Apply(Change::ConsoleReady)];
    let three = two + landlock + machine + topology + memory;
    let plan = migrated_plan(build, config);
    assert(plan =~= three + ready);
    lemma_plain_chain(cpuid, install);
    lemma_plain_chain(one, console);
    assert(two =~= one + console);
    lemma_plain_chain(two, landlock);
    lemma_plain_chain(two + landlock, machine);
    lemma_plain_chain(two + landlock + machine, topology);
    lemma_plain_chain(two + landlock + machine + topology, memory);
    lemma_plain_chain(three, ready);
    lemma_nothing_changed(m, cpuid, cpuid.len() as int);
    lemma_then_change(m, cpuid, Change::InstallCandidate);
    lemma_then_nothing(m, one, ask_console);
    lemma_then_change(m, one + ask_console, Change::ConsoleReady);
    lemma_then_nothing(m, two, landlock);
    lemma_then_nothing(m, two + landlock, machine);
    lemma_then_nothing(m, two + landlock + machine, topology);
    lemma_then_nothing(m, two + landlock + machine + topology, memory);
    lemma_then_change(m, three, Change::MemoryManagerReady);
}

/// What the receiving of a machine's state changes.
proof fn lemma_state(m: Monitor, build: Build, length: u64)
    requires
        m.recovery == Recovery::Nothing,
    ensures
        all_plain(state_plan(build, length)),
        ({
            let plan = state_plan(build, length);
            changed(m, plan, plan.len() as int) == applied(m, Change::InstallVm)
        }),
{
    let read = seq![
        ask(Action::ReadPayload(length), Wrap::Socket),
        ask(Action::DecodeSnapshot, Wrap::Receive(Context::DecodeSnapshot)),
    ];
    let events = events_plan(build, true);
    let creation = seq![
        ask(Action::CreateVm(VmSource::Migration), Wrap::Receive(Context::CreateVm)),
    ];
    let guarded = Change::OnFailure(Recovery::AnswerError);
    let restoring = seq![ask(Action::RestoreVm, Wrap::Receive(Context::RestoreVm))];
    let unguarded = Change::OnFailure(Recovery::Nothing);
    let end = seq![answer(true)];
    let one = read + events + creation;
    let two = one + seq![Phase::Apply(guarded)];
    let three = two + restoring;
    let four = three + seq![Phase::Apply(unguarded)];
    let five = four + seq![Phase::Apply(Change::InstallVm)];
    let plan = state_plan(build, length);
    assert(plan =~= five + end);
    assert(all_plain(events));
    lemma_plain_chain(read, events);
    lemma_plain_chain(read + events, creation);
    lemma_plain_chain(one, seq![Phase::Apply(guarded)]);
    lemma_plain_chain(two, restoring);
    lemma_plain_chain(three, seq![Phase::Apply(unguarded)]);
    lemma_plain_chain(four, seq![Phase::Apply(Change::InstallVm)]);
    lemma_plain_chain(five, end);
    assert(no_change(events));
    lemma_nothing_changed(m, read, read.len() as int);
    lemma_then_nothing(m, read, events);
    lemma_then_nothing(m, read + events, creation);
    lemma_then_change(m, one, guarded);
    lemma_then_nothing(m, two, restoring);
    lemma_then_change(m, three, unguarded);
    lemma_then_change(m, four, Change::InstallVm);
    lemma_then_nothing(m, five, end);
}

/// What the receiving of memory changes: nothing.
proof fn lemma_memory(m: Monitor, length: u64)
    requires
        m.recovery == Recovery::Nothing,
    ensures
        all_plain(memory_plan(length)),
        changed(m, memory_plan(length), memory_plan(length).len() as int) == m,
{
    let read = seq![ask(Action::ReadTable(length), Wrap::Migration)];
    let guarded = Change::OnFailure(Recovery::AnswerError);
    let receiving = seq![ask(Action::ReceiveRegions, Wrap::Migration)];
    let unguarded = Change::OnFailure(Recovery::Nothing);
    let end = seq![answer(true)];
    let one = read + seq![Phase::Apply(guarded)];
    let two = one + receiving;
    let three = two + seq![Phase::Apply(unguarded)];
    assert(memory_plan(length) =~= three + end);
    lemma_nothing_changed(m, read, read.len() as int);
    lemma_then_change(m, read, guarded);
    lemma_then_nothing(m, one, receiving);
    lemma_then_change(m, two, unguarded);
    lemma_then_nothing(m, three, end);
}

/// The monitor, and what comes next, once the peer has sent a configuration,
/// and it has been read and decoded.
#[verifier::opaque]
pub open spec fn sent_configuration(m: Monitor, length: u64, config: VmConfig) -> (
    Monitor,
    StepView,
) {
    let reading = advanced(m, Outcome::Request(Command::Config, length)).0;
    let decoding = advanced(reading, Outcome::Done).0;
    advanced(decoding, Outcome::Config(config))
}

/// The monitor once it considers a configuration that the peer has sent.
pub open spec fn considering_sent(m: Monitor, config: VmConfig) -> Monitor {
    Monitor {
        candidate: Some(config@),
        waiting: None,
        session: session_after(m.session, Command::Config),
        ..m
    }
}

/// The phase that decodes a configuration.
spec fn decoding_phase() -> Phase {
    Phase::Ask(
        Action::DecodeConfig,
        Expect::MigratedConfig,
        Wrap::Receive(Context::DecodeConfig),
    )
}

/// A configuration that the peer announces is read.
proof fn lemma_reading(m: Monitor, length: u64)
    requires
        awaits_request(m),
        takes(m.session, Command::Config),
    ensures
        advanced(m, Outcome::Request(Command::Config, length)).0 == (Monitor {
            plan: seq![decoding_phase(), next_request()],
            waiting: Some(Waiting { expect: Expect::Done, wrap: Wrap::Socket }),
            session: session_after(m.session, Command::Config),
            ..m
        }),
{
    reveal(served);
    let first = served(Monitor { waiting: None, ..m }, Command::Config, length);
    let rest = seq![decoding_phase(), next_request()];
    assert(first.plan =~= seq![ask(Action::ReadPayload(length), Wrap::Socket)] + rest);
    lemma_next_ask(first, Action::ReadPayload(length), Expect::Done, Wrap::Socket, rest);
}

/// A configuration that was read is decoded.
proof fn lemma_decoding(m: Monitor)
    requires
        m.plan == seq![decoding_phase(), next_request()],
        m.waiting == Some(Waiting { expect: Expect::Done, wrap: Wrap::Socket }),
    ensures
        advanced(m, Outcome::Done).0 == (Monitor {
            plan: seq![next_request()],
            waiting: Some(
                Waiting {
                    expect: Expect::MigratedConfig,
                    wrap: Wrap::Receive(Context::DecodeConfig),
                },
            ),
            ..m
        }),
{
    let rest = Monitor { waiting: None, ..m };
    assert(rest.plan =~= seq![decoding_phase()] + seq![next_request()]);
    lemma_next_ask(
        rest,
        Action::DecodeConfig,
        Expect::MigratedConfig,
        Wrap::Receive(Context::DecodeConfig),
        seq![next_request()],
    );
}

/// A configuration that was decoded is considered.
pub proof fn lemma_sent_configuration(m: Monitor, length: u64, config: VmConfig)
    requires
        awaits_request(m),
        takes(m.session, Command::Config),
    ensures
        sent_configuration(m, length, config) == settled(
            before_request(considering_sent(m, config), migrated_plan(m.build, config@)),
        ),
{
    reveal(sent_configuration);
    lemma_reading(m, length);
    lemma_decoding(advanced(m, Outcome::Request(Command::Config, length)).0);
}

/// A configuration that the peer sends becomes the monitor's, once the peer's
/// next request is awaited. There are console devices then, and a memory
/// manager, which the files that came before belong to. A machine that shared
/// the old configuration keeps it.
pub proof fn law_received_configuration(
    m: Monitor,
    length: u64,
    config: VmConfig,
    outcomes: Seq<Outcome>,
)
    requires
        awaits_request(m),
        m.pending is None,
        m.recovery == Recovery::Nothing,
        takes(m.session, Command::Config),
        can_come(sent_configuration(m, length, config), outcomes),
        awaits_request(continued(sent_configuration(m, length, config), outcomes).0),
        forall|i: int| 0 <= i < outcomes.len() ==> !(#[trigger] outcomes[i] is Request),
    ensures
        continued(sent_configuration(m, length, config), outcomes).0 == (Monitor {
            vm_config: Some(config@),
            vm: if m.vm == Some(None::<VmConfigView>) {
                Some(m.vm_config)
            } else {
                m.vm
            },
            console_info: true,
            candidate: None,
            session: SessionView {
                memory_manager: true,
                memory_files: None,
                granted_files: m.session.memory_files,
                ..m.session
            },
            ..m
        }),
{
    let considered = considering_sent(m, config);
    let plan = migrated_plan(m.build, config@);
    lemma_sent_configuration(m, length, config);
    lemma_migrated(considered, m.build, config@);
    lemma_through_to_request(considered, plan, outcomes);
    assert(m.plan =~= Seq::empty());
}

/// A state that the peer sends makes a machine of the monitor's configuration,
/// once the peer's next request is awaited. Its memory manager is used up.
pub proof fn law_received_state(m: Monitor, length: u64, outcomes: Seq<Outcome>)
    requires
        awaits_request(m),
        m.pending is None,
        m.recovery == Recovery::Nothing,
        takes(m.session, Command::State),
        can_come(advanced(m, Outcome::Request(Command::State, length)), outcomes),
        awaits_request(
            continued(advanced(m, Outcome::Request(Command::State, length)), outcomes).0,
        ),
        forall|i: int| 0 <= i < outcomes.len() ==> !(#[trigger] outcomes[i] is Request),
    ensures
        continued(advanced(m, Outcome::Request(Command::State, length)), outcomes).0 == (Monitor {
            vm: Some(None),
            session: SessionView { memory_manager: false, ..m.session },
            ..m
        }),
{
    reveal(served);
    let taken = Monitor {
        waiting: None,
        session: session_after(m.session, Command::State),
        ..m
    };
    let plan = state_plan(m.build, length);
    let first = served(Monitor { waiting: None, ..m }, Command::State, length);
    assert(first.plan =~= plan + seq![next_request()]);
    assert(first == before_request(taken, plan));
    lemma_state(taken, m.build, length);
    lemma_through_to_request(taken, plan, outcomes);
    assert(m.plan =~= Seq::empty());
}

/// Memory that the peer sends changes nothing else, once the peer's next
/// request is awaited.
pub proof fn law_received_memory(m: Monitor, length: u64, outcomes: Seq<Outcome>)
    requires
        awaits_request(m),
        m.pending is None,
        m.recovery == Recovery::Nothing,
        takes(m.session, Command::Memory),
        can_come(advanced(m, Outcome::Request(Command::Memory, length)), outcomes),
        awaits_request(
            continued(advanced(m, Outcome::Request(Command::Memory, length)), outcomes).0,
        ),
        forall|i: int| 0 <= i < outcomes.len() ==> !(#[trigger] outcomes[i] is Request),
    ensures
        continued(advanced(m, Outcome::Request(Command::Memory, length)), outcomes).0 == m,
{
    reveal(served);
    let taken = Monitor { waiting: None, ..m };
    let plan = memory_plan(length);
    let first = served(taken, Command::Memory, length);
    assert(first.plan =~= plan + seq![next_request()]);
    assert(first == before_request(taken, plan));
    lemma_memory(taken, length);
    lemma_through_to_request(taken, plan, outcomes);
    assert(m.plan =~= Seq::empty());
}

/// A peer that starts the migration and then sends its memory's files, over a
/// UNIX socket, its configuration, its memory, its state and the end has all
/// of these taken.
pub proof fn law_requests_of_a_sender_are_taken(session: SessionView)
    ensures
        takes(session, Command::Start),
        ({
            let started = session_after(session, Command::Start);
            let configured = SessionView {
                memory_manager: true,
                ..session_after(started, Command::Config)
            };
            &&& (session.endpoint matches Some(EndpointView::Unix(_))) ==> takes(
                started,
                Command::MemoryFd,
            )
            &&& session_after(started, Command::MemoryFd) == started
            &&& takes(started, Command::Config)
            &&& takes(configured, Command::Memory)
            &&& session_after(configured, Command::Memory) == configured
            &&& takes(configured, Command::State)
            &&& takes(session_after(configured, Command::State), Command::Complete)
        }),
{
}

} // verus!
