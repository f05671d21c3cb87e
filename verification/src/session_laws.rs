//! What holds of whole sessions in which a machine is taken in, whatever the
//! peer asks for.

use vstd::prelude::*;
use crate::config::{VmConfig, VmConfigView};
use crate::endpoint::{endpoint_of, no_path_in, EndpointView};
use crate::error::{Context, Failure, MigratableError};
use crate::features::Build;
use crate::lifecycle::{ask, cpuid_plan, events_plan, landlock_plan};
use crate::migration::{
    answer, apic_plan, at_endpoint, command_plan, memory_plan, migrated_plan, next_request,
    receive_plan, served, state_plan, takes, topology_plan,
};
use crate::migration_laws::{
    all_are, awaits_request, law_abandon, law_complete, law_untaken_requests_are_refused,
    lemma_all_are,
};
use crate::model::{advanced, after, applied, failed, fits, settled, Monitor, Waiting};
use crate::plan::{
    wrapped, Action, Change, Command, Expect, Outcome, Phase, Recovery, ReplyView, StepView,
    VmReceiveMigrationData, VmSource, Wrap,
};
use crate::run::{
    course, lemma_failed_ends, lemma_next_ask, lemma_next_change, lemma_step, lemma_within, possible, taken_up,
    Request,
};
use crate::straight::lemma_over;

verus! {

/// What has been heard of the peer in a session.
pub struct History {
    /// How many requests have come that call for an answer.
    pub valid: nat,
    /// Whether the peer has started the migration.
    pub started: bool,
    /// Whether a configuration has been taken since the last state.
    pub configured: bool,
    /// Whether a state has been taken since the last configuration.
    pub made: bool,
    /// Whether the last request ends the migration.
    pub ended: bool,
}

/// What has been heard of the peer after one more outcome.
pub open spec fn heard(h: History, outcome: Outcome) -> History {
    match outcome {
        Outcome::Request(command, _) => History {
            valid: h.valid + if command is Invalid {
                0nat
            } else {
                1nat
            },
            started: h.started || command is Start,
            configured: match command {
                Command::Config => h.configured || h.started,
                Command::State => false,
                _ => h.configured,
            },
            made: match command {
                Command::State => h.made || h.started && h.configured,
                Command::Config => h.made && !h.started,
                Command::Abandon => false,
                _ => h.made,
            },
            ended: command is Complete || command is Abandon,
        },
        _ => h,
    }
}

/// What has been heard of the peer in some outcomes.
pub open spec fn history(outcomes: Seq<Outcome>) -> History
    decreases outcomes.len(),
{
    if outcomes.len() == 0 {
        History { valid: 0, started: false, configured: false, made: false, ended: false }
    } else {
        heard(history(outcomes.drop_last()), outcomes.last())
    }
}

/// One, where the peer is to be answered now.
pub open spec fn answering(step: StepView) -> nat {
    match step {
        StepView::Perform(Action::Answer(_)) => 1,
        _ => 0,
    }
}

/// How often the peer has been answered in a request.
pub open spec fn answers(m: Monitor, request: Request, outcomes: Seq<Outcome>) -> nat
    decreases outcomes.len(),
{
    answering(course(m, request, outcomes).1) + if outcomes.len() == 0 {
        0
    } else {
        answers(m, request, outcomes.drop_last())
    }
}

/// Whether a phase reads a request of the peer.
spec fn reads_request(phase: Phase) -> bool {
    phase matches Phase::Ask(_, expect, _) && expect is Request
}

/// A phase of a session.
spec fn in_order(phase: Phase) -> bool {
    match phase {
        Phase::Ask(action, expect, wrap) => {
            &&& expect is Done || expect is MigratedConfig || expect is ApicId
                || expect is MemoryFile || expect is Request
            &&& expect is Request ==> wrap == Wrap::Migration && action is ReadRequest
            &&& wrap == Wrap::Ignore ==> expect is Done
            &&& action is Answer ==> expect is Done
        },
        Phase::Apply(Change::OnFailure(recovery)) => recovery is Nothing || recovery is AnswerError,
        Phase::Apply(change) => change is InstallCandidate || change is ConsoleReady
            || change is MemoryManagerReady || change is InstallVm || change is Forget,
        Phase::Fail(_) => true,
    }
}

/// Phases of a session.
spec fn all_in_order(plan: Seq<Phase>) -> bool {
    all_are(plan, |phase: Phase| in_order(phase))
}

/// A plan reads the peer's next request at the end, if at all.
spec fn only_last(plan: Seq<Phase>) -> bool {
    forall|i: int| 0 <= i < plan.len() - 1 ==> !reads_request(#[trigger] plan[i])
}

/// Whether a plan reads the peer's next request at the end.
spec fn stays_open(plan: Seq<Phase>) -> bool {
    plan.len() > 0 && reads_request(plan.last())
}

/// How many answers a phase leads to.
spec fn owed_by(phase: Phase) -> nat {
    match phase {
        Phase::Ask(Action::Answer(_), _, _) => 1,
        Phase::Ask(_, Expect::MigratedConfig, _) => 1,
        _ => 0,
    }
}

/// How many answers a plan leads to.
spec fn owed(plan: Seq<Phase>) -> nat
    decreases plan.len(),
{
    if plan.len() == 0 {
        0
    } else {
        owed_by(plan[0]) + owed(plan.drop_first())
    }
}

/// Whether an answer is still owed wherever a failure is answered.
spec fn guarded(plan: Seq<Phase>, guard: bool) -> bool
    decreases plan.len(),
{
    &&& guard ==> owed(plan) >= 1
    &&& plan.len() > 0 ==> match plan[0] {
        Phase::Apply(Change::OnFailure(recovery)) => guarded(
            plan.drop_first(),
            recovery is AnswerError,
        ),
        _ => guarded(plan.drop_first(), guard),
    }
}

/// What a phase can lead to.
enum Deed {
    /// A memory manager.
    Memory,
    /// A machine.
    Machine,
    /// That a machine is lost, or has another configuration than the monitor.
    Parting,
}

/// Whether a phase leads to something.
spec fn does(phase: Phase, deed: Deed) -> bool {
    match phase {
        Phase::Ask(_, expect, _) => expect is MigratedConfig && !(deed is Machine),
        Phase::Apply(change) => match deed {
            Deed::Memory => change is MemoryManagerReady,
            Deed::Machine => change is InstallVm,
            Deed::Parting => change is InstallCandidate || change is Forget,
        },
        Phase::Fail(_) => false,
    }
}

/// Whether a plan leads to something.
spec fn makes(plan: Seq<Phase>, deed: Deed) -> bool
    decreases plan.len(),
{
    plan.len() > 0 && (does(plan[0], deed) || makes(plan.drop_first(), deed))
}

/// The answers of two plans, one after the other.
proof fn lemma_owed(head: Seq<Phase>, tail: Seq<Phase>)
    ensures
        owed(head + tail) == owed(head) + owed(tail),
    decreases head.len(),
{
    if head.len() == 0 {
        assert(head + tail =~= tail);
    } else {
        assert((head + tail).drop_first() =~= head.drop_first() + tail);
        lemma_owed(head.drop_first(), tail);
    }
}

/// What two plans lead to, one after the other.
proof fn lemma_makes(head: Seq<Phase>, tail: Seq<Phase>, deed: Deed)
    ensures
        makes(head + tail, deed) == (makes(head, deed) || makes(tail, deed)),
    decreases head.len(),
{
    if head.len() == 0 {
        assert(head + tail =~= tail);
    } else {
        assert((head + tail).drop_first() =~= head.drop_first() + tail);
        lemma_makes(head.drop_first(), tail, deed);
    }
}

/// What no phase leads to, a plan does not.
proof fn lemma_makes_not(plan: Seq<Phase>, deed: Deed)
    requires
        all_are(plan, |phase: Phase| !does(phase, deed)),
    ensures
        !makes(plan, deed),
    decreases plan.len(),
{
    if plan.len() > 0 {
        let kind = |phase: Phase| !does(phase, deed);
        let rest = plan.drop_first();
        assert(kind(plan[0]));
        assert forall|i: int| 0 <= i < rest.len() implies kind(#[trigger] rest[i]) by {
            assert(kind(plan[i + 1]));
        }
        lemma_makes_not(rest, deed);
    }
}

/// Phases that do not touch what follows a failure can stand before others.
proof fn lemma_guarded(head: Seq<Phase>, tail: Seq<Phase>, guard: bool)
    requires
        guarded(tail, guard),
        all_are(head, |phase: Phase| !(phase matches Phase::Apply(Change::OnFailure(_)))),
    ensures
        guarded(head + tail, guard),
    decreases head.len(),
{
    lemma_owed(head, tail);
    if head.len() == 0 {
        assert(head + tail =~= tail);
    } else {
        let kind = |phase: Phase| !(phase matches Phase::Apply(Change::OnFailure(_)));
        let rest = head.drop_first();
        assert(kind(head[0]));
        assert forall|i: int| 0 <= i < rest.len() implies kind(#[trigger] rest[i]) by {
            assert(kind(head[i + 1]));
        }
        assert((head + tail).drop_first() =~= rest + tail);
        lemma_guarded(rest, tail, guard);
    }
}

/// Whether the monitor serves a session of which so much has been heard.
/// `config` tells whether a configuration is being decoded.
spec fn serving(m: Monitor, h: History, endpoint: Option<EndpointView>, config: bool) -> bool {
    &&& m.pending is None
    &&& m.reply == ReplyView::Done
    &&& m.recovery is Nothing || m.recovery is AnswerError
    &&& m.session.started == h.started
    &&& h.configured ==> h.started
    &&& m.session.endpoint == endpoint
    &&& all_in_order(m.plan)
    &&& only_last(m.plan)
    &&& guarded(m.plan, m.recovery is AnswerError)
    &&& (m.session.memory_manager || makes(m.plan, Deed::Memory) || config) == h.configured
    &&& h.made ==> {
        &&& m.vm == Some(None::<VmConfigView>) || makes(m.plan, Deed::Machine)
        &&& !makes(m.plan, Deed::Parting)
        &&& !config
    }
}

/// Where a session can be, of which so much has been heard, and in which the
/// peer has been answered so often.
spec fn session_at(
    at: (Monitor, StepView),
    h: History,
    endpoint: Option<EndpointView>,
    answered: nat,
) -> bool {
    &&& answered <= h.valid <= answered + 1
    &&& match at.1 {
        StepView::Perform(action) => {
            &&& at.0.waiting matches Some(waiting)
            &&& if at.0.pending is Some {
                at.0.plan.len() == 0 && waiting == (Waiting {
                    expect: Expect::Done,
                    wrap: Wrap::Ignore,
                })
            } else {
                let config = waiting.expect is MigratedConfig;
                &&& serving(at.0, h, endpoint, config)
                &&& in_order(Phase::Ask(action, waiting.expect, waiting.wrap))
                &&& waiting.expect is Request ==> at.0.plan.len() == 0 && action is ReadRequest
                &&& h.valid == answered + owed(at.0.plan) + if config {
                    1nat
                } else {
                    0nat
                }
                &&& h.ended || waiting.expect is Request || stays_open(at.0.plan)
            }
        },
        StepView::Done(r) => {
            &&& at.0.waiting is None
            &&& r is Ok ==> answered == h.valid && h.ended
        },
    }
}

/// What a plan is, its first phase is and the rest.
proof fn lemma_first(plan: Seq<Phase>)
    requires
        all_in_order(plan),
        only_last(plan),
        plan.len() > 0,
    ensures
        in_order(plan[0]),
        all_in_order(plan.drop_first()),
        only_last(plan.drop_first()),
        reads_request(plan[0]) ==> plan.len() == 1,
        stays_open(plan) ==> reads_request(plan[0]) || stays_open(plan.drop_first()),
{
    let kind = |phase: Phase| in_order(phase);
    let rest = plan.drop_first();
    assert(kind(plan[0]));
    assert forall|i: int| 0 <= i < rest.len() implies kind(#[trigger] rest[i]) by {
        assert(kind(plan[i + 1]));
    }
    assert forall|i: int| 0 <= i < rest.len() - 1 implies !reads_request(#[trigger] rest[i]) by {
        assert(rest[i] == plan[i + 1]);
    }
    if plan.len() > 1 {
        assert(!reads_request(plan[0]));
        assert(rest.last() == plan.last());
    }
}

/// A failure ends a session, after an answer at most.
proof fn lemma_session_fails(
    m: Monitor,
    h: History,
    endpoint: Option<EndpointView>,
    answered: nat,
    failure: Failure,
)
    requires
        m.pending is None,
        m.recovery is Nothing || m.recovery is AnswerError,
        answered + if m.recovery is AnswerError {
            1nat
        } else {
            0nat
        } <= h.valid <= answered + 1,
    ensures
        ({
            let at = settled(failed(m, failure));
            session_at(at, h, endpoint, answered + answering(at.1))
        }),
{
    let f = failed(m, failure);
    if m.recovery is AnswerError {
        assert(f.plan =~= seq![ask(Action::Answer(false), Wrap::Ignore)] + Seq::empty());
        lemma_next_ask(f, Action::Answer(false), Expect::Done, Wrap::Ignore, Seq::empty());
    } else {
        lemma_failed_ends(m, failure);
    }
}

/// A change on the way through a session.
proof fn lemma_session_change(
    m: Monitor,
    h: History,
    endpoint: Option<EndpointView>,
    change: Change,
)
    requires
        serving(m, h, endpoint, false),
        m.plan.len() > 0,
        m.plan[0] == Phase::Apply(change),
    ensures
        serving(
            applied(Monitor { plan: m.plan.drop_first(), ..m }, change),
            h,
            endpoint,
            false,
        ),
{
    lemma_first(m.plan);
    let rest = Monitor { plan: m.plan.drop_first(), ..m };
    assert(in_order(Phase::Apply(change)));
    match change {
        Change::OnFailure(_) => {},
        Change::InstallVm => {},
        Change::MemoryManagerReady => {},
        Change::InstallCandidate => {},
        Change::Forget => {},
        _ => {},
    }
}

/// A session goes on as planned.
proof fn lemma_session_settles(
    m: Monitor,
    h: History,
    endpoint: Option<EndpointView>,
    answered: nat,
)
    requires
        serving(m, h, endpoint, false),
        m.waiting is None,
        h.valid == answered + owed(m.plan),
        h.valid <= answered + 1,
        h.ended || stays_open(m.plan),
    ensures
        session_at(settled(m), h, endpoint, answered + answering(settled(m).1)),
    decreases m.plan.len(),
{
    if m.plan.len() > 0 {
        lemma_first(m.plan);
        let rest = Monitor { plan: m.plan.drop_first(), ..m };
        match m.plan[0] {
            Phase::Ask(action, expect, wrap) => {
                assert(m.plan =~= seq![m.plan[0]] + rest.plan);
                lemma_next_ask(m, action, expect, wrap, rest.plan);
            },
            Phase::Apply(change) => {
                lemma_session_change(m, h, endpoint, change);
                lemma_session_settles(applied(rest, change), h, endpoint, answered);
            },
            Phase::Fail(failure) => {
                lemma_session_fails(rest, h, endpoint, answered, failure);
            },
        }
    }
}

/// What a plan leads to.
struct Gist {
    owed: nat,
    memory: bool,
    machine: bool,
    parting: bool,
}

/// What a plan leads to.
spec fn gist(plan: Seq<Phase>) -> Gist {
    Gist {
        owed: owed(plan),
        memory: makes(plan, Deed::Memory),
        machine: makes(plan, Deed::Machine),
        parting: makes(plan, Deed::Parting),
    }
}

/// Nothing.
spec fn no_gist() -> Gist {
    Gist { owed: 0, memory: false, machine: false, parting: false }
}

/// What two plans lead to.
spec fn both(a: Gist, b: Gist) -> Gist {
    Gist {
        owed: a.owed + b.owed,
        memory: a.memory || b.memory,
        machine: a.machine || b.machine,
        parting: a.parting || b.parting,
    }
}

/// A phase on the way through a request that does not touch what follows a
/// failure.
spec fn plain(phase: Phase) -> bool {
    in_order(phase) && !reads_request(phase) && !(phase matches Phase::Apply(Change::OnFailure(_)))
}

/// Phases on the way through a request.
spec fn all_plain(plan: Seq<Phase>) -> bool {
    all_are(plan, |phase: Phase| plain(phase))
}

/// A phase that leads to nothing.
spec fn void(phase: Phase) -> bool {
    &&& plain(phase)
    &&& owed_by(phase) == 0
    &&& !does(phase, Deed::Memory)
    &&& !does(phase, Deed::Machine)
    &&& !does(phase, Deed::Parting)
}

/// What a plan of one phase leads to.
proof fn lemma_gist_one(phase: Phase)
    ensures
        gist(seq![phase]) == (Gist {
            owed: owed_by(phase),
            memory: does(phase, Deed::Memory),
            machine: does(phase, Deed::Machine),
            parting: does(phase, Deed::Parting),
        }),
{
    assert(seq![phase].drop_first() =~= Seq::empty());
    reveal_with_fuel(owed, 2);
    reveal_with_fuel(makes, 2);
}

/// What two plans lead to, one after the other.
proof fn lemma_gist(head: Seq<Phase>, tail: Seq<Phase>)
    ensures
        gist(head + tail) == both(gist(head), gist(tail)),
{
    lemma_owed(head, tail);
    lemma_makes(head, tail, Deed::Memory);
    lemma_makes(head, tail, Deed::Machine);
    lemma_makes(head, tail, Deed::Parting);
}

/// What phases lead to that lead to nothing.
proof fn lemma_void(plan: Seq<Phase>)
    requires
        all_are(plan, |phase: Phase| void(phase)),
    ensures
        all_plain(plan),
        gist(plan) == no_gist(),
    decreases plan.len(),
{
    let kind = |phase: Phase| void(phase);
    assert forall|i: int| 0 <= i < plan.len() implies plain(#[trigger] plan[i]) by {
        assert(kind(plan[i]));
    }
    if plan.len() > 0 {
        let rest = plan.drop_first();
        assert(kind(plan[0]));
        assert forall|i: int| 0 <= i < rest.len() implies kind(#[trigger] rest[i]) by {
            assert(kind(plan[i + 1]));
        }
        lemma_void(rest);
    }
}

/// Two plans on the way through a request, one after the other.
proof fn lemma_chain(head: Seq<Phase>, tail: Seq<Phase>)
    requires
        all_plain(head),
        all_plain(tail),
    ensures
        all_plain(head + tail),
        gist(head + tail) == both(gist(head), gist(tail)),
{
    lemma_gist(head, tail);
    lemma_all_are(head, tail, |phase: Phase| plain(phase));
}

/// Phases that stand before others.
proof fn lemma_before(plan: Seq<Phase>, tail: Seq<Phase>, guard: bool)
    requires
        all_plain(plan),
        all_in_order(tail),
        only_last(tail),
        guarded(tail, guard),
    ensures
        all_in_order(plan + tail),
        only_last(plan + tail),
        guarded(plan + tail, guard),
        gist(plan + tail) == both(gist(plan), gist(tail)),
        stays_open(tail) ==> stays_open(plan + tail),
{
    let kind = |phase: Phase| plain(phase);
    let order = |phase: Phase| in_order(phase);
    let steady = |phase: Phase| !(phase matches Phase::Apply(Change::OnFailure(_)));
    assert forall|i: int| 0 <= i < plan.len() implies order(#[trigger] plan[i]) && steady(
        plan[i],
    ) by {
        assert(kind(plan[i]));
    }
    assert(all_are(plan, order));
    assert(all_are(plan, steady));
    lemma_all_are(plan, tail, order);
    lemma_guarded(plan, tail, guard);
    lemma_gist(plan, tail);
    assert forall|i: int| 0 <= i < (plan + tail).len() - 1 implies !reads_request(
        #[trigger] (plan + tail)[i],
    ) by {
        if i < plan.len() {
            assert(kind(plan[i]));
        } else {
            assert(!reads_request(tail[i - plan.len()]));
        }
    }
    if tail.len() > 0 {
        assert((plan + tail).last() == tail.last());
    }
}

/// The reading of the peer's next request.
proof fn lemma_next()
    ensures
        all_in_order(seq![next_request()]),
        only_last(seq![next_request()]),
        guarded(seq![next_request()], false),
        gist(seq![next_request()]) == no_gist(),
        stays_open(seq![next_request()]),
{
    lemma_gist_one(next_request());
    reveal_with_fuel(guarded, 2);
}

/// A plan of one plain phase.
proof fn lemma_one(phase: Phase)
    requires
        plain(phase),
    ensures
        all_plain(seq![phase]),
        gist(seq![phase]) == (Gist {
            owed: owed_by(phase),
            memory: does(phase, Deed::Memory),
            machine: does(phase, Deed::Machine),
            parting: does(phase, Deed::Parting),
        }),
{
    lemma_gist_one(phase);
}

/// A plan of two plain phases.
proof fn lemma_two(a: Phase, b: Phase)
    requires
        plain(a),
        plain(b),
    ensures
        all_plain(seq![a, b]),
        gist(seq![a, b]) == both(gist(seq![a]), gist(seq![b])),
{
    lemma_one(a);
    lemma_one(b);
    lemma_chain(seq![a], seq![b]);
    assert(seq![a, b] =~= seq![a] + seq![b]);
}

/// What the installing of a received configuration leads to.
proof fn lemma_migrated_gist(build: Build, config: VmConfigView)
    ensures
        all_plain(migrated_plan(build, config)),
        gist(migrated_plan(build, config)) == (Gist {
            owed: 1,
            memory: true,
            machine: false,
            parting: true,
        }),
{
    reveal(migrated_plan);
    let cpuid = cpuid_plan(build, config, false);
    let install = seq![Phase::Apply(Change::InstallCandidate)];
    let console = seq![
        ask(Action::CreateConsole, Wrap::Receive(Context::CreateConsole)),
        Phase::Apply(Change::ConsoleReady),
    ];
    let landlock = landlock_plan(config.landlock_enable, Wrap::Receive(Context::ApplyLandlock));
    let machine = seq![
        ask(Action::CreateHypervisorVm, Wrap::Receive(Context::CreateHypervisorVm)),
    ];
    let topology = topology_plan(build, config.cpus.topology);
    let manager = seq![
        ask(
            Action::CreateMemoryManager(config.cpus.max_phys_bits),
            Wrap::Receive(Context::CreateMemoryManager),
        ),
    ];
    let ready = Phase::Apply(Change::MemoryManagerReady);
    lemma_void(cpuid);
    lemma_one(Phase::Apply(Change::InstallCandidate));
    lemma_void(console);
    lemma_void(landlock);
    lemma_void(machine);
    lemma_void(topology);
    lemma_void(manager);
    lemma_two(answer(true), ready);
    lemma_one(answer(true));
    lemma_one(ready);
    lemma_chain(cpuid, install);
    lemma_chain(cpuid + install, console);
    lemma_chain(cpuid + install + console, landlock);
    lemma_chain(cpuid + install + console + landlock, machine);
    lemma_chain(cpuid + install + console + landlock + machine, topology);
    let made = cpuid + install + console + landlock + machine + topology;
    lemma_chain(made, manager);
    lemma_chain(made + manager, seq![answer(true), ready]);
    assert(migrated_plan(build, config) =~= made + manager + seq![answer(true), ready]);
}

/// What is done under guard, and the peer's next request after it.
proof fn lemma_under_guard(inner: Phase, after: Seq<Phase>)
    requires
        void(inner),
        all_plain(after),
        owed(after) == 1,
    ensures
        ({
            let plan = seq![
                Phase::Apply(Change::OnFailure(Recovery::AnswerError)),
                inner,
                Phase::Apply(Change::OnFailure(Recovery::Nothing)),
            ] + after + seq![next_request()];
            &&& all_in_order(plan)
            &&& only_last(plan)
            &&& guarded(plan, false)
            &&& stays_open(plan)
            &&& gist(plan) == gist(after)
        }),
{
    let guard = Phase::Apply(Change::OnFailure(Recovery::AnswerError));
    let free = Phase::Apply(Change::OnFailure(Recovery::Nothing));
    let tail = after + seq![next_request()];
    let plan = seq![guard, inner, free] + after + seq![next_request()];
    lemma_next();
    lemma_before(after, seq![next_request()], false);
    let one = seq![free] + tail;
    let two = seq![inner] + one;
    assert(plan =~= seq![guard] + two);
    assert(one.drop_first() =~= tail);
    assert(two.drop_first() =~= one);
    assert(plan.drop_first() =~= two);
    lemma_gist_one(guard);
    lemma_gist_one(free);
    lemma_gist_one(inner);
    lemma_gist(seq![free], tail);
    lemma_gist(seq![inner], one);
    lemma_gist(seq![guard], two);
    assert(guarded(one, true));
    assert(guarded(two, true));
    assert(guarded(plan, false));
    let order = |phase: Phase| in_order(phase);
    lemma_all_are(seq![guard, inner, free], tail, order);
    assert(seq![guard, inner, free] + tail =~= plan);
    assert forall|i: int| 0 <= i < plan.len() - 1 implies !reads_request(#[trigger] plan[i]) by {
        if i >= 3 {
            assert(plan[i] == tail[i - 3]);
        }
    }
    assert(plan.last() == tail.last());
}

/// Whether a plan serves a request of the peer, and leads to so much.
spec fn serves(plan: Seq<Phase>, g: Gist, open: bool) -> bool {
    &&& all_in_order(plan)
    &&& only_last(plan)
    &&& guarded(plan, false)
    &&& gist(plan) == g
    &&& open ==> stays_open(plan)
}

/// A plan on the way through a request, and the peer's next request after it.
proof fn lemma_serves(plan: Seq<Phase>)
    requires
        all_plain(plan),
    ensures
        serves(plan + seq![next_request()], gist(plan), true),
{
    lemma_next();
    lemma_before(plan, seq![next_request()], false);
}

/// A plan that no other request follows.
proof fn lemma_serves_last(plan: Seq<Phase>)
    requires
        all_plain(plan),
    ensures
        serves(plan, gist(plan), false),
{
    let none = Seq::<Phase>::empty();
    lemma_before(plan, none, false);
    assert(plan + none =~= plan);
}

/// The receiving of a state leads to a machine.
proof fn lemma_serves_state(build: Build, length: u64)
    ensures
        serves(
            state_plan(build, length) + seq![next_request()],
            Gist { owed: 1, memory: false, machine: true, parting: false },
            true,
        ),
{
    let read = seq![
        ask(Action::ReadPayload(length), Wrap::Socket),
        ask(Action::DecodeSnapshot, Wrap::Receive(Context::DecodeSnapshot)),
    ];
    let events = events_plan(build, true);
    let creation = seq![
        ask(Action::CreateVm(VmSource::Migration), Wrap::Receive(Context::CreateVm)),
    ];
    let restoring = ask(Action::RestoreVm, Wrap::Receive(Context::RestoreVm));
    let end = seq![Phase::Apply(Change::InstallVm), answer(true)];
    let prepared = read + events + creation;
    let tail = seq![
        Phase::Apply(Change::OnFailure(Recovery::AnswerError)),
        restoring,
        Phase::Apply(Change::OnFailure(Recovery::Nothing)),
    ] + end + seq![next_request()];
    lemma_void(read);
    lemma_void(events);
    lemma_void(creation);
    lemma_chain(read, events);
    lemma_chain(read + events, creation);
    lemma_two(Phase::Apply(Change::InstallVm), answer(true));
    lemma_one(Phase::Apply(Change::InstallVm));
    lemma_one(answer(true));
    lemma_under_guard(restoring, end);
    lemma_before(prepared, tail, false);
    assert(state_plan(build, length) + seq![next_request()] =~= prepared + tail);
}

/// The receiving of memory leads to nothing but its answer.
proof fn lemma_serves_memory(length: u64)
    ensures
        serves(
            memory_plan(length) + seq![next_request()],
            Gist { owed: 1, ..no_gist() },
            true,
        ),
{
    let read = seq![ask(Action::ReadTable(length), Wrap::Migration)];
    let receiving = ask(Action::ReceiveRegions, Wrap::Migration);
    let end = seq![answer(true)];
    let tail = seq![
        Phase::Apply(Change::OnFailure(Recovery::AnswerError)),
        receiving,
        Phase::Apply(Change::OnFailure(Recovery::Nothing)),
    ] + end + seq![next_request()];
    lemma_void(read);
    lemma_one(answer(true));
    lemma_under_guard(receiving, end);
    lemma_before(read, tail, false);
    assert(memory_plan(length) + seq![next_request()] =~= read + tail);
}

/// What the serving of a request of the peer leads to.
spec fn gist_of(m: Monitor, command: Command) -> Gist {
    if !takes(m.session, command) {
        Gist { owed: 1, ..no_gist() }
    } else {
        Gist {
            owed: if command is Invalid {
                0
            } else {
                1
            },
            memory: command is Config,
            machine: command is State,
            parting: command is Config || command is Abandon,
        }
    }
}

/// A request of the peer is served.
proof fn lemma_serves_command(m: Monitor, command: Command, length: u64)
    requires
        m.plan.len() == 0,
    ensures
        serves(
            served(m, command, length).plan,
            gist_of(m, command),
            !(takes(m.session, command) && (command is Complete || command is Abandon)),
        ),
{
    reveal(served);
    let plan = served(m, command, length).plan;
    let next = seq![next_request()];
    lemma_one(answer(true));
    lemma_one(answer(false));
    if !takes(m.session, command) {
        lemma_serves(seq![answer(false)]);
        assert(plan =~= seq![answer(false)] + next);
    } else {
        let own = command_plan(m, command, length);
        assert(plan =~= own + if command is Complete || command is Abandon {
            Seq::empty()
        } else {
            next
        });
        match command {
            Command::Invalid => {
                lemma_void(own);
                lemma_serves(own);
            },
            Command::Start => lemma_serves(own),
            Command::Config => {
                let read = ask(Action::ReadPayload(length), Wrap::Socket);
                let decode = Phase::Ask(
                    Action::DecodeConfig,
                    Expect::MigratedConfig,
                    Wrap::Receive(Context::DecodeConfig),
                );
                lemma_two(read, decode);
                lemma_one(read);
                lemma_one(decode);
                assert(own =~= seq![read, decode]);
                lemma_serves(own);
            },
            Command::State => lemma_serves_state(m.build, length),
            Command::Memory => lemma_serves_memory(length),
            Command::MemoryFd => {
                let file = Phase::Ask(
                    Action::ReceiveFile,
                    Expect::MemoryFile,
                    Wrap::Receive(Context::ReceiveSlot),
                );
                lemma_two(file, answer(true));
                lemma_one(file);
                assert(own =~= seq![file, answer(true)]);
                lemma_serves(own);
            },
            Command::Complete => {
                if m.vm is Some {
                    let resume = ask(Action::ResumeVm, Wrap::Migration);
                    lemma_two(resume, answer(true));
                    lemma_one(resume);
                }
                lemma_serves_last(own);
                assert(plan =~= own);
            },
            Command::Abandon => {
                let forget = Phase::Apply(Change::Forget);
                let last = ask(Action::Answer(true), Wrap::Ignore);
                lemma_two(forget, last);
                lemma_one(forget);
                lemma_one(last);
                lemma_serves_last(own);
                assert(plan =~= own);
            },
        }
    }
}

/// A request of the peer that has come is served.
proof fn lemma_session_served(
    m: Monitor,
    h: History,
    endpoint: Option<EndpointView>,
    answered: nat,
    command: Command,
    length: u64,
)
    requires
        serving(m, h, endpoint, false),
        m.waiting is None,
        m.plan.len() == 0,
        h.valid == answered,
    ensures
        ({
            let next = settled(served(m, command, length));
            let then = heard(h, Outcome::Request(command, length));
            session_at(next, then, endpoint, answered + answering(next.1))
        }),
{
    reveal(served);
    let then = heard(h, Outcome::Request(command, length));
    let next = served(m, command, length);
    lemma_serves_command(m, command, length);
    assert(!makes(m.plan, Deed::Memory));
    assert(!makes(m.plan, Deed::Machine));
    assert(m.recovery is Nothing);
    assert(takes(m.session, command) || !(command is Complete || command is Abandon));
    assert(serving(next, then, endpoint, false));
    lemma_session_settles(next, then, endpoint, answered);
}

/// Some phases come first in a session.
proof fn lemma_session_opens(
    m: Monitor,
    h: History,
    endpoint: Option<EndpointView>,
    answered: nat,
    plan: Seq<Phase>,
    config: bool,
)
    requires
        serving(m, h, endpoint, config),
        m.waiting is None,
        all_plain(plan),
        gist(plan) == if config {
            Gist { owed: 1, memory: true, machine: false, parting: true }
        } else {
            no_gist()
        },
        h.valid == answered + owed(m.plan) + if config {
            1nat
        } else {
            0nat
        },
        h.valid <= answered + 1,
        h.ended || stays_open(m.plan),
    ensures
        ({
            let next = settled(m.then_do(plan));
            session_at(next, h, endpoint, answered + answering(next.1))
        }),
{
    lemma_before(plan, m.plan, m.recovery is AnswerError);
    assert(serving(m.then_do(plan), h, endpoint, false));
    lemma_session_settles(m.then_do(plan), h, endpoint, answered);
}

/// A session, one outcome further.
proof fn lemma_session_step(
    at: (Monitor, StepView),
    h: History,
    endpoint: Option<EndpointView>,
    answered: nat,
    outcome: Outcome,
)
    requires
        session_at(at, h, endpoint, answered),
        fits(at.0, outcome),
    ensures
        ({
            let next = advanced(at.0, outcome);
            session_at(next, heard(h, outcome), endpoint, answered + answering(next.1))
        }),
{
    let rest = Monitor { waiting: None, ..at.0 };
    let waiting = at.0.waiting->0;
    if at.0.pending is Some {
        assert(rest.plan =~= Seq::empty());
    } else {
        match outcome {
            Outcome::Failed(fault) => {
                if waiting.wrap == Wrap::Ignore {
                    lemma_session_settles(rest, h, endpoint, answered);
                } else {
                    lemma_session_fails(
                        rest,
                        h,
                        endpoint,
                        answered,
                        wrapped(waiting.wrap, fault),
                    );
                }
            },
            Outcome::Request(command, length) => {
                lemma_session_served(rest, h, endpoint, answered, command, length);
            },
            Outcome::Config(config) => {
                let considered = Monitor { candidate: Some(config@), ..rest };
                lemma_migrated_gist(rest.build, config@);
                assert(serving(considered, h, endpoint, true));
                lemma_session_opens(
                    considered,
                    h,
                    endpoint,
                    answered,
                    migrated_plan(rest.build, config@),
                    true,
                );
            },
            Outcome::Number(id) => {
                lemma_void(apic_plan(id));
                lemma_session_opens(rest, h, endpoint, answered, apic_plan(id), false);
            },
            Outcome::File(bytes, fd) => {
                let next = after(rest, waiting.expect, outcome);
                assert(serving(next, h, endpoint, false));
                lemma_session_settles(next, h, endpoint, answered);
            },
            _ => {
                lemma_session_settles(rest, h, endpoint, answered);
            },
        }
    }
}

/// The beginning of a session.
proof fn lemma_session_begins(m: Monitor, data: VmReceiveMigrationData)
    requires
        m.idle(),
    ensures
        ({
            let at = taken_up(m, Request::Receive(data));
            session_at(at, history(Seq::empty()), endpoint_of(data.receiver_url@), answering(at.1))
        }),
{
    let h = history(Seq::empty());
    let url = data.receiver_url;
    let plan = receive_plan(url);
    let first = Monitor { plan, ..at_endpoint(m, url@) };
    if endpoint_of(url@) is None {
        assert(first.plan.drop_first() =~= Seq::empty());
        lemma_failed_ends(
            Monitor { plan: Seq::empty(), ..first },
            Failure::Migration(no_path_in(url)),
        );
    } else {
        let opening = plan.drop_last();
        assert(plan =~= opening + seq![next_request()]);
        lemma_void(opening);
        lemma_serves(opening);
        assert(serving(first, h, endpoint_of(url@), false));
        lemma_session_settles(first, h, endpoint_of(url@), 0);
    }
}

/// A session is somewhere on its way.
proof fn lemma_session(m: Monitor, data: VmReceiveMigrationData, outcomes: Seq<Outcome>)
    requires
        possible(m, Request::Receive(data), outcomes),
    ensures
        session_at(
            course(m, Request::Receive(data), outcomes),
            history(outcomes),
            endpoint_of(data.receiver_url@),
            answers(m, Request::Receive(data), outcomes),
        ),
    decreases outcomes.len(),
{
    let request = Request::Receive(data);
    if outcomes.len() == 0 {
        reveal(course);
        reveal(possible);
        assert(outcomes =~= Seq::empty());
        lemma_session_begins(m, data);
    } else {
        let before = outcomes.drop_last();
        lemma_step(m, request, outcomes);
        lemma_session(m, data, before);
        lemma_session_step(
            course(m, request, before),
            history(before),
            endpoint_of(data.receiver_url@),
            answers(m, request, before),
            outcomes.last(),
        );
    }
}

/// What the monitor is where a request of the peer comes in.
proof fn lemma_at_request(
    m: Monitor,
    data: VmReceiveMigrationData,
    outcomes: Seq<Outcome>,
    i: int,
)
    requires
        possible(m, Request::Receive(data), outcomes),
        0 <= i < outcomes.len(),
        outcomes[i] is Request,
    ensures
        ({
            let at = course(m, Request::Receive(data), outcomes.take(i));
            let h = history(outcomes.take(i));
            &&& awaits_request(at.0)
            &&& at.1 == StepView::Perform(Action::ReadRequest)
            &&& at.0.pending is None
            &&& at.0.reply == ReplyView::Done
            &&& at.0.recovery == Recovery::Nothing
            &&& at.0.session.started == h.started
            &&& at.0.session.memory_manager == h.configured
            &&& at.0.session.endpoint == endpoint_of(data.receiver_url@)
            &&& h.made ==> at.0.vm == Some(None::<VmConfigView>)
        }),
{
    lemma_within(m, Request::Receive(data), outcomes, i);
    lemma_session(m, data, outcomes.take(i));
    let at = course(m, Request::Receive(data), outcomes.take(i));
    assert(at.1 is Perform) by {
        lemma_over(m, Request::Receive(data), outcomes.take(i));
    }
    assert(!makes(at.0.plan, Deed::Memory));
    assert(!makes(at.0.plan, Deed::Machine));
}

/// In every session, each request of the peer that calls for an answer gets
/// one: whenever the next is awaited, and where the session ends well, there
/// have been as many answers as such requests, and in between one is missing
/// at most. An invalid request gets none. A session ends well only after a
/// request that ends it.
pub proof fn law_every_request_is_answered_once(
    m: Monitor,
    data: VmReceiveMigrationData,
    outcomes: Seq<Outcome>,
)
    requires
        possible(m, Request::Receive(data), outcomes),
    ensures
        ({
            let at = course(m, Request::Receive(data), outcomes);
            let answered = answers(m, Request::Receive(data), outcomes);
            let h = history(outcomes);
            &&& answered <= h.valid <= answered + 1
            &&& at.1 == StepView::Perform(Action::ReadRequest) && awaits_request(at.0) ==> answered
                == h.valid
            &&& at.1 matches StepView::Done(Ok(_)) ==> answered == h.valid && h.ended
        }),
{
    lemma_session(m, data, outcomes);
}

/// Whether a session does not take a request of the peer, by what has been
/// heard before: most before the start, a state or memory without a
/// configuration since the last state, and files over TCP.
pub open spec fn out_of_turn(
    h: History,
    endpoint: Option<EndpointView>,
    command: Command,
) -> bool {
    match command {
        Command::Config => !h.started,
        Command::State => !h.started || !h.configured,
        Command::Memory => !h.started || !h.configured,
        Command::MemoryFd => !h.started || !(endpoint matches Some(EndpointView::Unix(_))),
        _ => false,
    }
}

/// In every session, a request that comes out of turn is answered with no, and
/// once the peer has heard it everything is as it was before the request.
pub proof fn law_requests_out_of_turn_are_refused(
    m: Monitor,
    data: VmReceiveMigrationData,
    outcomes: Seq<Outcome>,
    i: int,
    command: Command,
    length: u64,
)
    requires
        possible(m, Request::Receive(data), outcomes),
        0 <= i < outcomes.len(),
        outcomes[i] == Outcome::Request(command, length),
        out_of_turn(history(outcomes.take(i)), endpoint_of(data.receiver_url@), command),
    ensures
        ({
            let request = Request::Receive(data);
            let before = course(m, request, outcomes.take(i));
            let refused = course(m, request, outcomes.take(i + 1));
            &&& refused.1 == StepView::Perform(Action::Answer(false))
            &&& refused.0.vm == before.0.vm
            &&& refused.0.vm_config == before.0.vm_config
            &&& i + 1 < outcomes.len() && outcomes[i + 1] == Outcome::Done ==> course(
                m,
                request,
                outcomes.take(i + 2),
            ) == before
        }),
{
    let request = Request::Receive(data);
    let before = course(m, request, outcomes.take(i));
    lemma_at_request(m, data, outcomes, i);
    lemma_within(m, request, outcomes, i);
    law_untaken_requests_are_refused(before.0, command, length);
    lemma_served_keeps(before.0, command, length);
    if i + 1 < outcomes.len() {
        lemma_within(m, request, outcomes, i + 1);
    }
}

/// A request that is not taken leaves machine and configuration.
proof fn lemma_served_keeps(m: Monitor, command: Command, length: u64)
    requires
        awaits_request(m),
        !takes(m.session, command),
    ensures
        advanced(m, Outcome::Request(command, length)).0.vm == m.vm,
        advanced(m, Outcome::Request(command, length)).0.vm_config == m.vm_config,
{
    reveal(served);
    let rest = Monitor { waiting: None, ..m };
    let refused = served(rest, command, length);
    assert(refused.plan =~= seq![answer(false)] + seq![next_request()]);
    lemma_next_ask(
        refused,
        Action::Answer(false),
        Expect::Done,
        Wrap::Migration,
        seq![next_request()],
    );
}

/// A session in which the peer gives the migration up ends well, whether the
/// peer hears the last answer or not, and leaves neither machine nor
/// configuration, so that another can be stored. No request is read after it.
pub proof fn law_abandoned_session(
    m: Monitor,
    data: VmReceiveMigrationData,
    outcomes: Seq<Outcome>,
    i: int,
    length: u64,
    config: VmConfig,
)
    requires
        possible(m, Request::Receive(data), outcomes),
        0 <= i < outcomes.len(),
        outcomes[i] == Outcome::Request(Command::Abandon, length),
    ensures
        ({
            let request = Request::Receive(data);
            let given_up = course(m, request, outcomes.take(i + 1));
            let end = course(m, request, outcomes);
            &&& given_up.1 == StepView::Perform(Action::Answer(true))
            &&& outcomes.len() <= i + 2
            &&& outcomes.len() == i + 2 ==> {
                &&& end.1 == StepView::Done(Ok(ReplyView::Done))
                &&& end.0.idle()
                &&& end.0.vm is None
                &&& end.0.vm_config is None
                &&& taken_up(end.0, Request::Create(config)).1 == StepView::Perform(
                    Action::CreateConsole,
                )
            }
        }),
{
    let request = Request::Receive(data);
    let before = course(m, request, outcomes.take(i));
    lemma_at_request(m, data, outcomes, i);
    lemma_within(m, request, outcomes, i);
    lemma_giving_up(before.0, length);
    if outcomes.len() > i + 1 {
        lemma_within(m, request, outcomes, i + 1);
        law_abandon(before.0, length, outcomes[i + 1]);
        let end = course(m, request, outcomes.take(i + 2));
        if outcomes.len() > i + 2 {
            lemma_within(m, request, outcomes, i + 2);
        }
        assert(outcomes.take(i + 2) =~= outcomes);
        lemma_can_create(end.0, config);
    }
}

/// A migration is given up.
proof fn lemma_giving_up(m: Monitor, length: u64)
    requires
        awaits_request(m),
    ensures
        advanced(m, Outcome::Request(Command::Abandon, length)).1 == StepView::Perform(
            Action::Answer(true),
        ),
{
    reveal(served);
    let abandoned = served(Monitor { waiting: None, ..m }, Command::Abandon, length);
    let last = seq![ask(Action::Answer(true), Wrap::Ignore)];
    assert(abandoned.plan =~= seq![Phase::Apply(Change::Forget)] + last);
    lemma_next_change(abandoned, Change::Forget, last);
    let forgotten = applied(Monitor { plan: last, ..abandoned }, Change::Forget);
    assert(last =~= last + Seq::empty());
    lemma_next_ask(forgotten, Action::Answer(true), Expect::Done, Wrap::Ignore, Seq::empty());
}

/// A monitor without a configuration takes one.
proof fn lemma_can_create(m: Monitor, config: VmConfig)
    requires
        m.vm_config is None,
    ensures
        taken_up(m, Request::Create(config)).1 == StepView::Perform(Action::CreateConsole),
{
    reveal_with_fuel(settled, 2);
}

/// What has been heard where no configuration comes in after a state.
proof fn lemma_used_up(outcomes: Seq<Outcome>, i: int, j: int)
    requires
        0 <= i < j <= outcomes.len(),
        outcomes[i] matches Outcome::Request(Command::State, _),
        history(outcomes.take(i)).started,
        history(outcomes.take(i)).configured,
        forall|k: int|
            i < k < j ==> (#[trigger] outcomes[k] matches Outcome::Request(command, _) ==> !(
            command is Config) && !(command is Abandon)),
    ensures
        history(outcomes.take(j)).started,
        !history(outcomes.take(j)).configured,
        history(outcomes.take(j)).made,
    decreases j,
{
    assert(outcomes.take(j).drop_last() =~= outcomes.take(j - 1));
    assert(outcomes.take(j).last() == outcomes[j - 1]);
    if j - 1 > i {
        lemma_used_up(outcomes, i, j - 1);
    }
}

/// A state uses up the configuration that came before it. As long as no other
/// comes, a further state and further memory are refused and the machine that
/// the state has made is kept, and the end of the migration resumes it.
pub proof fn law_state_uses_up_the_configuration(
    m: Monitor,
    data: VmReceiveMigrationData,
    outcomes: Seq<Outcome>,
    i: int,
    j: int,
    command: Command,
    length: u64,
)
    requires
        possible(m, Request::Receive(data), outcomes),
        0 <= i < j < outcomes.len(),
        outcomes[i] matches Outcome::Request(Command::State, _),
        takes(course(m, Request::Receive(data), outcomes.take(i)).0.session, Command::State),
        forall|k: int|
            i < k < j ==> (#[trigger] outcomes[k] matches Outcome::Request(command, _) ==> !(
            command is Config) && !(command is Abandon)),
        outcomes[j] == Outcome::Request(command, length),
    ensures
        ({
            let before = course(m, Request::Receive(data), outcomes.take(j));
            let then = course(m, Request::Receive(data), outcomes.take(j + 1));
            &&& before.0.vm == Some(None::<VmConfigView>)
            &&& command is State || command is Memory ==> {
                &&& then.1 == StepView::Perform(Action::Answer(false))
                &&& then.0.vm == Some(None::<VmConfigView>)
            }
            &&& command is Complete ==> then.1 == StepView::Perform(Action::ResumeVm)
        }),
{
    let request = Request::Receive(data);
    lemma_at_request(m, data, outcomes, i);
    lemma_at_request(m, data, outcomes, j);
    lemma_used_up(outcomes, i, j);
    lemma_within(m, request, outcomes, j);
    let before = course(m, request, outcomes.take(j));
    if command is State || command is Memory {
        law_untaken_requests_are_refused(before.0, command, length);
        lemma_served_keeps(before.0, command, length);
    }
    if command is Complete {
        law_complete(before.0, length);
    }
}

/// The end of a migration with a machine: where the machine is resumed, the
/// peer is told and the session ends well; where it is not, its error ends the
/// session.
pub proof fn law_completed_session(
    m: Monitor,
    data: VmReceiveMigrationData,
    outcomes: Seq<Outcome>,
    i: int,
    length: u64,
)
    requires
        possible(m, Request::Receive(data), outcomes),
        0 <= i < outcomes.len() - 1,
        outcomes[i] == Outcome::Request(Command::Complete, length),
        course(m, Request::Receive(data), outcomes.take(i)).0.vm is Some,
    ensures
        ({
            let request = Request::Receive(data);
            let then = course(m, request, outcomes.take(i + 2));
            &&& outcomes[i + 1] == Outcome::Done ==> then.1 == StepView::Perform(
                Action::Answer(true),
            )
            &&& outcomes[i + 1] == Outcome::Done && i + 2 < outcomes.len() && outcomes[i + 2]
                == Outcome::Done ==> course(m, request, outcomes.take(i + 3)).1 == StepView::Done(
                Ok(ReplyView::Done),
            )
            &&& outcomes[i + 1] matches Outcome::Failed(fault) ==> then.1 == StepView::Done(
                Err(Failure::Migration(MigratableError::Machine(fault))),
            )
        }),
{
    let request = Request::Receive(data);
    lemma_at_request(m, data, outcomes, i);
    lemma_within(m, request, outcomes, i);
    lemma_within(m, request, outcomes, i + 1);
    let before = course(m, request, outcomes.take(i)).0;
    lemma_completing(before, length);
    if i + 2 < outcomes.len() {
        lemma_within(m, request, outcomes, i + 2);
    }
    if let Outcome::Failed(fault) = outcomes[i + 1] {
        lemma_not_resumed(before, length, fault);
    }
}

/// A machine that cannot be resumed.
proof fn lemma_not_resumed(m: Monitor, length: u64, fault: String)
    requires
        awaits_request(m),
        m.vm is Some,
        m.pending is None,
        m.reply == ReplyView::Done,
        m.recovery == Recovery::Nothing,
    ensures
        ({
            let resuming = advanced(m, Outcome::Request(Command::Complete, length)).0;
            advanced(resuming, Outcome::Failed(fault)).1 == StepView::Done(
                Err(Failure::Migration(MigratableError::Machine(fault))),
            )
        }),
{
    lemma_completing(m, length);
    let resuming = advanced(m, Outcome::Request(Command::Complete, length)).0;
    lemma_failed_ends(Monitor { waiting: None, ..resuming }, wrapped(Wrap::Migration, fault));
}

/// The steps that complete a migration.
proof fn lemma_completing(m: Monitor, length: u64)
    requires
        awaits_request(m),
        m.vm is Some,
        m.pending is None,
        m.reply == ReplyView::Done,
        m.recovery == Recovery::Nothing,
    ensures
        ({
            let resuming = advanced(m, Outcome::Request(Command::Complete, length));
            let answered = advanced(resuming.0, Outcome::Done);
            &&& resuming.0.waiting == Some(Waiting { expect: Expect::Done, wrap: Wrap::Migration })
            &&& resuming.0.pending is None
            &&& resuming.0.recovery == Recovery::Nothing
            &&& answered.1 == StepView::Perform(Action::Answer(true))
            &&& advanced(answered.0, Outcome::Done).1 == StepView::Done(Ok(ReplyView::Done))
        }),
{
    reveal(served);
    let rest = Monitor { waiting: None, ..m };
    let completing = served(rest, Command::Complete, length);
    assert(completing.plan =~= seq![ask(Action::ResumeVm, Wrap::Migration)] + seq![answer(true)]);
    lemma_next_ask(
        completing,
        Action::ResumeVm,
        Expect::Done,
        Wrap::Migration,
        seq![answer(true)],
    );
    let resumed = Monitor { plan: seq![answer(true)], ..completing };
    assert(resumed.plan =~= seq![answer(true)] + Seq::empty());
    lemma_next_ask(resumed, Action::Answer(true), Expect::Done, Wrap::Migration, Seq::empty());
}

} // verus!
