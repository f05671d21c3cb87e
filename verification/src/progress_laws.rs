//! Requests come to an end.

use vstd::prelude::*;
use crate::config::{RestoredNetConfig, VmConfigView};
use crate::devices::info_plan;
use crate::endpoint::{endpoint_of, no_path_in, EndpointView};
use crate::error::{Context, Failure, VmError};
use crate::features::Build;
use crate::lifecycle::{
    ask, boot_plan, console_plan, cpuid_plan, events_plan, landlock_plan, provided, reboot_plan,
    restored_plan,
};
use crate::migration::{
    apic_plan, descriptors_plan, dirty_pass, dirty_plan, fail_send, length_plan, paused_plan,
    quiesce_plan, send_began, send_plan, source_cpuid_plan, table_plan, transfer_plan,
};
use crate::migration_laws::{config_sent, log_stopped, opening, state_sent};
use crate::model::{advanced, after, applied, failed, fits, recovery_plan, settled, Monitor};
use crate::plan::{
    send_error, wrapped, Action, Change, Expect, Outcome, Phase, Recovery, VmSendMigrationData,
    VmSource, Wrap,
};
use crate::run::{course, lemma_step, plan_of, possible, ready_for, Request};
use crate::straight::lemma_over;

verus! {

/// How many more things a request asks of the host once an outcome is there,
/// with what that leads to.
pub open spec fn sequel(expect: Expect) -> nat {
    match expect {
        Expect::ApicId => 1,
        Expect::Paused => 1,
        Expect::Length(_) => 2,
        Expect::Table => 4,
        Expect::Dirty(passes) => 4 + 5 * passes as nat,
        Expect::RestoredConfig { .. } => 14,
        Expect::SharedMemory(_) => 60,
        _ => 0,
    }
}

/// How many things a phase asks of the host at most, with what it leads to.
pub open spec fn cost_of(phase: Phase) -> nat {
    match phase {
        Phase::Ask(_, expect, _) => 1 + sequel(expect),
        _ => 0,
    }
}

/// How many things a plan asks of the host at most.
pub open spec fn cost(plan: Seq<Phase>) -> nat
    decreases plan.len(),
{
    if plan.len() == 0 {
        0
    } else {
        cost_of(plan[0]) + cost(plan.drop_first())
    }
}

/// Whether a phase waits for a peer, who decides how long it goes on.
pub open spec fn waits_for_peer(phase: Phase) -> bool {
    phase matches Phase::Ask(_, expect, _) && (expect is Request || expect is MigratedConfig)
}

/// How many things a request still asks of the host at most, besides the one
/// whose outcome is awaited. What follows a failure counts as long as there is
/// none.
pub open spec fn still_to_ask(m: Monitor) -> nat {
    cost(m.plan) + match m.waiting {
        Some(waiting) => sequel(waiting.expect),
        None => 0,
    } + if m.pending is None {
        3nat
    } else {
        0nat
    }
}

/// Whether a request goes on without a peer.
pub open spec fn on_its_own(m: Monitor) -> bool {
    &&& forall|i: int| 0 <= i < m.plan.len() ==> !waits_for_peer(#[trigger] m.plan[i])
    &&& m.waiting matches Some(waiting) ==> !(waiting.expect is Request
        || waiting.expect is MigratedConfig)
}

/// The costs of two plans, one after the other.
proof fn lemma_cost(head: Seq<Phase>, tail: Seq<Phase>)
    ensures
        cost(head + tail) == cost(head) + cost(tail),
    decreases head.len(),
{
    if head.len() == 0 {
        assert(head + tail =~= tail);
    } else {
        assert((head + tail).drop_first() =~= head.drop_first() + tail);
        assert((head + tail)[0] == head[0]);
        lemma_cost(head.drop_first(), tail);
    }
}

/// Phases that do not wait for a peer.
spec fn alone(plan: Seq<Phase>) -> bool {
    forall|i: int| 0 <= i < plan.len() ==> !waits_for_peer(#[trigger] plan[i])
}

/// Two plans that do not wait for a peer, one after the other.
proof fn lemma_alone(head: Seq<Phase>, tail: Seq<Phase>)
    requires
        alone(head),
        alone(tail),
    ensures
        alone(head + tail),
        cost(head + tail) == cost(head) + cost(tail),
{
    lemma_cost(head, tail);
    assert forall|i: int| 0 <= i < (head + tail).len() implies !waits_for_peer(
        #[trigger] (head + tail)[i],
    ) by {
        if i < head.len() {
            assert(!waits_for_peer(head[i]));
        } else {
            assert(!waits_for_peer(tail[i - head.len()]));
        }
    }
}

/// A bound on the cost of a plan of a kind: all its phases cost one thing at
/// most.
proof fn lemma_small_cost(plan: Seq<Phase>)
    requires
        forall|i: int| 0 <= i < plan.len() ==> cost_of(#[trigger] plan[i]) <= 1,
    ensures
        cost(plan) <= plan.len(),
    decreases plan.len(),
{
    if plan.len() > 0 {
        let rest = plan.drop_first();
        assert(cost_of(plan[0]) <= 1);
        assert forall|i: int| 0 <= i < rest.len() implies cost_of(#[trigger] rest[i]) <= 1 by {
            assert(rest[i] == plan[i + 1]);
        }
        lemma_small_cost(rest);
    }
}

/// What follows a failure costs three things at most.
proof fn lemma_recovery_cost(m: Monitor)
    ensures
        alone(recovery_plan(m)),
        cost(recovery_plan(m)) <= 3,
{
    reveal_with_fuel(cost, 7);
}

/// A request that goes on without a peer does so, and asks for no more.
proof fn lemma_settled(m: Monitor)
    requires
        alone(m.plan),
        m.waiting is None,
    ensures
        on_its_own(settled(m).0),
        settled(m).1 is Perform ==> still_to_ask(settled(m).0) + 1 <= still_to_ask(m),
    decreases
            (if m.pending is None {
                1nat
            } else {
                0nat
            }),
            m.plan.len(),
{
    if m.plan.len() > 0 {
        let rest = Monitor { plan: m.plan.drop_first(), ..m };
        assert(!waits_for_peer(m.plan[0]));
        assert forall|i: int| 0 <= i < rest.plan.len() implies !waits_for_peer(
            #[trigger] rest.plan[i],
        ) by {
            assert(rest.plan[i] == m.plan[i + 1]);
        }
        match m.plan[0] {
            Phase::Ask(_, _, _) => {},
            Phase::Apply(change) => {
                lemma_change(rest, change);
                lemma_settled(applied(rest, change));
            },
            Phase::Fail(failure) => {
                lemma_recovery_cost(rest);
                lemma_settled(failed(rest, failure));
            },
        }
    }
}

/// A change leaves the plan.
proof fn lemma_change(m: Monitor, change: Change)
    ensures
        applied(m, change).plan == m.plan,
        applied(m, change).waiting == m.waiting,
        applied(m, change).pending == m.pending,
{
}

/// What the restoring of a machine costs.
proof fn lemma_restored_cost(
    build: Build,
    config: VmConfigView,
    url: String,
    prefault: bool,
    net_fds: Option<Vec<RestoredNetConfig>>,
)
    ensures
        alone(restored_plan(build, config, url, prefault, net_fds)),
        cost(restored_plan(build, config, url, prefault, net_fds)) <= 14,
{
    reveal(restored_plan);
    let start = seq![
        ask(Action::ValidateRestore, Wrap::ConfigValidation),
        Phase::Apply(Change::AdoptNetFds(net_fds)),
        Phase::Apply(Change::OnFailure(Recovery::DeleteVm)),
        ask(Action::FetchState(url), Wrap::Restore),
    ];
    let read = provided(
        build.spec_compares_cpuid(),
        seq![ask(Action::ReadVmSnapshot, Wrap::Restore)],
    );
    let cpuid = cpuid_plan(build, config, true);
    let install = seq![Phase::Apply(Change::InstallCandidate)];
    let console = console_plan(Wrap::CreateConsoleDevices);
    let events = events_plan(build, false);
    let creation = seq![
        ask(Action::CreateVm(VmSource::Snapshot { url, prefault }), Wrap::Machine),
        Phase::Apply(Change::InstallVm),
    ];
    let landlock = landlock_plan(config.landlock_enable, Wrap::ApplyLandlock);
    let end = seq![ask(Action::RestoreVm, Wrap::Machine)];
    reveal_with_fuel(cost, 5);
    assert(cost(start) == 2);
    assert(cost(creation) == 1);
    assert(cost(console) == 1);
    assert(alone(events));
    lemma_small_cost(events);
    lemma_alone(start, read);
    lemma_alone(start + read, cpuid);
    lemma_alone(start + read + cpuid, install);
    let head = start + read + cpuid + install;
    lemma_alone(head, console);
    lemma_alone(head + console, events);
    lemma_alone(head + console + events, creation);
    lemma_alone(head + console + events + creation, landlock);
    lemma_alone(head + console + events + creation + landlock, end);
}

/// What the transfer of a machine costs.
proof fn lemma_transfer_cost(
    build: Build,
    config: VmConfigView,
    endpoint: EndpointView,
    local: bool,
)
    ensures
        alone(transfer_plan(build, config, endpoint, local)),
        cost(transfer_plan(build, config, endpoint, local)) <= 58,
{
    let cpuid = source_cpuid_plan(build, config);
    let descriptors = descriptors_plan(endpoint, local);
    let quiesce = quiesce_plan(local);
    let end = seq![ask(Action::CompleteMigration, Wrap::Migration)];
    reveal_with_fuel(cost, 7);
    assert(cost(opening(endpoint)) == 3);
    assert(cost(config_sent()) == 5);
    assert(cost(state_sent()) == 8);
    assert(cost(quiesce) <= 37);
    assert(alone(quiesce));
    assert(alone(state_sent()));
    lemma_alone(opening(endpoint), cpuid);
    lemma_alone(opening(endpoint) + cpuid, descriptors);
    let prepared = opening(endpoint) + cpuid + descriptors;
    lemma_alone(prepared, config_sent());
    lemma_alone(prepared + config_sent(), quiesce);
    lemma_alone(prepared + config_sent() + quiesce, state_sent());
    let sent = prepared + config_sent() + quiesce + state_sent();
    lemma_alone(sent, log_stopped(local));
    lemma_alone(sent + log_stopped(local), end);
}

/// What the sending of a machine costs.
proof fn lemma_send_cost(build: Build, config: VmConfigView, data: VmSendMigrationData)
    ensures
        alone(send_plan(build, config, data)),
        cost(send_plan(build, config, data)) <= 60,
{
    let first = seq![Phase::Apply(Change::OnFailure(Recovery::AbortSend { local: data.local }))];
    reveal_with_fuel(cost, 3);
    match endpoint_of(data.destination_url@) {
        Some(endpoint) => {
            let transfer = transfer_plan(build, config, endpoint, data.local);
            let last = seq![
                Phase::Apply(Change::OnFailure(Recovery::Nothing)),
                ask(Action::SignalExit, Wrap::Send(Context::SignalExit)),
            ];
            lemma_transfer_cost(build, config, endpoint, data.local);
            lemma_alone(transfer, last);
            lemma_alone(first, transfer + last);
        },
        None => {
            let fails = seq![
                Phase::Fail(Failure::Migration(no_path_in(data.destination_url))),
            ];
            lemma_alone(first, fails);
        },
    }
}

/// Phases that are put before the others.
proof fn lemma_then_do(m: Monitor, phases: Seq<Phase>)
    requires
        alone(m.plan),
        alone(phases),
    ensures
        alone(m.then_do(phases).plan),
        cost(m.then_do(phases).plan) == cost(phases) + cost(m.plan),
{
    lemma_alone(phases, m.plan);
}

/// What dirty memory costs.
proof fn lemma_dirty_cost(passes: u8, regions: u64, length: u64)
    ensures
        alone(table_plan(length)),
        cost(table_plan(length)) == 4,
        alone(dirty_plan(passes, regions, length)),
        cost(dirty_plan(passes, regions, length)) <= 4 + 5 * passes,
{
    reveal_with_fuel(cost, 5);
    let table = table_plan(length);
    assert(cost(table) == 4);
    if regions != 0 {
        if passes > 0 {
            let next = seq![dirty_pass((passes - 1) as u8)];
            lemma_alone(table, next);
            assert(cost(next) == 5 + 5 * (passes - 1));
        } else {
            assert(dirty_plan(passes, regions, length) =~= table);
        }
    }
}

/// What the beginning of a sending costs.
proof fn lemma_began_cost(m: Monitor, data: VmSendMigrationData, shared: bool)
    requires
        alone(m.plan),
    ensures
        alone(send_began(m, data, shared).plan),
        send_began(m, data, shared).waiting == m.waiting,
        send_began(m, data, shared).pending == m.pending,
        cost(send_began(m, data, shared).plan) <= cost(m.plan) + 60,
{
    reveal(send_began);
    let refused = seq![fail_send(Context::LocalNeedsSharedMemory)];
    let missing = seq![fail_send(Context::NotRunning)];
    reveal_with_fuel(cost, 2);
    lemma_alone(refused, m.plan);
    lemma_alone(missing, m.plan);
    if let Some(config) = m.machine_config() {
        lemma_send_cost(m.build, config, data);
        lemma_alone(send_plan(m.build, config, data), m.plan);
    }
}

/// A failure costs what may follow it, which is no longer counted then.
proof fn lemma_failed_cost(m: Monitor, failure: Failure)
    requires
        m.waiting is None,
    ensures
        alone(failed(m, failure).plan),
        failed(m, failure).waiting is None,
        still_to_ask(failed(m, failure)) <= still_to_ask(m),
{
    lemma_recovery_cost(m);
}

/// An outcome costs what it leads to.
proof fn lemma_after(m: Monitor, expect: Expect, outcome: Outcome)
    requires
        alone(m.plan),
        m.waiting is None,
        !(expect is Request || expect is MigratedConfig),
    ensures
        alone(after(m, expect, outcome).plan),
        after(m, expect, outcome).waiting is None,
        still_to_ask(after(m, expect, outcome)) <= still_to_ask(m) + sequel(expect),
{
    reveal_with_fuel(cost, 3);
    match (expect, outcome) {
        (Expect::Answer(context), Outcome::Refused) => lemma_failed_cost(
            m,
            Failure::Migration(send_error(context, None)),
        ),
        (Expect::RestoredConfig { url, prefault, net_fds }, Outcome::Config(config)) => {
            lemma_restored_cost(m.build, config@, url, prefault, net_fds);
            lemma_then_do(m, restored_plan(m.build, config@, url, prefault, net_fds));
        },
        (Expect::Removal(id), Outcome::Missing) => lemma_failed_cost(
            m,
            Failure::Vm(VmError::NoDeviceToRemove(id)),
        ),
        (Expect::SharedMemory(data), Outcome::Flag(shared)) => lemma_began_cost(m, data, shared),
        (Expect::ApicId, Outcome::Number(id)) => lemma_then_do(m, apic_plan(id)),
        (Expect::Length(command), Outcome::Number(length)) => lemma_then_do(
            m,
            length_plan(command, length),
        ),
        (Expect::Table, Outcome::Table(_, length)) => {
            lemma_dirty_cost(0, 0, length);
            lemma_then_do(m, table_plan(length));
        },
        (Expect::Dirty(passes), Outcome::Table(regions, length)) => {
            lemma_dirty_cost(passes, regions, length);
            lemma_then_do(m, dirty_plan(passes, regions, length));
        },
        (Expect::Paused, Outcome::State(state)) => lemma_then_do(m, paused_plan(state)),
        _ => {},
    }
}

/// An outcome brings a request nearer to its end.
pub proof fn law_outcomes_bring_the_end_nearer(m: Monitor, outcome: Outcome)
    requires
        on_its_own(m),
        fits(m, outcome),
    ensures
        on_its_own(advanced(m, outcome).0),
        advanced(m, outcome).1 is Perform ==> still_to_ask(advanced(m, outcome).0) + 1
            <= still_to_ask(m),
{
    let waiting = m.waiting->0;
    let rest = Monitor { waiting: None, ..m };
    match outcome {
        Outcome::Failed(fault) => {
            if waiting.wrap == Wrap::Ignore {
                lemma_settled(rest);
            } else {
                lemma_failed_cost(rest, wrapped(waiting.wrap, fault));
                lemma_settled(failed(rest, wrapped(waiting.wrap, fault)));
            }
        },
        _ => {
            lemma_after(rest, waiting.expect, outcome);
            lemma_settled(after(rest, waiting.expect, outcome));
        },
    }
}

/// What a request costs.
proof fn lemma_request_cost(m: Monitor, request: Request)
    requires
        !(request is Receive),
    ensures
        alone(plan_of(m, request)),
        cost(plan_of(m, request)) <= 61,
{
    match request {
        Request::Boot => lemma_boot_cost(m),
        Request::Reboot => lemma_reboot_cost(m),
        Request::Info => lemma_info_cost(m),
        _ => {
            reveal_with_fuel(cost, 9);
        },
    }
}

/// What a boot costs.
proof fn lemma_boot_cost(m: Monitor)
    ensures
        alone(boot_plan(m)),
        cost(boot_plan(m)) <= 61,
{
    let plan = boot_plan(m);
    let console = provided(!m.console_info, console_plan(Wrap::CreateConsoleDevices));
    let events = events_plan(m.build, false);
    assert(events.len() <= 4);
    assert forall|i: int| 0 <= i < plan.len() implies cost_of(#[trigger] plan[i]) <= 1
        && !waits_for_peer(plan[i]) by {
        let start = 1 + console.len() as int;
        if m.vm_config is Some && m.vm is None && start <= i < start + events.len() {
            assert(plan[i] == events[i - start]);
        }
    }
    lemma_small_cost(plan);
}

/// What a reboot costs.
proof fn lemma_reboot_cost(m: Monitor)
    ensures
        alone(reboot_plan(m)),
        cost(reboot_plan(m)) <= 61,
{
    let plan = reboot_plan(m);
    let events = events_plan(m.build, false);
    assert(events.len() <= 4);
    assert forall|i: int| 0 <= i < plan.len() implies cost_of(#[trigger] plan[i]) <= 1
        && !waits_for_peer(plan[i]) by {
        if m.vm is Some && 4 <= i < 4 + events.len() {
            assert(plan[i] == events[i - 4]);
        }
    }
    lemma_small_cost(plan);
}

/// What a report costs.
proof fn lemma_info_cost(m: Monitor)
    ensures
        alone(info_plan(m)),
        cost(info_plan(m)) <= 61,
{
    lemma_small_cost(info_plan(m));
}

/// Every request but the taking in of a migration, which the peer draws out,
/// comes to an end: it asks a bounded number of things of the host, whatever
/// the host reports.
pub proof fn law_requests_end(m: Monitor, request: Request, outcomes: Seq<Outcome>)
    requires
        !(request is Receive),
        possible(m, request, outcomes),
    ensures
        outcomes.len() <= 64,
{
    lemma_progress(m, request, outcomes);
}

/// The more outcomes have come, the less is left.
proof fn lemma_progress(m: Monitor, request: Request, outcomes: Seq<Outcome>)
    requires
        !(request is Receive),
        possible(m, request, outcomes),
    ensures
        on_its_own(course(m, request, outcomes).0),
        outcomes.len() <= 64,
        course(m, request, outcomes).1 is Perform ==> outcomes.len() + 1 + still_to_ask(
            course(m, request, outcomes).0,
        ) <= 64,
    decreases outcomes.len(),
{
    if outcomes.len() == 0 {
        reveal(course);
        reveal(possible);
        lemma_request_cost(m, request);
        lemma_settled(Monitor { plan: plan_of(m, request), ..ready_for(m, request) });
    } else {
        let earlier = outcomes.drop_last();
        lemma_step(m, request, outcomes);
        lemma_progress(m, request, earlier);
        lemma_over(m, request, earlier);
        law_outcomes_bring_the_end_nearer(course(m, request, earlier).0, outcomes.last());
    }
}

} // verus!
