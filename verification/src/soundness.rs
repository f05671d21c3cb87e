//! What holds of the monitor at all times: a machine has a configuration.

use vstd::prelude::*;
use crate::config::{RestoredNetConfig, VmConfig, VmConfigView};
use crate::endpoint::endpoint_of;
use crate::error::{Context, Failure, VmError};
use crate::features::Build;
use crate::lifecycle::{
    boot_plan, console_plan, cpuid_plan, create_plan, delete_plan, events_plan, landlock_plan,
    provided, reboot_plan, restored_plan, shutdown_plan, vmm_shutdown_plan,
};
use crate::migration::{
    abort_plan, answer, answer_error_plan, apic_plan, command_plan, dirty_plan, length_plan,
    migrated_plan, next_request, paused_plan, send_began, send_plan, served, session_after,
    state_plan, table_plan, takes, topology_plan, transfer_plan,
};
use crate::migration_laws::lemma_transfer;
use crate::model::{
    advanced, after, applied, failed, fits, recovery_plan, settled, with_changed_config, Monitor,
};
use crate::plan::{
    send_error, wrapped, Action, Change, Command, Expect, Notice, Outcome, Phase, Recovery,
    VmSendMigrationData, VmSource, VmState, Wrap,
};
use crate::run::{course, plan_of, possible, ready_for, taken_up, Request};

verus! {

/// What there is.
pub struct Stock {
    /// A machine.
    pub vm: bool,
    /// A configuration.
    pub config: bool,
    /// A candidate for a configuration.
    pub candidate: bool,
    /// A machine that the request has let go of.
    pub retired: bool,
    /// A memory manager for a machine to come.
    pub memory: bool,
}

/// What the monitor has.
pub open spec fn stock(m: Monitor) -> Stock {
    Stock {
        vm: m.vm is Some,
        config: m.vm_config is Some,
        candidate: m.candidate is Some,
        retired: m.retired is Some,
        memory: m.session.memory_manager,
    }
}

impl Stock {
    /// Whether a machine has a configuration.
    pub open spec fn sound(self) -> bool {
        self.vm ==> self.config
    }
}

/// What there is after a change.
pub open spec fn stock_after(s: Stock, change: Change) -> Stock {
    match change {
        Change::StoreConfig(_) => Stock { config: true, ..s },
        Change::ClearConfig => Stock { config: false, ..s },
        Change::InstallCandidate => Stock { config: s.candidate, candidate: false, ..s },
        Change::InstallVm => Stock { vm: true, ..s },
        Change::RetireVm => Stock { vm: false, retired: s.vm, ..s },
        Change::ReinstallVm => Stock { vm: s.retired, retired: false, ..s },
        Change::Forget => Stock { vm: false, config: false, ..s },
        Change::MemoryManagerReady => Stock { memory: true, ..s },
        _ => s,
    }
}

/// Whether an outcome is followed by phases that are not planned yet.
pub open spec fn opens_up(expect: Expect) -> bool {
    expect is RestoredConfig || expect is MigratedConfig || expect is Request
        || expect is SharedMemory || expect is Removal
}

/// Whether what is planned after an outcome is what has to be.
pub open spec fn sound_after(s: Stock, expect: Expect, rest: Seq<Phase>) -> bool {
    match expect {
        Expect::MigratedConfig => rest == seq![next_request()],
        Expect::Request => rest.len() == 0 && (s.memory ==> s.config),
        Expect::RestoredConfig { .. } => rest.len() == 0,
        Expect::SharedMemory(_) => rest.len() == 0,
        Expect::Removal(_) => rest.len() == 0,
        _ => true,
    }
}

/// Whether a plan keeps things sound, at every point where it may stop or
/// fail.
pub open spec fn keeps_sound(s: Stock, plan: Seq<Phase>) -> bool
    decreases plan.len(),
{
    s.sound() && (plan.len() > 0 ==> match plan[0] {
        Phase::Ask(_, expect, wrap) => if opens_up(expect) {
            wrap != Wrap::Ignore && sound_after(s, expect, plan.drop_first())
        } else {
            keeps_sound(s, plan.drop_first())
        },
        Phase::Apply(change) => keeps_sound(stock_after(s, change), plan.drop_first()),
        Phase::Fail(_) => true,
    })
}

/// What there is at the end of a plan.
spec fn stock_at_end(s: Stock, plan: Seq<Phase>) -> Stock
    decreases plan.len(),
{
    if plan.len() == 0 {
        s
    } else {
        match plan[0] {
            Phase::Apply(change) => stock_at_end(stock_after(s, change), plan.drop_first()),
            _ => stock_at_end(s, plan.drop_first()),
        }
    }
}

/// Whether the monitor has a configuration for its machine, and goes on like
/// that whatever comes.
pub open spec fn sound(m: Monitor) -> bool {
    match m.waiting {
        None => keeps_sound(stock(m), m.plan),
        Some(waiting) => stock(m).sound() && if opens_up(waiting.expect) {
            waiting.wrap != Wrap::Ignore && sound_after(stock(m), waiting.expect, m.plan)
        } else {
            keeps_sound(stock(m), m.plan)
        },
    }
}

/// A phase after which the plan goes on as it stands.
spec fn plain(phase: Phase) -> bool {
    phase matches Phase::Ask(_, expect, _) ==> !opens_up(expect)
}

/// A phase that leaves what there is.
spec fn neutral(phase: Phase) -> bool {
    &&& plain(phase)
    &&& phase matches Phase::Apply(change) ==> !(change is StoreConfig || change is ClearConfig
        || change is InstallCandidate || change is InstallVm || change is RetireVm
        || change is ReinstallVm || change is Forget || change is MemoryManagerReady)
}

/// Neutral phases keep what there is.
proof fn lemma_neutral(s: Stock, plan: Seq<Phase>)
    requires
        s.sound(),
        forall|i: int| 0 <= i < plan.len() ==> neutral(#[trigger] plan[i]),
    ensures
        keeps_sound(s, plan),
        stock_at_end(s, plan) == s,
    decreases plan.len(),
{
    if plan.len() > 0 {
        let rest = plan.drop_first();
        assert(neutral(plan[0]));
        assert forall|i: int| 0 <= i < rest.len() implies neutral(#[trigger] rest[i]) by {
            assert(rest[i] == plan[i + 1]);
        }
        lemma_neutral(s, rest);
    }
}

/// Two plans, one after the other.
proof fn lemma_chain(s: Stock, head: Seq<Phase>, tail: Seq<Phase>)
    requires
        keeps_sound(s, head),
        keeps_sound(stock_at_end(s, head), tail),
        forall|i: int| 0 <= i < head.len() ==> plain(#[trigger] head[i]),
    ensures
        keeps_sound(s, head + tail),
        stock_at_end(s, head + tail) == stock_at_end(stock_at_end(s, head), tail),
    decreases head.len(),
{
    if head.len() == 0 {
        assert(head + tail =~= tail);
    } else {
        let rest = head.drop_first();
        assert((head + tail).drop_first() =~= rest + tail);
        assert((head + tail)[0] == head[0]);
        assert(plain(head[0]));
        assert forall|i: int| 0 <= i < rest.len() implies plain(#[trigger] rest[i]) by {
            assert(rest[i] == head[i + 1]);
        }
        match head[0] {
            Phase::Ask(_, _, _) => lemma_chain(s, rest, tail),
            Phase::Apply(change) => lemma_chain(stock_after(s, change), rest, tail),
            Phase::Fail(_) => lemma_chain_end(s, rest, tail),
        }
    }
}

/// What there is at the end of two plans, one after the other.
proof fn lemma_chain_end(s: Stock, head: Seq<Phase>, tail: Seq<Phase>)
    ensures
        stock_at_end(s, head + tail) == stock_at_end(stock_at_end(s, head), tail),
    decreases head.len(),
{
    if head.len() == 0 {
        assert(head + tail =~= tail);
    } else {
        let rest = head.drop_first();
        assert((head + tail).drop_first() =~= rest + tail);
        assert((head + tail)[0] == head[0]);
        match head[0] {
            Phase::Apply(change) => lemma_chain_end(stock_after(s, change), rest, tail),
            _ => lemma_chain_end(s, rest, tail),
        }
    }
}

/// A change does to the monitor what it does to what there is.
proof fn lemma_stock_after(m: Monitor, change: Change)
    ensures
        stock(applied(m, change)) == stock_after(stock(m), change),
        applied(m, change).plan == m.plan,
        applied(m, change).waiting == m.waiting,
        applied(m, change).pending == m.pending,
{
}

/// Phases that all leave what there is.
spec fn all_neutral(plan: Seq<Phase>) -> bool {
    forall|i: int| 0 <= i < plan.len() ==> neutral(#[trigger] plan[i])
}

/// Two plans of neutral phases, one after the other.
proof fn lemma_neutral_chain(head: Seq<Phase>, tail: Seq<Phase>)
    requires
        all_neutral(head),
        all_neutral(tail),
    ensures
        all_neutral(head + tail),
{
    assert forall|i: int| 0 <= i < (head + tail).len() implies neutral(
        #[trigger] (head + tail)[i],
    ) by {
        if i < head.len() {
            assert(neutral(head[i]));
        } else {
            assert(neutral(tail[i - head.len()]));
        }
    }
}

/// Neutral phases before a plan.
proof fn lemma_neutral_before(s: Stock, head: Seq<Phase>, tail: Seq<Phase>)
    requires
        all_neutral(head),
        keeps_sound(s, tail),
    ensures
        keeps_sound(s, head + tail),
        stock_at_end(s, head + tail) == stock_at_end(s, tail),
{
    lemma_neutral(s, head);
    lemma_chain(s, head, tail);
}

/// The pieces that most plans are made of are neutral.
proof fn lemma_neutral_pieces(build: Build, config: VmConfigView, wrap: Wrap, flag: bool)
    ensures
        all_neutral(console_plan(wrap)),
        all_neutral(landlock_plan(flag, wrap)),
        all_neutral(events_plan(build, flag)),
        all_neutral(cpuid_plan(build, config, flag)),
        all_neutral(topology_plan(build, config.cpus.topology)),
{
}

/// The deletion of a machine keeps things sound, and so does whatever else
/// follows a failure.
proof fn lemma_recovery(m: Monitor)
    requires
        stock(m).sound(),
    ensures
        keeps_sound(stock(m), recovery_plan(m)),
        keeps_sound(stock(m), delete_plan(m)),
{
    reveal_with_fuel(keeps_sound, 7);
    assert(keeps_sound(stock(m), delete_plan(m)));
    match m.recovery {
        Recovery::AnswerError => lemma_neutral(stock(m), answer_error_plan()),
        Recovery::AbortSend { local } => lemma_neutral(stock(m), abort_plan(local)),
        _ => {},
    }
}

/// A plan that keeps things sound keeps the monitor sound.
proof fn lemma_settled(m: Monitor)
    requires
        m.waiting is None,
        keeps_sound(stock(m), m.plan),
    ensures
        sound(settled(m).0),
    decreases
            (if m.pending is None {
                1nat
            } else {
                0nat
            }),
            m.plan.len(),
{
    if m.plan.len() > 0 {
        let rest = Monitor { plan: m.plan.drop_first(), ..m };
        match m.plan[0] {
            Phase::Ask(_, _, _) => {},
            Phase::Apply(change) => {
                lemma_stock_after(rest, change);
                lemma_settled(applied(rest, change));
            },
            Phase::Fail(failure) => {
                lemma_recovery(rest);
                lemma_settled(failed(rest, failure));
            },
        }
    }
}

/// The restoring of a machine keeps things sound.
proof fn lemma_restored(
    s: Stock,
    build: Build,
    config: VmConfigView,
    url: String,
    prefault: bool,
    net_fds: Option<Vec<RestoredNetConfig>>,
)
    requires
        s.sound(),
        s.candidate,
    ensures
        keeps_sound(s, restored_plan(build, config, url, prefault, net_fds)),
{
    reveal(restored_plan);
    let start = seq![
        Phase::Ask(Action::ValidateRestore, Expect::Done, Wrap::ConfigValidation),
        Phase::Apply(Change::AdoptNetFds(net_fds)),
        Phase::Apply(Change::OnFailure(Recovery::DeleteVm)),
        Phase::Ask(Action::FetchState(url), Expect::Done, Wrap::Restore),
    ];
    let read = provided(
        build.spec_compares_cpuid(),
        seq![Phase::Ask(Action::ReadVmSnapshot, Expect::Done, Wrap::Restore)],
    );
    let cpuid = cpuid_plan(build, config, true);
    let install = seq![Phase::Apply(Change::InstallCandidate)];
    let console = console_plan(Wrap::CreateConsoleDevices);
    let events = events_plan(build, false);
    let creation = seq![
        Phase::Ask(
            Action::CreateVm(VmSource::Snapshot { url, prefault }),
            Expect::Done,
            Wrap::Machine,
        ),
        Phase::Apply(Change::InstallVm),
    ];
    let landlock = landlock_plan(config.landlock_enable, Wrap::ApplyLandlock);
    let end = seq![Phase::Ask(Action::RestoreVm, Expect::Done, Wrap::Machine)];
    lemma_neutral_pieces(build, config, Wrap::CreateConsoleDevices, true);
    lemma_neutral_pieces(build, config, Wrap::ApplyLandlock, config.landlock_enable);
    lemma_neutral_pieces(build, config, Wrap::ApplyLandlock, false);
    lemma_neutral_chain(start, read);
    lemma_neutral_chain(start + read, cpuid);
    let first = start + read + cpuid;
    lemma_neutral(s, first);
    reveal_with_fuel(keeps_sound, 3);
    reveal_with_fuel(stock_at_end, 3);
    lemma_chain(s, first, install);
    let with_config = stock_after(s, Change::InstallCandidate);
    assert(stock_at_end(s, install) == with_config);
    lemma_neutral(with_config, console);
    lemma_chain(s, first + install, console);
    lemma_neutral(with_config, events);
    lemma_chain(s, first + install + console, events);
    let with_vm = Stock { vm: true, ..with_config };
    assert(stock_at_end(with_config, creation) == with_vm);
    lemma_chain(s, first + install + console + events, creation);
    lemma_neutral(with_vm, landlock);
    lemma_chain(s, first + install + console + events + creation, landlock);
    lemma_neutral(with_vm, end);
    lemma_chain(s, first + install + console + events + creation + landlock, end);
}

/// The taking in of a configuration keeps things sound.
proof fn lemma_migrated(s: Stock, build: Build, config: VmConfigView)
    requires
        s.sound(),
        s.candidate,
    ensures
        keeps_sound(s, migrated_plan(build, config) + seq![next_request()]),
{
    reveal(migrated_plan);
    let cpuid = cpuid_plan(build, config, false);
    let install = seq![Phase::Apply(Change::InstallCandidate)];
    let console = console_plan(Wrap::Receive(Context::CreateConsole));
    let landlock = landlock_plan(
        config.landlock_enable,
        Wrap::Receive(Context::ApplyLandlock),
    );
    let machine = seq![
        Phase::Ask(
            Action::CreateHypervisorVm,
            Expect::Done,
            Wrap::Receive(Context::CreateHypervisorVm),
        ),
    ];
    let topology = topology_plan(build, config.cpus.topology);
    let memory = seq![
        Phase::Ask(
            Action::CreateMemoryManager(config.cpus.max_phys_bits),
            Expect::Done,
            Wrap::Receive(Context::CreateMemoryManager),
        ),
        answer(true),
        Phase::Apply(Change::MemoryManagerReady),
    ];
    lemma_neutral_pieces(build, config, Wrap::Receive(Context::CreateConsole), false);
    lemma_neutral_pieces(
        build,
        config,
        Wrap::Receive(Context::ApplyLandlock),
        config.landlock_enable,
    );
    lemma_neutral(s, cpuid);
    reveal_with_fuel(keeps_sound, 4);
    reveal_with_fuel(stock_at_end, 4);
    lemma_chain(s, cpuid, install);
    let with_config = stock_after(s, Change::InstallCandidate);
    assert(stock_at_end(s, install) == with_config);
    lemma_neutral(with_config, console);
    lemma_chain(s, cpuid + install, console);
    lemma_neutral(with_config, landlock);
    lemma_chain(s, cpuid + install + console, landlock);
    lemma_neutral(with_config, machine);
    lemma_chain(s, cpuid + install + console + landlock, machine);
    lemma_neutral(with_config, topology);
    lemma_chain(s, cpuid + install + console + landlock + machine, topology);
    let with_memory = Stock { memory: true, ..with_config };
    assert(stock_at_end(with_config, memory) == with_memory);
    lemma_chain(s, cpuid + install + console + landlock + machine + topology, memory);
    assert(keeps_sound(with_memory, seq![next_request()]));
    lemma_chain(s, migrated_plan(build, config), seq![next_request()]);
}

/// The sending of a machine leaves what there is.
proof fn lemma_send(build: Build, config: VmConfigView, data: VmSendMigrationData)
    ensures
        all_neutral(send_plan(build, config, data)),
{
    if let Some(endpoint) = endpoint_of(data.destination_url@) {
        lemma_transfer(build, config, endpoint, data.local, |phase: Phase| neutral(phase));
        lemma_neutral_chain(
            transfer_plan(build, config, endpoint, data.local),
            seq![
                Phase::Apply(Change::OnFailure(Recovery::Nothing)),
                Phase::Ask(Action::SignalExit, Expect::Done, Wrap::Send(Context::SignalExit)),
            ],
        );
    }
}

/// What is done for a request of the peer keeps things sound.
proof fn lemma_command(m: Monitor, command: Command, length: u64)
    requires
        stock(m).sound(),
        m.session.memory_manager ==> m.vm_config is Some,
        takes(m.session, command),
    ensures
        keeps_sound(
            stock(Monitor { session: session_after(m.session, command), ..m }),
            command_plan(m, command, length) + provided(
                !(command is Complete || command is Abandon),
                seq![next_request()],
            ),
        ),
{
    let s = stock(Monitor { session: session_after(m.session, command), ..m });
    let plan = command_plan(m, command, length);
    let more = provided(
        !(command is Complete || command is Abandon),
        seq![next_request()],
    );
    reveal_with_fuel(keeps_sound, 3);
    reveal_with_fuel(stock_at_end, 3);
    assert(keeps_sound(s, seq![next_request()]));
    match command {
        Command::Invalid => {
            assert(plan + more =~= more);
        },
        Command::Config => {
            assert((plan + more).drop_first().drop_first() =~= seq![next_request()]);
            assert(keeps_sound(s, plan + more));
        },
        Command::State => {
            lemma_state(s, m.build, length);
        },
        Command::Abandon => {
            assert(plan + more =~= plan);
            assert(keeps_sound(s, plan));
        },
        _ => {
            assert(all_neutral(plan));
            lemma_neutral_before(s, plan, more);
        },
    }
}

/// The taking in of a machine's state keeps things sound.
proof fn lemma_state(s: Stock, build: Build, length: u64)
    requires
        s.config,
        !s.memory,
    ensures
        keeps_sound(s, state_plan(build, length) + seq![next_request()]),
{
    let payload = seq![
        Phase::Ask(Action::ReadPayload(length), Expect::Done, Wrap::Socket),
        Phase::Ask(
            Action::DecodeSnapshot,
            Expect::Done,
            Wrap::Receive(Context::DecodeSnapshot),
        ),
    ];
    let events = events_plan(build, true);
    let machine = seq![
        Phase::Ask(
            Action::CreateVm(VmSource::Migration),
            Expect::Done,
            Wrap::Receive(Context::CreateVm),
        ),
        Phase::Apply(Change::OnFailure(Recovery::AnswerError)),
        Phase::Ask(Action::RestoreVm, Expect::Done, Wrap::Receive(Context::RestoreVm)),
        Phase::Apply(Change::OnFailure(Recovery::Nothing)),
        Phase::Apply(Change::InstallVm),
        answer(true),
    ];
    let with_vm = Stock { vm: true, ..s };
    reveal_with_fuel(keeps_sound, 7);
    reveal_with_fuel(stock_at_end, 7);
    assert(all_neutral(payload));
    assert(all_neutral(events));
    lemma_neutral(s, payload);
    lemma_neutral(s, events);
    lemma_chain(s, payload, events);
    assert(keeps_sound(s, machine));
    assert(stock_at_end(s, machine) == with_vm);
    lemma_chain(s, payload + events, machine);
    assert(keeps_sound(with_vm, seq![next_request()]));
    lemma_chain(s, state_plan(build, length), seq![next_request()]);
}

/// A request of the peer keeps things sound.
proof fn lemma_served(m: Monitor, command: Command, length: u64)
    requires
        stock(m).sound(),
        sound_after(stock(m), Expect::Request, m.plan),
    ensures
        keeps_sound(stock(served(m, command, length)), served(m, command, length).plan),
        served(m, command, length).waiting == m.waiting,
{
    reveal(served);
    if takes(m.session, command) {
        lemma_command(m, command, length);
        let plan = command_plan(m, command, length) + provided(
            !(command is Complete || command is Abandon),
            seq![next_request()],
        );
        assert(plan + m.plan =~= plan);
    } else {
        let plan = seq![answer(false), next_request()];
        reveal_with_fuel(keeps_sound, 3);
        assert(plan + m.plan =~= plan);
        assert(keeps_sound(stock(m), plan));
    }
}

/// Whether what is planned after an outcome keeps things sound.
spec fn sound_before(m: Monitor, expect: Expect) -> bool {
    &&& m.waiting is None
    &&& stock(m).sound()
    &&& if opens_up(expect) {
        sound_after(stock(m), expect, m.plan)
    } else {
        keeps_sound(stock(m), m.plan)
    }
}

/// Whether the monitor keeps things sound as it goes on.
spec fn sound_at(m: Monitor) -> bool {
    m.waiting is None && keeps_sound(stock(m), m.plan)
}

/// A failure keeps things sound.
proof fn lemma_failed(m: Monitor, failure: Failure)
    requires
        m.waiting is None,
        stock(m).sound(),
    ensures
        sound_at(failed(m, failure)),
{
    lemma_recovery(m);
}

/// A configuration to restore keeps things sound.
proof fn lemma_after_restored(
    m: Monitor,
    url: String,
    prefault: bool,
    net_fds: Option<Vec<RestoredNetConfig>>,
    config: VmConfig,
)
    requires
        sound_before(m, Expect::RestoredConfig { url, prefault, net_fds }),
    ensures
        sound_at(
            after(m, Expect::RestoredConfig { url, prefault, net_fds }, Outcome::Config(config)),
        ),
{
    let plan = restored_plan(m.build, config@, url, prefault, net_fds);
    let s = Stock { candidate: true, ..stock(m) };
    lemma_restored(s, m.build, config@, url, prefault, net_fds);
    assert(plan + m.plan =~= plan);
}

/// A configuration that a migration brought keeps things sound.
proof fn lemma_after_migrated(m: Monitor, config: VmConfig)
    requires
        sound_before(m, Expect::MigratedConfig),
    ensures
        sound_at(after(m, Expect::MigratedConfig, Outcome::Config(config))),
{
    lemma_migrated(Stock { candidate: true, ..stock(m) }, m.build, config@);
}

/// The beginning of a sending keeps things sound.
proof fn lemma_after_shared(m: Monitor, data: VmSendMigrationData, shared: bool)
    requires
        sound_before(m, Expect::SharedMemory(data)),
    ensures
        sound_at(send_began(m, data, shared)),
{
    reveal(send_began);
    let began = send_began(m, data, shared);
    if let Some(config) = m.machine_config() {
        lemma_send(m.build, config, data);
        assert(send_plan(m.build, config, data) + m.plan =~= send_plan(m.build, config, data));
    }
    assert(all_neutral(began.plan));
    lemma_neutral(stock(m), began.plan);
}

/// Neutral phases that are put before the others keep things sound.
proof fn lemma_then_do(m: Monitor, phases: Seq<Phase>)
    requires
        sound_at(m),
        all_neutral(phases),
    ensures
        sound_at(m.then_do(phases)),
{
    lemma_neutral_before(stock(m), phases, m.plan);
}

/// A number keeps things sound.
proof fn lemma_after_number(m: Monitor, expect: Expect, number: u64)
    requires
        sound_before(m, expect),
        !opens_up(expect),
    ensures
        sound_at(after(m, expect, Outcome::Number(number))),
{
    match expect {
        Expect::ApicId => lemma_then_do(m, apic_plan(number)),
        Expect::Length(command) => lemma_then_do(m, length_plan(command, number)),
        _ => {},
    }
}

/// A table of memory keeps things sound.
proof fn lemma_after_table(m: Monitor, expect: Expect, regions: u64, length: u64)
    requires
        sound_before(m, expect),
        !opens_up(expect),
    ensures
        sound_at(after(m, expect, Outcome::Table(regions, length))),
{
    match expect {
        Expect::Table => lemma_then_do(m, table_plan(length)),
        Expect::Dirty(passes) => lemma_then_do(m, dirty_plan(passes, regions, length)),
        _ => {},
    }
}

/// A state of the machine keeps things sound.
proof fn lemma_after_state(m: Monitor, expect: Expect, state: VmState)
    requires
        sound_before(m, expect),
        !opens_up(expect),
    ensures
        sound_at(after(m, expect, Outcome::State(state))),
{
    match expect {
        Expect::Paused => lemma_then_do(m, paused_plan(state)),
        _ => {},
    }
}

/// What follows an outcome that opens up the plan keeps things sound.
proof fn lemma_after_opening(m: Monitor, expect: Expect, outcome: Outcome)
    requires
        sound_before(m, expect),
        opens_up(expect),
        pairs(expect, outcome),
    ensures
        sound_at(after(m, expect, outcome)),
{
    match (expect, outcome) {
        (
            Expect::RestoredConfig { url, prefault, net_fds },
            Outcome::Config(config),
        ) => lemma_after_restored(m, url, prefault, net_fds, config),
        (Expect::MigratedConfig, Outcome::Config(config)) => lemma_after_migrated(m, config),
        (Expect::Removal(id), Outcome::Missing) => lemma_failed(
            m,
            Failure::Vm(VmError::NoDeviceToRemove(id)),
        ),
        (Expect::SharedMemory(data), Outcome::Flag(shared)) => lemma_after_shared(m, data, shared),
        (Expect::Request, Outcome::Request(command, length)) => lemma_served(m, command, length),
        _ => {},
    }
}

/// Whether an outcome that opens up the plan is one that can be.
spec fn pairs(expect: Expect, outcome: Outcome) -> bool {
    match expect {
        Expect::RestoredConfig { .. } => outcome is Config,
        Expect::MigratedConfig => outcome is Config,
        Expect::Removal(_) => outcome is Removed || outcome is Missing,
        Expect::SharedMemory(_) => outcome is Flag,
        Expect::Request => outcome is Request,
        _ => true,
    }
}

/// What follows an outcome keeps things sound.
proof fn lemma_after(m: Monitor, expect: Expect, outcome: Outcome)
    requires
        sound_before(m, expect),
        pairs(expect, outcome),
    ensures
        sound_at(after(m, expect, outcome)),
{
    if opens_up(expect) {
        lemma_after_opening(m, expect, outcome);
    } else {
        match outcome {
            Outcome::Number(number) => lemma_after_number(m, expect, number),
            Outcome::Table(regions, length) => lemma_after_table(m, expect, regions, length),
            Outcome::State(state) => lemma_after_state(m, expect, state),
            Outcome::Refused => if let Expect::Answer(context) = expect {
                lemma_failed(m, Failure::Migration(send_error(context, None)));
            },
            _ => {},
        }
    }
}

/// An outcome keeps the monitor sound: whatever the host reports, a machine
/// has a configuration.
pub proof fn law_outcomes_keep_sound(m: Monitor, outcome: Outcome)
    requires
        sound(m),
        fits(m, outcome),
    ensures
        sound(advanced(m, outcome).0),
{
    let waiting = m.waiting->0;
    let rest = Monitor { waiting: None, ..m };
    match outcome {
        Outcome::Failed(fault) => {
            if waiting.wrap == Wrap::Ignore {
                lemma_settled(rest);
            } else {
                lemma_recovery(rest);
                lemma_settled(failed(rest, wrapped(waiting.wrap, fault)));
            }
        },
        _ => {
            lemma_after(rest, waiting.expect, outcome);
            lemma_settled(after(rest, waiting.expect, outcome));
        },
    }
}

/// The plans that leave what there is.
proof fn lemma_neutral_requests(m: Monitor, request: Request)
    requires
        request is Pause || request is Resume || request is Snapshot || request is Coredump
            || request is Info || request is Resize || request is ResizeZone || request is Add
            || request is Counters || request is PowerButton || request is Nmi,
    ensures
        all_neutral(plan_of(m, request)),
{
}

/// The creation of a machine keeps things sound.
proof fn lemma_create(m: Monitor, config: VmConfig)
    requires
        stock(m).sound(),
    ensures
        keeps_sound(stock(m), create_plan(m, config)),
{
    let s = stock(m);
    let store = seq![Phase::Apply(Change::StoreConfig(config))];
    let console = console_plan(Wrap::CreateConsoleDevices);
    let landlock = landlock_plan(config.landlock_enable, Wrap::ApplyLandlock);
    reveal_with_fuel(keeps_sound, 2);
    reveal_with_fuel(stock_at_end, 2);
    let with_config = Stock { config: true, ..s };
    assert(stock_at_end(s, store) == with_config);
    lemma_neutral(with_config, console);
    lemma_chain(s, store, console);
    lemma_neutral(with_config, landlock);
    lemma_chain(s, store + console, landlock);
}

/// The boot of a machine keeps things sound.
proof fn lemma_boot(m: Monitor)
    requires
        stock(m).sound(),
    ensures
        keeps_sound(stock(m), boot_plan(m)),
{
    let s = stock(m);
    let announced = seq![Phase::Apply(Change::Note(Notice::Booting))];
    reveal_with_fuel(keeps_sound, 3);
    reveal_with_fuel(stock_at_end, 3);
    if m.vm_config is None {
        lemma_neutral(s, boot_plan(m));
    } else {
        let console = provided(!m.console_info, console_plan(Wrap::CreateConsoleDevices));
        let events = events_plan(m.build, false);
        let creation = seq![
            Phase::Ask(Action::CreateVm(VmSource::Fresh), Expect::Done, Wrap::Machine),
            Phase::Apply(Change::InstallVm),
        ];
        let machine = provided(m.vm is None, events + creation);
        let boot = seq![
            Phase::Ask(Action::BootVm, Expect::Done, Wrap::Machine),
            Phase::Apply(Change::Note(Notice::Booted)),
        ];
        let with_vm = Stock { vm: true, ..s };
        lemma_neutral(s, announced);
        lemma_neutral(s, console);
        lemma_neutral(s, events);
        assert(stock_at_end(s, creation) == with_vm);
        lemma_chain(s, events, creation);
        assert(keeps_sound(s, machine));
        assert(stock_at_end(s, machine) == with_vm);
        lemma_chain(s, console, machine);
        lemma_neutral(with_vm, boot);
        lemma_chain(s, console + machine, boot);
        lemma_chain(s, announced, console + machine + boot);
    }
}

/// The reboot of a machine keeps things sound.
proof fn lemma_reboot(m: Monitor)
    requires
        stock(m).sound(),
    ensures
        keeps_sound(stock(m), reboot_plan(m)),
{
    let s = stock(m);
    let announced = seq![Phase::Apply(Change::Note(Notice::Rebooting))];
    reveal_with_fuel(keeps_sound, 5);
    reveal_with_fuel(stock_at_end, 5);
    if m.vm is None {
        lemma_neutral(s, reboot_plan(m));
    } else {
        let stop = seq![
            Phase::Apply(Change::RetireVm),
            Phase::Ask(Action::ShutdownVm, Expect::Done, Wrap::Machine),
            Phase::Apply(Change::DrainConsole),
        ];
        let events = events_plan(m.build, false);
        let drain = seq![Phase::Ask(Action::DrainReset, Expect::Done, Wrap::Ignore)];
        let console = console_plan(Wrap::CreateConsoleDevices);
        let start = seq![
            Phase::Ask(Action::CreateVm(VmSource::Fresh), Expect::Done, Wrap::Machine),
            Phase::Ask(Action::BootVm, Expect::Done, Wrap::Machine),
            Phase::Apply(Change::ReinstallVm),
            Phase::Apply(Change::Note(Notice::Rebooted)),
        ];
        let stopped = Stock { vm: false, retired: true, ..s };
        lemma_neutral(s, announced);
        assert(stock_at_end(s, stop) == stopped);
        lemma_neutral(stopped, events);
        lemma_chain(s, stop, events);
        lemma_neutral(stopped, drain);
        lemma_chain(s, stop + events, drain);
        lemma_neutral(stopped, console);
        lemma_chain(s, stop + events + drain, console);
        assert(keeps_sound(stopped, start));
        lemma_chain(s, stop + events + drain + console, start);
        lemma_chain(s, announced, stop + events + drain + console + start);
    }
}

/// The shutdown and the deletion of a machine keep things sound.
proof fn lemma_shutdown(m: Monitor)
    requires
        stock(m).sound(),
    ensures
        keeps_sound(stock(m), shutdown_plan(m)),
        keeps_sound(stock(m), delete_plan(m)),
        keeps_sound(stock(m), vmm_shutdown_plan(m)),
{
    let s = stock(m);
    let last = seq![Phase::Apply(Change::Note(Notice::MonitorShutdown))];
    lemma_recovery(m);
    assert(keeps_sound(s, shutdown_plan(m))) by {
        reveal_with_fuel(keeps_sound, 5);
    }
    lemma_end_is_sound(s, delete_plan(m));
    lemma_neutral(stock_at_end(s, delete_plan(m)), last);
    lemma_chain(s, delete_plan(m), last);
}

/// A plan that keeps things sound and does not fail leaves them sound.
proof fn lemma_end_is_sound(s: Stock, plan: Seq<Phase>)
    requires
        keeps_sound(s, plan),
        forall|i: int| 0 <= i < plan.len() ==> plain(#[trigger] plan[i]) && !(plan[i] is Fail),
    ensures
        stock_at_end(s, plan).sound(),
    decreases plan.len(),
{
    if plan.len() > 0 {
        let rest = plan.drop_first();
        assert(plain(plan[0]) && !(plan[0] is Fail));
        assert forall|i: int| 0 <= i < rest.len() implies plain(#[trigger] rest[i])
            && !(rest[i] is Fail) by {
            assert(rest[i] == plan[i + 1]);
        }
        match plan[0] {
            Phase::Apply(change) => lemma_end_is_sound(stock_after(s, change), rest),
            _ => lemma_end_is_sound(s, rest),
        }
    }
}

/// The plan of a request keeps things sound.
proof fn lemma_request(m: Monitor, request: Request)
    requires
        m.idle(),
        stock(m).sound(),
    ensures
        keeps_sound(stock(ready_for(m, request)), plan_of(m, request)),
{
    let s = stock(ready_for(m, request));
    match request {
        Request::Create(config) => lemma_create(m, config),
        Request::Boot => lemma_boot(m),
        Request::Reboot => lemma_reboot(m),
        Request::Shutdown => lemma_shutdown(m),
        Request::Delete => lemma_shutdown(m),
        Request::MonitorShutdown => lemma_shutdown(m),
        Request::Restore(_) => {
            reveal_with_fuel(keeps_sound, 2);
        },
        Request::Remove(_) => {
            reveal_with_fuel(keeps_sound, 2);
        },
        Request::Receive(_) => {
            reveal_with_fuel(keeps_sound, 5);
        },
        Request::Send(_) => {
            reveal_with_fuel(keeps_sound, 2);
        },
        _ => {
            lemma_neutral_requests(m, request);
            lemma_neutral(s, plan_of(m, request));
        },
    }
}

/// A monitor that no request has touched is sound, and between requests
/// nothing more is needed than that a machine has a configuration.
pub proof fn law_sound_at_rest(m: Monitor)
    requires
        m.idle(),
    ensures
        sound(m) <==> (m.vm is Some ==> m.vm_config is Some),
{
}

/// A request keeps the monitor sound.
pub proof fn law_requests_keep_sound(m: Monitor, request: Request)
    requires
        m.idle(),
        sound(m),
    ensures
        sound(taken_up(m, request).0),
{
    lemma_request(m, request);
    lemma_settled(Monitor { plan: plan_of(m, request), ..ready_for(m, request) });
}

/// At every point of every request, whatever the host reports, a machine of
/// the monitor has a configuration.
pub proof fn law_machine_has_a_configuration(m: Monitor, request: Request, outcomes: Seq<Outcome>)
    requires
        sound(m),
        possible(m, request, outcomes),
    ensures
        sound(course(m, request, outcomes).0),
        course(m, request, outcomes).0.vm is Some ==> course(
            m,
            request,
            outcomes,
        ).0.vm_config is Some,
    decreases outcomes.len(),
{
    reveal(course);
    reveal(possible);
    if outcomes.len() == 0 {
        law_requests_keep_sound(m, request);
    } else {
        law_machine_has_a_configuration(m, request, outcomes.drop_last());
        law_outcomes_keep_sound(
            course(m, request, outcomes.drop_last()).0,
            outcomes.last(),
        );
    }
}

/// A configuration that an action changes stays one.
pub proof fn law_reconfiguration_keeps_sound(m: Monitor, action: Action, config: VmConfigView)
    requires
        sound(m),
    ensures
        stock(with_changed_config(m, action, config)) == stock(m),
        sound(with_changed_config(m, action, config)),
{
}

} // verus!
