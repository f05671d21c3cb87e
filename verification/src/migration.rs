//! The migration of a machine: the plans of the sending and of the receiving
//! side.

use std::collections::HashMap;
use vstd::prelude::*;
use crate::config::{CpuTopology, VmConfig, VmConfigView};
use crate::endpoint::{endpoint_of, no_path_in, Endpoint, EndpointView};
use crate::error::{Cause, Context, Failure, MigratableError};
use crate::features::Build;
use crate::lifecycle::{
    ask, asking, chain, console_plan, cpuid_plan, cpuid_request, events_plan, landlock_plan, only,
    plan_console, plan_cpuid, plan_events, plan_if, plan_landlock, provided, request_cpuid,
};
use crate::model::{Monitor, SessionView};
use crate::plan::{
    send_error, Action, Change, Command, Expect, Phase, Recovery, VmSendMigrationData, VmSource,
    VmState, Wrap,
};
use crate::vmm::{files, Session, Vmm};

verus! {

/// How many passes of dirty memory are tried while the machine runs.
pub const MAX_DIRTY_MIGRATIONS: u8 = 5;

/// The highest APIC number that needs no wide APIC numbers.
pub const MAX_XAPIC_ID: u64 = 254;

/// The peer is answered.
pub open spec fn answer(success: bool) -> Phase {
    ask(Action::Answer(success), Wrap::Migration)
}

/// The peer's next request is read.
pub open spec fn next_request() -> Phase {
    Phase::Ask(Action::ReadRequest, Expect::Request, Wrap::Migration)
}

/// The peer's answer is awaited.
pub open spec fn await_answer(context: Context) -> Phase {
    Phase::Ask(Action::AwaitAnswer, Expect::Answer(context), Wrap::Migration)
}

/// The peer is told that its request failed, whether it hears it or not.
pub open spec fn answer_error_plan() -> Seq<Phase> {
    seq![ask(Action::Answer(false), Wrap::Ignore)]
}

/// The migration fails on the sending side.
pub open spec fn fail_send(context: Context) -> Phase {
    Phase::Fail(Failure::Migration(send_error(context, None)))
}

/// The number of a memory slot, as it is sent: the lowest byte first.
pub open spec fn slot_number(bytes: Seq<u8>) -> nat {
    (bytes[0] + 0x100 * bytes[1] + 0x1_0000 * bytes[2] + 0x100_0000 * bytes[3]) as nat
}

/// Some files and one more, which takes the place of another of its memory
/// slot.
#[verifier::opaque]
pub open spec fn with_file(files: Option<Map<u32, i32>>, slot: u32, fd: i32) -> Map<u32, i32> {
    match files {
        Some(files) => files.insert(slot, fd),
        None => Map::empty().insert(slot, fd),
    }
}

/// The monitor after the file of a memory slot has come.
pub open spec fn with_slot(m: Monitor, bytes: Seq<u8>, fd: i32) -> Monitor {
    Monitor {
        session: SessionView {
            memory_files: Some(with_file(m.session.memory_files, slot_number(bytes) as u32, fd)),
            ..m.session
        },
        ..m
    }
}

/// The monitor with a session at the socket that a URL names.
pub open spec fn at_endpoint(m: Monitor, url: Seq<char>) -> Monitor {
    Monitor { session: SessionView { endpoint: endpoint_of(url), ..m.session }, ..m }
}

/// The session's socket is opened, and the peer's requests are served there.
pub open spec fn receive_plan(url: String) -> Seq<Phase> {
    match endpoint_of(url@) {
        Some(EndpointView::Tcp(_)) => seq![
            ask(Action::Bind, Wrap::Receive(Context::BindTcp)),
            ask(Action::Accept, Wrap::Receive(Context::AcceptTcp)),
            next_request(),
        ],
        Some(EndpointView::Unix(_)) => seq![
            ask(Action::Bind, Wrap::Receive(Context::BindUnix)),
            ask(Action::Accept, Wrap::Receive(Context::AcceptUnix)),
            ask(Action::RemoveSocketFile, Wrap::Receive(Context::RemoveSocketFile)),
            next_request(),
        ],
        None => seq![Phase::Fail(Failure::Migration(no_path_in(url)))],
    }
}

/// A configuration is received.
pub open spec fn config_plan(length: u64) -> Seq<Phase> {
    seq![
        ask(Action::ReadPayload(length), Wrap::Socket),
        Phase::Ask(
            Action::DecodeConfig,
            Expect::MigratedConfig,
            Wrap::Receive(Context::DecodeConfig),
        ),
    ]
}

/// The highest APIC number is found, where the layout of the processors is
/// configured and the hypervisor has to be told.
pub open spec fn topology_plan(build: Build, topology: Option<CpuTopology>) -> Seq<Phase> {
    match topology {
        Some(topology) => provided(
            build.spec_compares_cpuid(),
            seq![Phase::Ask(Action::MaxApicId(topology), Expect::ApicId, Wrap::Never)],
        ),
        None => Seq::empty(),
    }
}

/// Wide APIC numbers are switched on, where there are any.
pub open spec fn apic_plan(id: u64) -> Seq<Phase> {
    provided(id > MAX_XAPIC_ID, seq![ask(Action::EnableX2Apic, Wrap::Never)])
}

/// The configuration that was received becomes the monitor's, and memory is
/// made for its machine.
#[verifier::opaque]
pub open spec fn migrated_plan(build: Build, config: VmConfigView) -> Seq<Phase> {
    cpuid_plan(build, config, false) + seq![Phase::Apply(Change::InstallCandidate)] + console_plan(
        Wrap::Receive(Context::CreateConsole),
    ) + landlock_plan(config.landlock_enable, Wrap::Receive(Context::ApplyLandlock)) + seq![
        ask(Action::CreateHypervisorVm, Wrap::Receive(Context::CreateHypervisorVm)),
    ] + topology_plan(build, config.cpus.topology) + seq![
        ask(
            Action::CreateMemoryManager(config.cpus.max_phys_bits),
            Wrap::Receive(Context::CreateMemoryManager),
        ),
        answer(true),
        Phase::Apply(Change::MemoryManagerReady),
    ]
}

/// The machine's state is received, and the machine is made and restored from
/// it. The peer is told where the restoring fails.
pub open spec fn state_plan(build: Build, length: u64) -> Seq<Phase> {
    seq![
        ask(Action::ReadPayload(length), Wrap::Socket),
        ask(Action::DecodeSnapshot, Wrap::Receive(Context::DecodeSnapshot)),
    ] + events_plan(build, true) + seq![
        ask(Action::CreateVm(VmSource::Migration), Wrap::Receive(Context::CreateVm)),
        Phase::Apply(Change::OnFailure(Recovery::AnswerError)),
        ask(Action::RestoreVm, Wrap::Receive(Context::RestoreVm)),
        Phase::Apply(Change::OnFailure(Recovery::Nothing)),
        Phase::Apply(Change::InstallVm),
        answer(true),
    ]
}

/// Memory is received. The peer is told where that fails.
pub open spec fn memory_plan(length: u64) -> Seq<Phase> {
    seq![
        ask(Action::ReadTable(length), Wrap::Migration),
        Phase::Apply(Change::OnFailure(Recovery::AnswerError)),
        ask(Action::ReceiveRegions, Wrap::Migration),
        Phase::Apply(Change::OnFailure(Recovery::Nothing)),
        answer(true),
    ]
}

/// The file of a memory slot is received.
pub open spec fn file_plan() -> Seq<Phase> {
    seq![
        Phase::Ask(Action::ReceiveFile, Expect::MemoryFile, Wrap::Receive(Context::ReceiveSlot)),
        answer(true),
    ]
}

/// Whether a session takes a request of the peer: most only once it has
/// started, state and memory only where there is a memory manager, and files
/// only over a UNIX socket.
pub open spec fn takes(session: SessionView, command: Command) -> bool {
    match command {
        Command::Config => session.started,
        Command::State => session.started && session.memory_manager,
        Command::Memory => session.started && session.memory_manager,
        Command::MemoryFd => session.started && (session.endpoint matches Some(endpoint)
            && endpoint is Unix),
        _ => true,
    }
}

/// The session once it has taken a request of the peer. The memory files that
/// have come belong to the next configuration, and the memory manager to the
/// next state.
pub open spec fn session_after(session: SessionView, command: Command) -> SessionView {
    match command {
        Command::Start => SessionView { started: true, ..session },
        Command::Config => SessionView {
            granted_files: session.memory_files,
            memory_files: None,
            ..session
        },
        Command::State => SessionView { memory_manager: false, ..session },
        _ => session,
    }
}

/// What is done for a request of the peer that is taken.
pub open spec fn command_plan(m: Monitor, command: Command, length: u64) -> Seq<Phase> {
    match command {
        Command::Invalid => Seq::empty(),
        Command::Start => seq![answer(true)],
        Command::Config => config_plan(length),
        Command::State => state_plan(m.build, length),
        Command::Memory => memory_plan(length),
        Command::MemoryFd => file_plan(),
        Command::Complete => if m.vm is Some {
            seq![ask(Action::ResumeVm, Wrap::Migration), answer(true)]
        } else {
            seq![answer(false)]
        },
        Command::Abandon => seq![
            Phase::Apply(Change::Forget),
            ask(Action::Answer(true), Wrap::Ignore),
        ],
    }
}

/// The monitor after a request of the peer has come in. A request that is not
/// taken is answered with no. After a request that ends the migration, no
/// other is read.
#[verifier::opaque]
pub open spec fn served(m: Monitor, command: Command, length: u64) -> Monitor {
    if takes(m.session, command) {
        Monitor { session: session_after(m.session, command), ..m }.then_do(
            command_plan(m, command, length) + provided(
                !(command is Complete || command is Abandon),
                seq![next_request()],
            ),
        )
    } else {
        m.then_do(seq![answer(false), next_request()])
    }
}

/// A table of memory is sent, and the memory after it.
pub open spec fn table_plan(length: u64) -> Seq<Phase> {
    seq![
        ask(Action::SendRequest(Command::Memory, length), Wrap::Never),
        ask(Action::SendTable, Wrap::Migration),
        ask(Action::SendRegions, Wrap::Migration),
        await_answer(Context::Memory),
    ]
}

/// A pass of dirty memory, with so many to follow.
pub open spec fn dirty_pass(passes: u8) -> Phase {
    Phase::Ask(Action::ReadDirtyLog, Expect::Dirty(passes), Wrap::Migration)
}

/// What is done with a table of dirty memory: it is sent, and another pass
/// follows where one is left. An empty one ends the passes.
pub open spec fn dirty_plan(passes: u8, regions: u64, length: u64) -> Seq<Phase> {
    provided(
        regions != 0,
        table_plan(length) + provided(passes > 0, seq![dirty_pass((passes - 1) as u8)]),
    )
}

/// Bytes are sent after their length.
pub open spec fn length_plan(command: Command, length: u64) -> Seq<Phase> {
    seq![
        ask(Action::SendRequest(command, length), Wrap::Migration),
        ask(Action::SendPayload, Wrap::Socket),
    ]
}

/// What a failure to connect is reported as.
pub open spec fn connect_wrap(endpoint: EndpointView) -> Wrap {
    match endpoint {
        EndpointView::Tcp(_) => Wrap::Send(Context::ConnectTcp),
        EndpointView::Unix(_) => Wrap::Send(Context::ConnectUnix),
    }
}

/// The CPUID of this host is generated for the peer, where it is compared at
/// all. A TDX machine is refused there.
pub open spec fn source_cpuid_plan(build: Build, config: VmConfigView) -> Seq<Phase> {
    if !build.spec_compares_cpuid() {
        Seq::empty()
    } else if build.features.tdx && config.tdx {
        seq![fail_send(Context::Tdx)]
    } else {
        seq![
            ask(
                Action::GenerateCpuid(cpuid_request(config)),
                Wrap::Send(Context::SourceCpuid),
            ),
        ]
    }
}

/// In a local migration the memory's descriptors are sent, which a TCP socket
/// cannot do.
pub open spec fn descriptors_plan(endpoint: EndpointView, local: bool) -> Seq<Phase> {
    provided(
        local,
        match endpoint {
            EndpointView::Unix(_) => seq![ask(Action::SendMemoryFds, Wrap::Migration)],
            EndpointView::Tcp(_) => seq![fail_send(Context::LocalOverTcp)],
        },
    )
}

/// The machine is paused. Unless the migration is local its memory is sent
/// before, in passes, and what was written meanwhile is sent after.
pub open spec fn quiesce_plan(local: bool) -> Seq<Phase> {
    if local {
        seq![ask(Action::PauseVm, Wrap::Migration)]
    } else {
        seq![
            ask(Action::StartDirtyLog, Wrap::Migration),
            Phase::Ask(Action::ReadMemoryTable, Expect::Table, Wrap::Migration),
            dirty_pass((MAX_DIRTY_MIGRATIONS - 1) as u8),
            ask(Action::PauseVm, Wrap::Migration),
            dirty_pass(0),
        ]
    }
}

/// The machine is sent to the peer.
pub open spec fn transfer_plan(
    build: Build,
    config: VmConfigView,
    endpoint: EndpointView,
    local: bool,
) -> Seq<Phase> {
    seq![
        ask(Action::Connect, connect_wrap(endpoint)),
        ask(Action::SendRequest(Command::Start, 0), Wrap::Migration),
        await_answer(Context::Start),
    ] + source_cpuid_plan(build, config) + descriptors_plan(endpoint, local) + seq![
        Phase::Ask(Action::EncodeConfig, Expect::Length(Command::Config), Wrap::Never),
        await_answer(Context::Config),
        ask(Action::StartMigration, Wrap::Migration),
    ] + quiesce_plan(local) + seq![
        ask(Action::ReleaseDiskLocks, Wrap::Unlock),
        ask(Action::SnapshotVm, Wrap::Migration),
        Phase::Ask(Action::EncodeSnapshot, Expect::Length(Command::State), Wrap::Never),
        await_answer(Context::State),
        ask(Action::SendRequest(Command::Complete, 0), Wrap::Migration),
        await_answer(Context::Complete),
    ] + provided(!local, seq![ask(Action::StopDirtyLog, Wrap::Migration)]) + seq![
        ask(Action::CompleteMigration, Wrap::Migration),
    ]
}

/// The machine is sent to the peer, and the monitor exits. A failure on the
/// way leaves the machine running here.
pub open spec fn send_plan(
    build: Build,
    config: VmConfigView,
    data: VmSendMigrationData,
) -> Seq<Phase> {
    seq![Phase::Apply(Change::OnFailure(Recovery::AbortSend { local: data.local }))] + match
    endpoint_of(data.destination_url@) {
        Some(endpoint) => transfer_plan(build, config, endpoint, data.local) + seq![
            Phase::Apply(Change::OnFailure(Recovery::Nothing)),
            ask(Action::SignalExit, Wrap::Send(Context::SignalExit)),
        ],
        None => seq![Phase::Fail(Failure::Migration(no_path_in(data.destination_url)))],
    }
}

/// The monitor once it is known whether the memory can be shared.
#[verifier::opaque]
pub open spec fn send_began(m: Monitor, data: VmSendMigrationData, shared: bool) -> Monitor {
    if !shared && data.local {
        m.then_do(seq![fail_send(Context::LocalNeedsSharedMemory)])
    } else {
        match (m.vm, m.machine_config()) {
            (Some(_), Some(config)) => at_endpoint(m, data.destination_url@).then_do(
                send_plan(m.build, config, data),
            ),
            _ => m.then_do(seq![fail_send(Context::NotRunning)]),
        }
    }
}

/// What follows a failed sending: dirty pages are no longer logged, unless the
/// migration is local, and the machine is resumed where it is paused.
pub open spec fn abort_plan(local: bool) -> Seq<Phase> {
    provided(!local, seq![ask(Action::StopDirtyLog, Wrap::Migration)]) + seq![
        Phase::Ask(Action::ReadState, Expect::Paused, Wrap::Never),
    ]
}

/// A machine that is paused is resumed.
pub open spec fn paused_plan(state: VmState) -> Seq<Phase> {
    provided(state == VmState::Paused, seq![ask(Action::ResumeVm, Wrap::Migration)])
}

/// A machine is sent to another host: first of all, it is found out whether
/// its memory can be shared.
pub open spec fn send_migration_plan(data: VmSendMigrationData) -> Seq<Phase> {
    seq![Phase::Ask(Action::ReadSharedMemory, Expect::SharedMemory(data), Wrap::Never)]
}

/// The peer is answered.
fn answering(success: bool) -> (phase: Phase)
    ensures
        phase == answer(success),
{
    asking(Action::Answer(success), Wrap::Migration)
}

/// The peer's next request is read.
fn reading_request() -> (phase: Phase)
    ensures
        phase == next_request(),
{
    Phase::Ask(Action::ReadRequest, Expect::Request, Wrap::Migration)
}

/// The peer's answer is awaited.
fn awaiting(context: Context) -> (phase: Phase)
    ensures
        phase == await_answer(context),
{
    Phase::Ask(Action::AwaitAnswer, Expect::Answer(context), Wrap::Migration)
}

/// The peer is told that its request failed, whether it hears it or not.
pub fn plan_answer_error() -> (plan: Vec<Phase>)
    ensures
        plan@ == answer_error_plan(),
{
    only(asking(Action::Answer(false), Wrap::Ignore))
}

/// The migration fails on the sending side.
fn failing_send(context: Context) -> (phase: Phase)
    ensures
        phase == fail_send(context),
{
    Phase::Fail(
        Failure::Migration(MigratableError::MigrateSend(Cause { context, detail: None })),
    )
}

/// The number of a memory slot, as it is sent: the lowest byte first.
pub fn read_slot_number(bytes: &[u8; 4]) -> (slot: u32)
    ensures
        slot == slot_number(bytes@),
{
    let low: u32 = bytes[0] as u32 + 0x100 * (bytes[1] as u32);
    let high: u32 = bytes[2] as u32 + 0x100 * (bytes[3] as u32);
    low + 0x1_0000 * high
}

/// Puts the file of a memory slot among those that have come.
pub fn add_file(received: &mut Option<HashMap<u32, i32>>, slot: u32, fd: i32)
    ensures
        files(*final(received)) == Some(with_file(files(*old(received)), slot, fd)),
{
    broadcast use vstd::std_specs::hash::group_hash_axioms;

    proof {
        reveal(with_file);
    }
    let mut map: HashMap<u32, i32> = match received.take() {
        Some(map) => map,
        None => HashMap::new(),
    };
    map.insert(slot, fd);
    *received = Some(map);
}

/// The session's socket is opened, and the peer's requests are served there.
pub fn plan_receive(socket: &Result<Endpoint, MigratableError>, url: String) -> (plan: Vec<Phase>)
    requires
        match *socket {
            Ok(endpoint) => endpoint_of(url@) == Some(endpoint@),
            Err(_) => endpoint_of(url@) is None,
        },
    ensures
        plan@ == receive_plan(url),
{
    match socket {
        Ok(Endpoint::Tcp(_)) => {
            let plan: Vec<Phase> = vec![
                asking(Action::Bind, Wrap::Receive(Context::BindTcp)),
                asking(Action::Accept, Wrap::Receive(Context::AcceptTcp)),
                reading_request(),
            ];
            assert(plan@ =~= receive_plan(url));
            plan
        },
        Ok(Endpoint::Unix(_)) => {
            let plan: Vec<Phase> = vec![
                asking(Action::Bind, Wrap::Receive(Context::BindUnix)),
                asking(Action::Accept, Wrap::Receive(Context::AcceptUnix)),
                asking(Action::RemoveSocketFile, Wrap::Receive(Context::RemoveSocketFile)),
                reading_request(),
            ];
            assert(plan@ =~= receive_plan(url));
            plan
        },
        Err(_) => only(
            Phase::Fail(
                Failure::Migration(
                    MigratableError::MigrateSend(
                        Cause { context: Context::ExtractPath, detail: Some(url) },
                    ),
                ),
            ),
        ),
    }
}

/// A configuration is received.
fn plan_config(length: u64) -> (plan: Vec<Phase>)
    ensures
        plan@ == config_plan(length),
{
    let plan: Vec<Phase> = vec![
        asking(Action::ReadPayload(length), Wrap::Socket),
        Phase::Ask(
            Action::DecodeConfig,
            Expect::MigratedConfig,
            Wrap::Receive(Context::DecodeConfig),
        ),
    ];
    assert(plan@ =~= config_plan(length));
    plan
}

/// The highest APIC number is found.
fn plan_topology(build: &Build, topology: Option<CpuTopology>) -> (plan: Vec<Phase>)
    ensures
        plan@ == topology_plan(*build, topology),
{
    match topology {
        Some(topology) => plan_if(
            build.compares_cpuid(),
            only(Phase::Ask(Action::MaxApicId(topology), Expect::ApicId, Wrap::Never)),
        ),
        None => Vec::new(),
    }
}

/// Wide APIC numbers are switched on, where there are any.
pub fn plan_apic(id: u64) -> (plan: Vec<Phase>)
    ensures
        plan@ == apic_plan(id),
{
    plan_if(id > MAX_XAPIC_ID, only(asking(Action::EnableX2Apic, Wrap::Never)))
}

/// The configuration that was received becomes the monitor's, and memory is
/// made for its machine.
pub fn plan_migrated(build: &Build, config: &VmConfig) -> (plan: Vec<Phase>)
    ensures
        plan@ == migrated_plan(*build, config@),
{
    proof {
        reveal(migrated_plan);
    }
    let memory: Vec<Phase> = vec![
        asking(
            Action::CreateMemoryManager(config.cpus.max_phys_bits),
            Wrap::Receive(Context::CreateMemoryManager),
        ),
        answering(true),
        Phase::Apply(Change::MemoryManagerReady),
    ];
    assert(memory@ =~= seq![
        ask(
            Action::CreateMemoryManager(config@.cpus.max_phys_bits),
            Wrap::Receive(Context::CreateMemoryManager),
        ),
        answer(true),
        Phase::Apply(Change::MemoryManagerReady),
    ]);
    let installed = chain(
        plan_cpuid(build, config, false),
        only(Phase::Apply(Change::InstallCandidate)),
    );
    let console = chain(installed, plan_console(Wrap::Receive(Context::CreateConsole)));
    let confined = chain(
        console,
        plan_landlock(config.landlock_enable, Wrap::Receive(Context::ApplyLandlock)),
    );
    let machine = chain(
        confined,
        only(asking(Action::CreateHypervisorVm, Wrap::Receive(Context::CreateHypervisorVm))),
    );
    chain(chain(machine, plan_topology(build, config.cpus.topology)), memory)
}

/// The machine's state is received, and the machine is made and restored from
/// it.
fn plan_state(build: &Build, length: u64) -> (plan: Vec<Phase>)
    ensures
        plan@ == state_plan(*build, length),
{
    let payload: Vec<Phase> = vec![
        asking(Action::ReadPayload(length), Wrap::Socket),
        asking(Action::DecodeSnapshot, Wrap::Receive(Context::DecodeSnapshot)),
    ];
    assert(payload@ =~= seq![
        ask(Action::ReadPayload(length), Wrap::Socket),
        ask(Action::DecodeSnapshot, Wrap::Receive(Context::DecodeSnapshot)),
    ]);
    let machine: Vec<Phase> = vec![
        asking(Action::CreateVm(VmSource::Migration), Wrap::Receive(Context::CreateVm)),
        Phase::Apply(Change::OnFailure(Recovery::AnswerError)),
        asking(Action::RestoreVm, Wrap::Receive(Context::RestoreVm)),
        Phase::Apply(Change::OnFailure(Recovery::Nothing)),
        Phase::Apply(Change::InstallVm),
        answering(true),
    ];
    assert(machine@ =~= seq![
        ask(Action::CreateVm(VmSource::Migration), Wrap::Receive(Context::CreateVm)),
        Phase::Apply(Change::OnFailure(Recovery::AnswerError)),
        ask(Action::RestoreVm, Wrap::Receive(Context::RestoreVm)),
        Phase::Apply(Change::OnFailure(Recovery::Nothing)),
        Phase::Apply(Change::InstallVm),
        answer(true),
    ]);
    chain(chain(payload, plan_events(build, true)), machine)
}

/// Memory is received.
fn plan_memory(length: u64) -> (plan: Vec<Phase>)
    ensures
        plan@ == memory_plan(length),
{
    let plan: Vec<Phase> = vec![
        asking(Action::ReadTable(length), Wrap::Migration),
        Phase::Apply(Change::OnFailure(Recovery::AnswerError)),
        asking(Action::ReceiveRegions, Wrap::Migration),
        Phase::Apply(Change::OnFailure(Recovery::Nothing)),
        answering(true),
    ];
    assert(plan@ =~= memory_plan(length));
    plan
}

/// The file of a memory slot is received.
fn plan_file() -> (plan: Vec<Phase>)
    ensures
        plan@ == file_plan(),
{
    let plan: Vec<Phase> = vec![
        Phase::Ask(Action::ReceiveFile, Expect::MemoryFile, Wrap::Receive(Context::ReceiveSlot)),
        answering(true),
    ];
    assert(plan@ =~= file_plan());
    plan
}

/// The migration is complete: the machine runs, where there is one.
fn plan_complete(running: bool) -> (plan: Vec<Phase>)
    ensures
        plan@ == (if running {
            seq![ask(Action::ResumeVm, Wrap::Migration), answer(true)]
        } else {
            seq![answer(false)]
        }),
{
    if running {
        let plan: Vec<Phase> = vec![asking(Action::ResumeVm, Wrap::Migration), answering(true)];
        assert(plan@ =~= seq![ask(Action::ResumeVm, Wrap::Migration), answer(true)]);
        plan
    } else {
        only(answering(false))
    }
}

/// The migration is given up: the monitor forgets its machine.
fn plan_abandon() -> (plan: Vec<Phase>)
    ensures
        plan@ == seq![
            Phase::Apply(Change::Forget),
            ask(Action::Answer(true), Wrap::Ignore),
        ],
{
    let plan: Vec<Phase> = vec![
        Phase::Apply(Change::Forget),
        asking(Action::Answer(true), Wrap::Ignore),
    ];
    assert(plan@ =~= seq![
        Phase::Apply(Change::Forget),
        ask(Action::Answer(true), Wrap::Ignore),
    ]);
    plan
}

/// Whether a session takes a request of the peer.
pub fn is_taken(session: &Session, command: Command) -> (taken: bool)
    ensures
        taken == takes(session@, command),
{
    match command {
        Command::Config => session.started,
        Command::State | Command::Memory => session.started && session.memory_manager,
        Command::MemoryFd => session.started && match &session.endpoint {
            Some(Endpoint::Unix(_)) => true,
            _ => false,
        },
        _ => true,
    }
}

/// What is done for a request of the peer that is taken.
pub fn plan_command(vmm: &Vmm, command: Command, length: u64) -> (plan: Vec<Phase>)
    ensures
        plan@ == command_plan(vmm@, command, length),
{
    match command {
        Command::Invalid => Vec::new(),
        Command::Start => only(answering(true)),
        Command::Config => plan_config(length),
        Command::State => plan_state(&vmm.build, length),
        Command::Memory => plan_memory(length),
        Command::MemoryFd => plan_file(),
        Command::Complete => plan_complete(vmm.vm.is_some()),
        Command::Abandon => plan_abandon(),
    }
}

/// What is done for a request of the peer that is taken, and the reading of
/// the next one, unless it ends the migration.
pub fn plan_taken(vmm: &Vmm, command: Command, length: u64) -> (plan: Vec<Phase>)
    ensures
        plan@ == command_plan(vmm@, command, length) + provided(
            !(command is Complete || command is Abandon),
            seq![next_request()],
        ),
{
    let last = match command {
        Command::Complete | Command::Abandon => true,
        _ => false,
    };
    chain(plan_command(vmm, command, length), plan_if(!last, only(reading_request())))
}

/// A request of the peer is answered with no, and the next one is read.
pub fn plan_not_taken() -> (plan: Vec<Phase>)
    ensures
        plan@ == seq![answer(false), next_request()],
{
    let plan: Vec<Phase> = vec![answering(false), reading_request()];
    assert(plan@ =~= seq![answer(false), next_request()]);
    plan
}

/// A table of memory is sent, and the memory after it.
pub fn plan_table(length: u64) -> (plan: Vec<Phase>)
    ensures
        plan@ == table_plan(length),
{
    let plan: Vec<Phase> = vec![
        asking(Action::SendRequest(Command::Memory, length), Wrap::Never),
        asking(Action::SendTable, Wrap::Migration),
        asking(Action::SendRegions, Wrap::Migration),
        awaiting(Context::Memory),
    ];
    assert(plan@ =~= table_plan(length));
    plan
}

/// A pass of dirty memory, with so many to follow.
fn passing(passes: u8) -> (phase: Phase)
    ensures
        phase == dirty_pass(passes),
{
    Phase::Ask(Action::ReadDirtyLog, Expect::Dirty(passes), Wrap::Migration)
}

/// What is done with a table of dirty memory.
pub fn plan_dirty(passes: u8, regions: u64, length: u64) -> (plan: Vec<Phase>)
    ensures
        plan@ == dirty_plan(passes, regions, length),
{
    if regions == 0 {
        Vec::new()
    } else if passes == 0 {
        let plan = chain(plan_table(length), Vec::new());
        assert(plan@ =~= dirty_plan(passes, regions, length));
        plan
    } else {
        chain(plan_table(length), only(passing(passes - 1)))
    }
}

/// Bytes are sent after their length.
pub fn plan_length(command: Command, length: u64) -> (plan: Vec<Phase>)
    ensures
        plan@ == length_plan(command, length),
{
    let plan: Vec<Phase> = vec![
        asking(Action::SendRequest(command, length), Wrap::Migration),
        asking(Action::SendPayload, Wrap::Socket),
    ];
    assert(plan@ =~= length_plan(command, length));
    plan
}

/// The CPUID of this host is generated for the peer.
fn plan_source_cpuid(build: &Build, config: &VmConfig) -> (plan: Vec<Phase>)
    ensures
        plan@ == source_cpuid_plan(*build, config@),
{
    if !build.compares_cpuid() {
        Vec::new()
    } else if build.features.tdx && config.tdx {
        only(failing_send(Context::Tdx))
    } else {
        only(
            asking(
                Action::GenerateCpuid(request_cpuid(config)),
                Wrap::Send(Context::SourceCpuid),
            ),
        )
    }
}

/// In a local migration the memory's descriptors are sent.
fn plan_descriptors(endpoint: &Endpoint, local: bool) -> (plan: Vec<Phase>)
    ensures
        plan@ == descriptors_plan(endpoint@, local),
{
    plan_if(
        local,
        match endpoint {
            Endpoint::Unix(_) => only(asking(Action::SendMemoryFds, Wrap::Migration)),
            Endpoint::Tcp(_) => only(failing_send(Context::LocalOverTcp)),
        },
    )
}

/// The machine is paused, and its memory is sent unless the migration is
/// local.
fn plan_quiesce(local: bool) -> (plan: Vec<Phase>)
    ensures
        plan@ == quiesce_plan(local),
{
    if local {
        only(asking(Action::PauseVm, Wrap::Migration))
    } else {
        let plan: Vec<Phase> = vec![
            asking(Action::StartDirtyLog, Wrap::Migration),
            Phase::Ask(Action::ReadMemoryTable, Expect::Table, Wrap::Migration),
            passing(MAX_DIRTY_MIGRATIONS - 1),
            asking(Action::PauseVm, Wrap::Migration),
            passing(0),
        ];
        assert(plan@ =~= quiesce_plan(local));
        plan
    }
}

/// The connection to the peer is made, and the migration starts.
fn plan_opening(endpoint: &Endpoint) -> (plan: Vec<Phase>)
    ensures
        plan@ == seq![
            ask(Action::Connect, connect_wrap(endpoint@)),
            ask(Action::SendRequest(Command::Start, 0), Wrap::Migration),
            await_answer(Context::Start),
        ],
{
    let wrap = match endpoint {
        Endpoint::Tcp(_) => Wrap::Send(Context::ConnectTcp),
        Endpoint::Unix(_) => Wrap::Send(Context::ConnectUnix),
    };
    let plan: Vec<Phase> = vec![
        asking(Action::Connect, wrap),
        asking(Action::SendRequest(Command::Start, 0), Wrap::Migration),
        awaiting(Context::Start),
    ];
    assert(plan@ =~= seq![
        ask(Action::Connect, connect_wrap(endpoint@)),
        ask(Action::SendRequest(Command::Start, 0), Wrap::Migration),
        await_answer(Context::Start),
    ]);
    plan
}

/// The configuration is sent.
fn plan_send_config() -> (plan: Vec<Phase>)
    ensures
        plan@ == seq![
            Phase::Ask(Action::EncodeConfig, Expect::Length(Command::Config), Wrap::Never),
            await_answer(Context::Config),
            ask(Action::StartMigration, Wrap::Migration),
        ],
{
    let plan: Vec<Phase> = vec![
        Phase::Ask(Action::EncodeConfig, Expect::Length(Command::Config), Wrap::Never),
        awaiting(Context::Config),
        asking(Action::StartMigration, Wrap::Migration),
    ];
    assert(plan@ =~= seq![
        Phase::Ask(Action::EncodeConfig, Expect::Length(Command::Config), Wrap::Never),
        await_answer(Context::Config),
        ask(Action::StartMigration, Wrap::Migration),
    ]);
    plan
}

/// The machine's state is sent, and the migration is completed.
fn plan_send_state() -> (plan: Vec<Phase>)
    ensures
        plan@ == seq![
            ask(Action::ReleaseDiskLocks, Wrap::Unlock),
            ask(Action::SnapshotVm, Wrap::Migration),
            Phase::Ask(Action::EncodeSnapshot, Expect::Length(Command::State), Wrap::Never),
            await_answer(Context::State),
            ask(Action::SendRequest(Command::Complete, 0), Wrap::Migration),
            await_answer(Context::Complete),
        ],
{
    let plan: Vec<Phase> = vec![
        asking(Action::ReleaseDiskLocks, Wrap::Unlock),
        asking(Action::SnapshotVm, Wrap::Migration),
        Phase::Ask(Action::EncodeSnapshot, Expect::Length(Command::State), Wrap::Never),
        awaiting(Context::State),
        asking(Action::SendRequest(Command::Complete, 0), Wrap::Migration),
        awaiting(Context::Complete),
    ];
    assert(plan@ =~= seq![
        ask(Action::ReleaseDiskLocks, Wrap::Unlock),
        ask(Action::SnapshotVm, Wrap::Migration),
        Phase::Ask(Action::EncodeSnapshot, Expect::Length(Command::State), Wrap::Never),
        await_answer(Context::State),
        ask(Action::SendRequest(Command::Complete, 0), Wrap::Migration),
        await_answer(Context::Complete),
    ]);
    plan
}

/// Dirty pages are no longer logged, unless the migration is local.
fn plan_stop_log(local: bool) -> (plan: Vec<Phase>)
    ensures
        plan@ == provided(!local, seq![ask(Action::StopDirtyLog, Wrap::Migration)]),
{
    plan_if(!local, only(asking(Action::StopDirtyLog, Wrap::Migration)))
}

/// The machine is sent to the peer.
fn plan_transfer(
    build: &Build,
    config: &VmConfig,
    endpoint: &Endpoint,
    local: bool,
) -> (plan: Vec<Phase>)
    ensures
        plan@ == transfer_plan(*build, config@, endpoint@, local),
{
    let opening = plan_opening(endpoint);
    let prepared = chain(
        chain(opening, plan_source_cpuid(build, config)),
        plan_descriptors(endpoint, local),
    );
    let quiet = chain(chain(prepared, plan_send_config()), plan_quiesce(local));
    let sent = chain(chain(quiet, plan_send_state()), plan_stop_log(local));
    chain(sent, only(asking(Action::CompleteMigration, Wrap::Migration)))
}

/// The machine is sent to the peer, and the monitor exits.
pub fn plan_send(
    build: &Build,
    config: &VmConfig,
    socket: &Result<Endpoint, MigratableError>,
    data: VmSendMigrationData,
) -> (plan: Vec<Phase>)
    requires
        match *socket {
            Ok(endpoint) => endpoint_of(data.destination_url@) == Some(endpoint@),
            Err(_) => endpoint_of(data.destination_url@) is None,
        },
    ensures
        plan@ == send_plan(*build, config@, data),
{
    let guarded = only(
        Phase::Apply(Change::OnFailure(Recovery::AbortSend { local: data.local })),
    );
    match socket {
        Ok(endpoint) => {
            let exit: Vec<Phase> = vec![
                Phase::Apply(Change::OnFailure(Recovery::Nothing)),
                asking(Action::SignalExit, Wrap::Send(Context::SignalExit)),
            ];
            assert(exit@ =~= seq![
                Phase::Apply(Change::OnFailure(Recovery::Nothing)),
                ask(Action::SignalExit, Wrap::Send(Context::SignalExit)),
            ]);
            chain(guarded, chain(plan_transfer(build, config, endpoint, data.local), exit))
        },
        Err(_) => chain(
            guarded,
            only(
                Phase::Fail(
                    Failure::Migration(
                        MigratableError::MigrateSend(
                            Cause {
                                context: Context::ExtractPath,
                                detail: Some(data.destination_url),
                            },
                        ),
                    ),
                ),
            ),
        ),
    }
}

/// The migration is refused.
pub fn plan_send_refusal(context: Context) -> (plan: Vec<Phase>)
    ensures
        plan@ == seq![fail_send(context)],
{
    only(failing_send(context))
}

/// What follows a failed sending.
pub fn plan_abort(local: bool) -> (plan: Vec<Phase>)
    ensures
        plan@ == abort_plan(local),
{
    chain(
        plan_stop_log(local),
        only(Phase::Ask(Action::ReadState, Expect::Paused, Wrap::Never)),
    )
}

/// A machine that is paused is resumed.
pub fn plan_paused(state: VmState) -> (plan: Vec<Phase>)
    ensures
        plan@ == paused_plan(state),
{
    plan_if(state == VmState::Paused, only(asking(Action::ResumeVm, Wrap::Migration)))
}

/// A machine is sent to another host.
pub fn plan_send_migration(data: VmSendMigrationData) -> (plan: Vec<Phase>)
    ensures
        plan@ == send_migration_plan(data),
{
    only(Phase::Ask(Action::ReadSharedMemory, Expect::SharedMemory(data), Wrap::Never))
}

} // verus!
