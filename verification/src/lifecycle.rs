//! The life of a machine: the plans of the requests that create, boot, pause,
//! snapshot, restore, reboot, shut down and delete it.

use vstd::prelude::*;
use crate::config::{RestoreConfig, RestoredNetConfig, VmConfig, VmConfigView};
use crate::error::{Cause, Context, Failure, MigratableError, VmError};
use crate::features::Build;
use crate::model::Monitor;
use crate::plan::{
    receive_error, Action, Change, CpuidRequest, Expect, MonitorEvent, Notice, Phase, Recovery,
    VmSource, Wrap,
};
use crate::vmm::Vmm;

verus! {

/// The host is asked for something of which nothing but the success counts.
pub open spec fn ask(action: Action, wrap: Wrap) -> Phase {
    Phase::Ask(action, Expect::Done, wrap)
}

/// The request fails.
pub open spec fn refuse(error: VmError) -> Seq<Phase> {
    seq![Phase::Fail(Failure::Vm(error))]
}

/// The monitor announces something.
pub open spec fn note(notice: Notice) -> Phase {
    Phase::Apply(Change::Note(notice))
}

/// Some phases, under a condition.
pub open spec fn provided(condition: bool, phases: Seq<Phase>) -> Seq<Phase> {
    if condition {
        phases
    } else {
        Seq::empty()
    }
}

/// The phases of a request on the machine, which is refused without one.
pub open spec fn on_machine(m: Monitor, phases: Seq<Phase>) -> Seq<Phase> {
    if m.vm is Some {
        phases
    } else {
        refuse(VmError::VmNotRunning)
    }
}

/// The console devices are created.
pub open spec fn console_plan(wrap: Wrap) -> Seq<Phase> {
    seq![ask(Action::CreateConsole, wrap), Phase::Apply(Change::ConsoleReady)]
}

/// The monitor confines itself, where its configuration says so.
pub open spec fn landlock_plan(enable: bool, wrap: Wrap) -> Seq<Phase> {
    provided(enable, seq![ask(Action::ApplyLandlock, wrap)])
}

/// What a failure to clone an event descriptor is reported as, in a request on
/// the machine and in a migration.
pub open spec fn clone_wrap(event: MonitorEvent, receiving: bool) -> Wrap {
    if receiving {
        match event {
            MonitorEvent::Exit => Wrap::Receive(Context::CloneExit),
            MonitorEvent::Reset => Wrap::Receive(Context::CloneReset),
            MonitorEvent::Debug => Wrap::Receive(Context::CloneDebug),
            MonitorEvent::Activate => Wrap::Receive(Context::CloneActivate),
        }
    } else {
        Wrap::EventFdClone
    }
}

/// An event descriptor is cloned for the machine.
pub open spec fn clone_event(event: MonitorEvent, receiving: bool) -> Phase {
    ask(Action::CloneEvent(event), clone_wrap(event, receiving))
}

/// The event descriptors are cloned that a machine gets. The debugger's is
/// among them where guests can be debugged.
pub open spec fn events_plan(build: Build, receiving: bool) -> Seq<Phase> {
    seq![clone_event(MonitorEvent::Exit, receiving), clone_event(MonitorEvent::Reset, receiving)]
        + provided(
        build.features.guest_debug,
        seq![clone_event(MonitorEvent::Debug, receiving)],
    ) + seq![clone_event(MonitorEvent::Activate, receiving)]
}

/// What the CPUID of a configuration is generated for.
pub open spec fn cpuid_request(config: VmConfigView) -> CpuidRequest {
    CpuidRequest {
        max_phys_bits: config.cpus.max_phys_bits,
        kvm_hyperv: config.cpus.kvm_hyperv,
        amx: config.cpus.features.amx,
    }
}

/// What a failure to compare CPUID is reported as, when a machine is restored
/// and when it is received.
pub open spec fn cpuid_wrap(context: Context, restoring: bool) -> Wrap {
    if restoring {
        Wrap::RestoreReceive(context)
    } else {
        Wrap::Receive(context)
    }
}

/// How a TDX machine is refused, when a machine is restored and when it is
/// received.
pub open spec fn tdx_failure(restoring: bool) -> Failure {
    if restoring {
        Failure::Vm(VmError::Restore(receive_error(Context::Tdx, None)))
    } else {
        Failure::Migration(receive_error(Context::Tdx, None))
    }
}

/// The CPUID that a machine was made with is compared with that of this host,
/// where that is done at all. A TDX machine is refused there.
pub open spec fn cpuid_plan(build: Build, config: VmConfigView, restoring: bool) -> Seq<Phase> {
    if !build.spec_compares_cpuid() {
        Seq::empty()
    } else if build.features.tdx && config.tdx {
        seq![Phase::Fail(tdx_failure(restoring))]
    } else {
        seq![
            ask(
                Action::GenerateCpuid(cpuid_request(config)),
                cpuid_wrap(Context::DestinationCpuid, restoring),
            ),
            ask(Action::CheckCpuid, cpuid_wrap(Context::CompareCpuid, restoring)),
        ]
    }
}

/// A configuration is stored, and its consoles and its confinement are set up,
/// unless there is a configuration already. The machine itself comes later.
pub open spec fn create_plan(m: Monitor, config: VmConfig) -> Seq<Phase> {
    if m.vm_config is None {
        seq![Phase::Apply(Change::StoreConfig(config))] + console_plan(Wrap::CreateConsoleDevices)
            + landlock_plan(config.landlock_enable, Wrap::ApplyLandlock)
    } else {
        refuse(VmError::VmAlreadyCreated)
    }
}

/// The machine boots. Console devices are created where there are none, and
/// so is the machine.
pub open spec fn boot_plan(m: Monitor) -> Seq<Phase> {
    seq![note(Notice::Booting)] + if m.vm_config is None {
        refuse(VmError::VmMissingConfig)
    } else {
        provided(!m.console_info, console_plan(Wrap::CreateConsoleDevices)) + provided(
            m.vm is None,
            events_plan(m.build, false) + seq![
                ask(Action::CreateVm(VmSource::Fresh), Wrap::Machine),
                Phase::Apply(Change::InstallVm),
            ],
        ) + seq![ask(Action::BootVm, Wrap::Machine), note(Notice::Booted)]
    }
}

/// The machine is paused.
pub open spec fn pause_plan(m: Monitor) -> Seq<Phase> {
    on_machine(m, seq![ask(Action::PauseVm, Wrap::Pause)])
}

/// The machine is resumed.
pub open spec fn resume_plan(m: Monitor) -> Seq<Phase> {
    on_machine(m, seq![ask(Action::ResumeVm, Wrap::Resume)])
}

/// A snapshot of the machine is stored. The console devices are let go of
/// first.
pub open spec fn snapshot_plan(m: Monitor, url: String) -> Seq<Phase> {
    on_machine(
        m,
        seq![
            Phase::Apply(Change::DrainConsole),
            ask(Action::SnapshotVm, Wrap::Snapshot),
            ask(Action::SendSnapshot(url), Wrap::SnapshotSend),
        ],
    )
}

/// The machine's memory is dumped.
pub open spec fn coredump_plan(m: Monitor, url: String) -> Seq<Phase> {
    on_machine(m, seq![ask(Action::Coredump(url), Wrap::Coredump)])
}

/// The machine's power button is pressed.
pub open spec fn power_button_plan(m: Monitor) -> Seq<Phase> {
    on_machine(m, seq![ask(Action::PowerButton, Wrap::Machine)])
}

/// The machine gets a non-maskable interrupt.
pub open spec fn nmi_plan(m: Monitor) -> Seq<Phase> {
    on_machine(m, seq![ask(Action::Nmi, Wrap::Machine)])
}

/// The machine is shut down. It and the console devices are let go of first,
/// so they are gone even where that fails.
pub open spec fn shutdown_plan(m: Monitor) -> Seq<Phase> {
    on_machine(
        m,
        seq![
            Phase::Apply(Change::RetireVm),
            Phase::Apply(Change::DrainConsole),
            ask(Action::ShutdownVm, Wrap::Machine),
            note(Notice::Shutdown),
        ],
    )
}

/// The machine is shut down, where there is one, and the configuration is
/// forgotten. Without a configuration there is nothing to do.
pub open spec fn delete_plan(m: Monitor) -> Seq<Phase> {
    provided(
        m.vm_config is Some,
        provided(m.vm is Some, shutdown_plan(m)) + seq![
            Phase::Apply(Change::ClearConfig),
            note(Notice::Deleted),
        ],
    )
}

/// The machine is deleted, and the monitor with it.
pub open spec fn vmm_shutdown_plan(m: Monitor) -> Seq<Phase> {
    delete_plan(m) + seq![note(Notice::MonitorShutdown)]
}

/// The machine is shut down, and another is made and booted in its place from
/// its configuration. Only at the end does the monitor have a machine again.
pub open spec fn reboot_plan(m: Monitor) -> Seq<Phase> {
    seq![note(Notice::Rebooting)] + if m.vm is None {
        refuse(VmError::VmNotCreated)
    } else {
        seq![
            Phase::Apply(Change::RetireVm),
            ask(Action::ShutdownVm, Wrap::Machine),
            Phase::Apply(Change::DrainConsole),
        ] + events_plan(m.build, false) + seq![ask(Action::DrainReset, Wrap::Ignore)]
            + console_plan(Wrap::CreateConsoleDevices) + seq![
            ask(Action::CreateVm(VmSource::Fresh), Wrap::Machine),
            ask(Action::BootVm, Wrap::Machine),
            Phase::Apply(Change::ReinstallVm),
            note(Notice::Rebooted),
        ]
    }
}

/// The configuration of a stored machine is read, unless there is a machine or
/// a configuration already.
pub open spec fn restore_plan(m: Monitor, restore: RestoreConfig) -> Seq<Phase> {
    if m.vm is Some || m.vm_config is Some {
        refuse(VmError::VmAlreadyCreated)
    } else {
        match restore.source_url {
            Some(url) => seq![
                Phase::Ask(
                    Action::FetchConfig(url),
                    Expect::RestoredConfig {
                        url,
                        prefault: restore.prefault,
                        net_fds: restore.net_fds,
                    },
                    Wrap::Restore,
                ),
            ],
            None => refuse(VmError::InvalidRestoreSourceUrl),
        }
    }
}

/// The machine of that configuration is restored. From the reading of its
/// state on, a failure deletes what there is of it.
#[verifier::opaque]
pub open spec fn restored_plan(
    build: Build,
    config: VmConfigView,
    url: String,
    prefault: bool,
    net_fds: Option<Vec<RestoredNetConfig>>,
) -> Seq<Phase> {
    seq![
        ask(Action::ValidateRestore, Wrap::ConfigValidation),
        Phase::Apply(Change::AdoptNetFds(net_fds)),
        Phase::Apply(Change::OnFailure(Recovery::DeleteVm)),
        ask(Action::FetchState(url), Wrap::Restore),
    ] + provided(build.spec_compares_cpuid(), seq![ask(Action::ReadVmSnapshot, Wrap::Restore)])
        + cpuid_plan(build, config, true) + seq![Phase::Apply(Change::InstallCandidate)]
        + console_plan(Wrap::CreateConsoleDevices) + events_plan(build, false) + seq![
        ask(Action::CreateVm(VmSource::Snapshot { url, prefault }), Wrap::Machine),
        Phase::Apply(Change::InstallVm),
    ] + landlock_plan(config.landlock_enable, Wrap::ApplyLandlock) + seq![
        ask(Action::RestoreVm, Wrap::Machine),
    ]
}

/// Some phases, and some more.
pub fn chain(head: Vec<Phase>, tail: Vec<Phase>) -> (plan: Vec<Phase>)
    ensures
        plan@ == head@ + tail@,
{
    let mut plan: Vec<Phase> = head;
    let mut rest: Vec<Phase> = tail;
    plan.append(&mut rest);
    plan
}

/// One phase.
pub fn only(phase: Phase) -> (plan: Vec<Phase>)
    ensures
        plan@ == seq![phase],
{
    let plan: Vec<Phase> = vec![phase];
    assert(plan@ =~= seq![phase]);
    plan
}

/// The host is asked for something of which nothing but the success counts.
pub fn asking(action: Action, wrap: Wrap) -> (phase: Phase)
    ensures
        phase == ask(action, wrap),
{
    Phase::Ask(action, Expect::Done, wrap)
}

/// The request fails.
pub fn plan_refusal(error: VmError) -> (plan: Vec<Phase>)
    ensures
        plan@ == refuse(error),
{
    only(Phase::Fail(Failure::Vm(error)))
}

/// The console devices are created.
pub fn plan_console(wrap: Wrap) -> (plan: Vec<Phase>)
    ensures
        plan@ == console_plan(wrap),
{
    let plan: Vec<Phase> = vec![
        asking(Action::CreateConsole, wrap),
        Phase::Apply(Change::ConsoleReady),
    ];
    assert(plan@ =~= console_plan(wrap));
    plan
}

/// Some phases, under a condition.
pub fn plan_if(condition: bool, phases: Vec<Phase>) -> (plan: Vec<Phase>)
    ensures
        plan@ == provided(condition, phases@),
{
    if condition {
        phases
    } else {
        Vec::new()
    }
}

/// The phases of a request on the machine, which is refused without one.
pub fn plan_on_machine(vmm: &Vmm, phases: Vec<Phase>) -> (plan: Vec<Phase>)
    ensures
        plan@ == on_machine(vmm@, phases@),
{
    if vmm.vm.is_some() {
        phases
    } else {
        plan_refusal(VmError::VmNotRunning)
    }
}

/// The monitor confines itself, where its configuration says so.
pub fn plan_landlock(enable: bool, wrap: Wrap) -> (plan: Vec<Phase>)
    ensures
        plan@ == landlock_plan(enable, wrap),
{
    plan_if(enable, only(asking(Action::ApplyLandlock, wrap)))
}

/// An event descriptor is cloned for the machine.
fn cloning(event: MonitorEvent, receiving: bool) -> (phase: Phase)
    ensures
        phase == clone_event(event, receiving),
{
    let wrap = if receiving {
        match event {
            MonitorEvent::Exit => Wrap::Receive(Context::CloneExit),
            MonitorEvent::Reset => Wrap::Receive(Context::CloneReset),
            MonitorEvent::Debug => Wrap::Receive(Context::CloneDebug),
            MonitorEvent::Activate => Wrap::Receive(Context::CloneActivate),
        }
    } else {
        Wrap::EventFdClone
    };
    asking(Action::CloneEvent(event), wrap)
}

/// The event descriptors are cloned that a machine gets.
pub fn plan_events(build: &Build, receiving: bool) -> (plan: Vec<Phase>)
    ensures
        plan@ == events_plan(*build, receiving),
{
    let mut plan: Vec<Phase> = Vec::new();
    plan.push(cloning(MonitorEvent::Exit, receiving));
    plan.push(cloning(MonitorEvent::Reset, receiving));
    if build.features.guest_debug {
        plan.push(cloning(MonitorEvent::Debug, receiving));
    }
    plan.push(cloning(MonitorEvent::Activate, receiving));
    assert(plan@ =~= events_plan(*build, receiving));
    plan
}

/// What the CPUID of a configuration is generated for.
pub fn request_cpuid(config: &VmConfig) -> (request: CpuidRequest)
    ensures
        request == cpuid_request(config@),
{
    CpuidRequest {
        max_phys_bits: config.cpus.max_phys_bits,
        kvm_hyperv: config.cpus.kvm_hyperv,
        amx: config.cpus.features.amx,
    }
}

/// What a failure to compare CPUID is reported as.
fn wrap_cpuid(context: Context, restoring: bool) -> (wrap: Wrap)
    ensures
        wrap == cpuid_wrap(context, restoring),
{
    if restoring {
        Wrap::RestoreReceive(context)
    } else {
        Wrap::Receive(context)
    }
}

/// The CPUID that a machine was made with is compared with that of this host.
pub fn plan_cpuid(build: &Build, config: &VmConfig, restoring: bool) -> (plan: Vec<Phase>)
    ensures
        plan@ == cpuid_plan(*build, config@, restoring),
{
    if !build.compares_cpuid() {
        Vec::new()
    } else if build.features.tdx && config.tdx {
        let error = MigratableError::MigrateReceive(Cause { context: Context::Tdx, detail: None });
        if restoring {
            plan_refusal(VmError::Restore(error))
        } else {
            only(Phase::Fail(Failure::Migration(error)))
        }
    } else {
        let plan: Vec<Phase> = vec![
            asking(
                Action::GenerateCpuid(request_cpuid(config)),
                wrap_cpuid(Context::DestinationCpuid, restoring),
            ),
            asking(Action::CheckCpuid, wrap_cpuid(Context::CompareCpuid, restoring)),
        ];
        assert(plan@ =~= cpuid_plan(*build, config@, restoring));
        plan
    }
}

/// A configuration is stored, and its consoles and its confinement are set up.
pub fn plan_create(vmm: &Vmm, config: VmConfig) -> (plan: Vec<Phase>)
    ensures
        plan@ == create_plan(vmm@, config),
{
    if vmm.vm_config.is_none() {
        let landlock = plan_landlock(config.landlock_enable, Wrap::ApplyLandlock);
        chain(
            chain(
                only(Phase::Apply(Change::StoreConfig(config))),
                plan_console(Wrap::CreateConsoleDevices),
            ),
            landlock,
        )
    } else {
        plan_refusal(VmError::VmAlreadyCreated)
    }
}

/// The machine boots.
pub fn plan_boot(vmm: &Vmm) -> (plan: Vec<Phase>)
    ensures
        plan@ == boot_plan(vmm@),
{
    let announced = only(Phase::Apply(Change::Note(Notice::Booting)));
    if vmm.vm_config.is_none() {
        chain(announced, plan_refusal(VmError::VmMissingConfig))
    } else {
        let console = plan_if(!vmm.console_info, plan_console(Wrap::CreateConsoleDevices));
        let creation: Vec<Phase> = vec![
            asking(Action::CreateVm(VmSource::Fresh), Wrap::Machine),
            Phase::Apply(Change::InstallVm),
        ];
        assert(creation@ =~= seq![
            ask(Action::CreateVm(VmSource::Fresh), Wrap::Machine),
            Phase::Apply(Change::InstallVm),
        ]);
        let machine = plan_if(vmm.vm.is_none(), chain(plan_events(&vmm.build, false), creation));
        let boot: Vec<Phase> = vec![
            asking(Action::BootVm, Wrap::Machine),
            Phase::Apply(Change::Note(Notice::Booted)),
        ];
        assert(boot@ =~= seq![ask(Action::BootVm, Wrap::Machine), note(Notice::Booted)]);
        chain(announced, chain(chain(console, machine), boot))
    }
}

/// The machine is paused.
pub fn plan_pause(vmm: &Vmm) -> (plan: Vec<Phase>)
    ensures
        plan@ == pause_plan(vmm@),
{
    plan_on_machine(vmm, only(asking(Action::PauseVm, Wrap::Pause)))
}

/// The machine is resumed.
pub fn plan_resume(vmm: &Vmm) -> (plan: Vec<Phase>)
    ensures
        plan@ == resume_plan(vmm@),
{
    plan_on_machine(vmm, only(asking(Action::ResumeVm, Wrap::Resume)))
}

/// A snapshot of the machine is stored.
pub fn plan_snapshot(vmm: &Vmm, url: String) -> (plan: Vec<Phase>)
    ensures
        plan@ == snapshot_plan(vmm@, url),
{
    let plan: Vec<Phase> = vec![
        Phase::Apply(Change::DrainConsole),
        asking(Action::SnapshotVm, Wrap::Snapshot),
        asking(Action::SendSnapshot(url), Wrap::SnapshotSend),
    ];
    assert(plan@ =~= seq![
        Phase::Apply(Change::DrainConsole),
        ask(Action::SnapshotVm, Wrap::Snapshot),
        ask(Action::SendSnapshot(url), Wrap::SnapshotSend),
    ]);
    plan_on_machine(vmm, plan)
}

/// The machine's memory is dumped.
pub fn plan_coredump(vmm: &Vmm, url: String) -> (plan: Vec<Phase>)
    ensures
        plan@ == coredump_plan(vmm@, url),
{
    plan_on_machine(vmm, only(asking(Action::Coredump(url), Wrap::Coredump)))
}

/// The machine's power button is pressed.
pub fn plan_power_button(vmm: &Vmm) -> (plan: Vec<Phase>)
    ensures
        plan@ == power_button_plan(vmm@),
{
    plan_on_machine(vmm, only(asking(Action::PowerButton, Wrap::Machine)))
}

/// The machine gets a non-maskable interrupt.
pub fn plan_nmi(vmm: &Vmm) -> (plan: Vec<Phase>)
    ensures
        plan@ == nmi_plan(vmm@),
{
    plan_on_machine(vmm, only(asking(Action::Nmi, Wrap::Machine)))
}

/// The machine is shut down.
pub fn plan_shutdown(vmm: &Vmm) -> (plan: Vec<Phase>)
    ensures
        plan@ == shutdown_plan(vmm@),
{
    let plan: Vec<Phase> = vec![
        Phase::Apply(Change::RetireVm),
        Phase::Apply(Change::DrainConsole),
        asking(Action::ShutdownVm, Wrap::Machine),
        Phase::Apply(Change::Note(Notice::Shutdown)),
    ];
    assert(plan@ =~= seq![
        Phase::Apply(Change::RetireVm),
        Phase::Apply(Change::DrainConsole),
        ask(Action::ShutdownVm, Wrap::Machine),
        note(Notice::Shutdown),
    ]);
    plan_on_machine(vmm, plan)
}

/// The machine is shut down, where there is one, and the configuration is
/// forgotten.
pub fn plan_delete(vmm: &Vmm) -> (plan: Vec<Phase>)
    ensures
        plan@ == delete_plan(vmm@),
{
    let end: Vec<Phase> = vec![
        Phase::Apply(Change::ClearConfig),
        Phase::Apply(Change::Note(Notice::Deleted)),
    ];
    assert(end@ =~= seq![Phase::Apply(Change::ClearConfig), note(Notice::Deleted)]);
    plan_if(
        vmm.vm_config.is_some(),
        chain(plan_if(vmm.vm.is_some(), plan_shutdown(vmm)), end),
    )
}

/// The machine is deleted, and the monitor with it.
pub fn plan_vmm_shutdown(vmm: &Vmm) -> (plan: Vec<Phase>)
    ensures
        plan@ == vmm_shutdown_plan(vmm@),
{
    chain(plan_delete(vmm), only(Phase::Apply(Change::Note(Notice::MonitorShutdown))))
}

/// The machine is shut down, and another is booted in its place.
pub fn plan_reboot(vmm: &Vmm) -> (plan: Vec<Phase>)
    ensures
        plan@ == reboot_plan(vmm@),
{
    let announced = only(Phase::Apply(Change::Note(Notice::Rebooting)));
    if vmm.vm.is_none() {
        chain(announced, plan_refusal(VmError::VmNotCreated))
    } else {
        let stop: Vec<Phase> = vec![
            Phase::Apply(Change::RetireVm),
            asking(Action::ShutdownVm, Wrap::Machine),
            Phase::Apply(Change::DrainConsole),
        ];
        assert(stop@ =~= seq![
            Phase::Apply(Change::RetireVm),
            ask(Action::ShutdownVm, Wrap::Machine),
            Phase::Apply(Change::DrainConsole),
        ]);
        let start: Vec<Phase> = vec![
            asking(Action::CreateVm(VmSource::Fresh), Wrap::Machine),
            asking(Action::BootVm, Wrap::Machine),
            Phase::Apply(Change::ReinstallVm),
            Phase::Apply(Change::Note(Notice::Rebooted)),
        ];
        assert(start@ =~= seq![
            ask(Action::CreateVm(VmSource::Fresh), Wrap::Machine),
            ask(Action::BootVm, Wrap::Machine),
            Phase::Apply(Change::ReinstallVm),
            note(Notice::Rebooted),
        ]);
        let events = chain(stop, plan_events(&vmm.build, false));
        let drained = chain(events, only(asking(Action::DrainReset, Wrap::Ignore)));
        let console = chain(drained, plan_console(Wrap::CreateConsoleDevices));
        chain(announced, chain(console, start))
    }
}

/// The configuration of a stored machine is read.
pub fn plan_restore(vmm: &Vmm, restore: RestoreConfig) -> (plan: Vec<Phase>)
    ensures
        plan@ == restore_plan(vmm@, restore),
{
    if vmm.vm.is_some() || vmm.vm_config.is_some() {
        plan_refusal(VmError::VmAlreadyCreated)
    } else {
        let RestoreConfig { source_url, prefault, net_fds } = restore;
        match source_url {
            Some(url) => only(
                Phase::Ask(
                    Action::FetchConfig(url.clone()),
                    Expect::RestoredConfig { url, prefault, net_fds },
                    Wrap::Restore,
                ),
            ),
            None => plan_refusal(VmError::InvalidRestoreSourceUrl),
        }
    }
}

/// The machine of that configuration is restored.
pub fn plan_restored(
    build: &Build,
    config: &VmConfig,
    url: String,
    prefault: bool,
    net_fds: Option<Vec<RestoredNetConfig>>,
) -> (plan: Vec<Phase>)
    ensures
        plan@ == restored_plan(*build, config@, url, prefault, net_fds),
{
    proof {
        reveal(restored_plan);
    }
    let ghost link = url;
    let start: Vec<Phase> = vec![
        asking(Action::ValidateRestore, Wrap::ConfigValidation),
        Phase::Apply(Change::AdoptNetFds(net_fds)),
        Phase::Apply(Change::OnFailure(Recovery::DeleteVm)),
        asking(Action::FetchState(url.clone()), Wrap::Restore),
    ];
    assert(start@ =~= seq![
        ask(Action::ValidateRestore, Wrap::ConfigValidation),
        Phase::Apply(Change::AdoptNetFds(net_fds)),
        Phase::Apply(Change::OnFailure(Recovery::DeleteVm)),
        ask(Action::FetchState(link), Wrap::Restore),
    ]);
    let creation: Vec<Phase> = vec![
        asking(Action::CreateVm(VmSource::Snapshot { url, prefault }), Wrap::Machine),
        Phase::Apply(Change::InstallVm),
    ];
    assert(creation@ =~= seq![
        ask(Action::CreateVm(VmSource::Snapshot { url: link, prefault }), Wrap::Machine),
        Phase::Apply(Change::InstallVm),
    ]);
    let read = plan_if(
        build.compares_cpuid(),
        only(asking(Action::ReadVmSnapshot, Wrap::Restore)),
    );
    let checked = chain(chain(start, read), plan_cpuid(build, config, true));
    let installed = chain(checked, only(Phase::Apply(Change::InstallCandidate)));
    let console = chain(installed, plan_console(Wrap::CreateConsoleDevices));
    let machine = chain(chain(console, plan_events(build, false)), creation);
    let confined = chain(machine, plan_landlock(config.landlock_enable, Wrap::ApplyLandlock));
    chain(confined, only(asking(Action::RestoreVm, Wrap::Machine)))
}

} // verus!
