//! The requests on the monitor.
//!
//! Each takes up its plan and returns the first step: something that the host
//! is to do, or the end. `Vmm::resume` goes on with what the host reports. One
//! request ends before the next begins.

use vstd::prelude::*;
use crate::config::{
    has_zone, resized, with_device, zone_resized, Device, DeviceConfig, DiskConfig, FsConfig,
    NetConfig, PmemConfig, RestoreConfig, UserDeviceConfig, VdpaConfig, VmConfig, VsockConfig,
};
use crate::devices::{
    add_plan, considering, counters_plan, info_plan, plan_add, plan_counters, plan_info,
    plan_remove, plan_resize, plan_zone, remove_plan, resize_plan, zone_plan,
};
use crate::endpoint::{endpoint_of, no_path_in};
use crate::error::{Failure, VmError};
use crate::features::{
    feature_list, feature_names, texts, Build, VmmPingResponse, VmmVersionInfo,
};
use crate::lifecycle::{
    boot_plan, coredump_plan, create_plan, delete_plan, nmi_plan, pause_plan, plan_boot,
    plan_coredump, plan_create, plan_delete, plan_nmi, plan_pause, plan_power_button, plan_reboot,
    plan_restore, plan_resume, plan_shutdown, plan_snapshot, plan_vmm_shutdown, power_button_plan,
    reboot_plan, refuse, restore_plan, resume_plan, shutdown_plan, snapshot_plan, vmm_shutdown_plan,
};
use crate::migration::{
    at_endpoint, plan_receive, plan_send_migration, receive_plan, send_migration_plan,
};
use crate::model::{begun, refusal, settled, Monitor};
use crate::plan::{
    Action, MonitorEvent, Notice, Recovery, ReplyView, Sizes, Step, StepView, VmReceiveMigrationData,
    VmSendMigrationData,
};
use crate::vmm::{Job, Vmm};

verus! {

/// A plan that refuses the request leaves the monitor as it was before.
proof fn lemma_refused(m: Monitor, error: VmError)
    requires
        m.pending is None,
        m.recovery == Recovery::Nothing,
    ensures
        begun(m, refuse(error)) == (m.at_rest(), refusal(error)),
{
    reveal_with_fuel(settled, 2);
}

impl Vmm {
    /// A monitor without a machine.
    pub fn new(version: VmmVersionInfo, build: Build) -> (vmm: Vmm)
        ensures
            vmm@.idle(),
            vmm.version == version,
            vmm.build == build,
            vmm.vm is None,
            vmm.vm_config is None,
            !vmm.console_info,
            !vmm.signals,
            vmm.threads == 0,
            vmm.notices@ == Seq::<Notice>::empty(),
    {
        Vmm {
            version,
            build,
            vm: None,
            vm_config: None,
            console_info: false,
            signals: false,
            threads: 0,
            notices: Vec::new(),
            job: Job::none(),
        }
    }

    /// The answer to a ping, from a process of this number.
    pub fn vmm_ping(&self, pid: u32) -> (response: VmmPingResponse)
        ensures
            response.build_version == self.version.build_version,
            response.version == self.version.version,
            response.pid == pid,
            texts(response.features@) == feature_names(self.build.features),
    {
        let VmmVersionInfo { build_version, version } = self.version.clone();
        VmmPingResponse {
            build_version,
            version,
            pid: pid as i64,
            features: feature_list(&self.build.features),
        }
    }

    /// Stores a configuration. The machine is created when it is asked to boot.
    pub fn vm_create(&mut self, config: VmConfig) -> (step: Step)
        requires
            old(self)@.idle(),
        ensures
            (final(self)@, step@) == begun(old(self)@, create_plan(old(self)@, config)),
            old(self)@.vm_config is Some ==> step@ == refusal(VmError::VmAlreadyCreated) && final(self)@ == old(self)@,
            old(self)@.vm_config is None ==> step@ == StepView::Perform(Action::CreateConsole)
                && final(self)@.vm_config == Some(config@),
    {
        let plan = plan_create(self, config);
        proof {
            lemma_refused(self@, VmError::VmAlreadyCreated);
            reveal_with_fuel(settled, 2);
        }
        self.begin(plan)
    }

    /// Boots the machine.
    pub fn vm_boot(&mut self) -> (step: Step)
        requires
            old(self)@.idle(),
        ensures
            (final(self)@, step@) == begun(old(self)@, boot_plan(old(self)@)),
            old(self)@.vm_config is None ==> step@ == refusal(VmError::VmMissingConfig)
                && final(self)@ == (Monitor { notices: old(self)@.notices.push(Notice::Booting), ..old(self)@ }),
            old(self)@.vm_config is Some ==> step@ == StepView::Perform(
                if !old(self)@.console_info {
                    Action::CreateConsole
                } else if old(self)@.vm is None {
                    Action::CloneEvent(MonitorEvent::Exit)
                } else {
                    Action::BootVm
                },
            ),
    {
        let plan = plan_boot(self);
        proof {
            reveal_with_fuel(settled, 3);
        }
        self.begin(plan)
    }

    /// Pauses the machine.
    pub fn vm_pause(&mut self) -> (step: Step)
        requires
            old(self)@.idle(),
        ensures
            (final(self)@, step@) == begun(old(self)@, pause_plan(old(self)@)),
            old(self)@.vm is None ==> step@ == refusal(VmError::VmNotRunning) && final(self)@ == old(self)@,
            old(self)@.vm is Some ==> step@ == StepView::Perform(Action::PauseVm),
    {
        let plan = plan_pause(self);
        proof {
            lemma_refused(self@, VmError::VmNotRunning);
        }
        self.begin(plan)
    }

    /// Resumes the machine.
    pub fn vm_resume(&mut self) -> (step: Step)
        requires
            old(self)@.idle(),
        ensures
            (final(self)@, step@) == begun(old(self)@, resume_plan(old(self)@)),
            old(self)@.vm is None ==> step@ == refusal(VmError::VmNotRunning) && final(self)@ == old(self)@,
            old(self)@.vm is Some ==> step@ == StepView::Perform(Action::ResumeVm),
    {
        let plan = plan_resume(self);
        proof {
            lemma_refused(self@, VmError::VmNotRunning);
        }
        self.begin(plan)
    }

    /// Stores a snapshot of the machine.
    pub fn vm_snapshot(&mut self, destination_url: String) -> (step: Step)
        requires
            old(self)@.idle(),
        ensures
            (final(self)@, step@) == begun(old(self)@, snapshot_plan(old(self)@, destination_url)),
            old(self)@.vm is None ==> step@ == refusal(VmError::VmNotRunning) && final(self)@ == old(self)@,
            old(self)@.vm is Some ==> step@ == StepView::Perform(Action::SnapshotVm)
                && !final(self)@.console_info,
    {
        let plan = plan_snapshot(self, destination_url);
        proof {
            lemma_refused(self@, VmError::VmNotRunning);
            reveal_with_fuel(settled, 2);
        }
        self.begin(plan)
    }

    /// Restores a machine from a snapshot.
    pub fn vm_restore(&mut self, restore: RestoreConfig) -> (step: Step)
        requires
            old(self)@.idle(),
        ensures
            (final(self)@, step@) == begun(old(self)@, restore_plan(old(self)@, restore)),
            old(self)@.vm is Some || old(self)@.vm_config is Some ==> step@ == refusal(VmError::VmAlreadyCreated) && final(self)@ == old(self)@,
            old(self)@.vm is None && old(self)@.vm_config is None && restore.source_url is None ==> step@ == refusal(VmError::InvalidRestoreSourceUrl) && final(self)@ == old(self)@,
            old(self)@.vm is None && old(self)@.vm_config is None ==> (restore.source_url matches Some(url)
                ==> step@ == StepView::Perform(Action::FetchConfig(url))),
    {
        let plan = plan_restore(self, restore);
        proof {
            lemma_refused(self@, VmError::VmAlreadyCreated);
            lemma_refused(self@, VmError::InvalidRestoreSourceUrl);
        }
        self.begin(plan)
    }

    /// Dumps the machine's memory.
    pub fn vm_coredump(&mut self, destination_url: String) -> (step: Step)
        requires
            old(self)@.idle(),
        ensures
            (final(self)@, step@) == begun(old(self)@, coredump_plan(old(self)@, destination_url)),
            old(self)@.vm is None ==> step@ == refusal(VmError::VmNotRunning) && final(self)@ == old(self)@,
            old(self)@.vm is Some ==> step@ == StepView::Perform(Action::Coredump(destination_url)),
    {
        let plan = plan_coredump(self, destination_url);
        proof {
            lemma_refused(self@, VmError::VmNotRunning);
        }
        self.begin(plan)
    }

    /// Shuts the machine down.
    pub fn vm_shutdown(&mut self) -> (step: Step)
        requires
            old(self)@.idle(),
        ensures
            (final(self)@, step@) == begun(old(self)@, shutdown_plan(old(self)@)),
            old(self)@.vm is None ==> step@ == refusal(VmError::VmNotRunning) && final(self)@ == old(self)@,
            old(self)@.vm is Some ==> step@ == StepView::Perform(Action::ShutdownVm)
                && final(self)@.vm is None && !final(self)@.console_info,
    {
        let plan = plan_shutdown(self);
        proof {
            lemma_refused(self@, VmError::VmNotRunning);
            reveal_with_fuel(settled, 3);
        }
        self.begin(plan)
    }

    /// Shuts the machine down, and boots another in its place.
    pub fn vm_reboot(&mut self) -> (step: Step)
        requires
            old(self)@.idle(),
        ensures
            (final(self)@, step@) == begun(old(self)@, reboot_plan(old(self)@)),
            old(self)@.vm is None ==> step@ == refusal(VmError::VmNotCreated)
                && final(self)@ == (Monitor { notices: old(self)@.notices.push(Notice::Rebooting), ..old(self)@ }),
            old(self)@.vm is Some ==> step@ == StepView::Perform(Action::ShutdownVm)
                && final(self)@.vm is None,
    {
        let plan = plan_reboot(self);
        proof {
            reveal_with_fuel(settled, 4);
        }
        self.begin(plan)
    }

    /// Reports on the machine.
    pub fn vm_info(&mut self) -> (step: Step)
        requires
            old(self)@.idle(),
        ensures
            (final(self)@, step@) == begun(old(self)@, info_plan(old(self)@)),
            old(self)@.vm_config is None ==> step@ == refusal(VmError::VmNotCreated) && final(self)@ == old(self)@,
            old(self)@.vm_config is Some ==> step@ == StepView::Perform(
                if old(self)@.vm is Some {
                    Action::ReadState
                } else {
                    Action::MeasureMemory
                },
            ),
    {
        let plan = plan_info(self);
        proof {
            lemma_refused(self@, VmError::VmNotCreated);
        }
        self.begin(plan)
    }

    /// Deletes the machine and its configuration.
    pub fn vm_delete(&mut self) -> (step: Step)
        requires
            old(self)@.idle(),
        ensures
            (final(self)@, step@) == begun(old(self)@, delete_plan(old(self)@)),
            old(self)@.vm_config is None ==> step@ == StepView::Done(Ok(ReplyView::Done))
                && final(self)@ == old(self)@,
            old(self)@.vm_config is Some && old(self)@.vm is None ==> step@ == StepView::Done(Ok(ReplyView::Done))
                && final(self)@ == (Monitor {
                vm_config: None,
                notices: old(self)@.notices.push(Notice::Deleted),
                ..old(self)@
            }),
            old(self)@.vm_config is Some && old(self)@.vm is Some ==> step@ == StepView::Perform(
                Action::ShutdownVm,
            ) && final(self)@.vm is None,
    {
        let plan = plan_delete(self);
        proof {
            reveal_with_fuel(settled, 3);
        }
        self.begin(plan)
    }

    /// Deletes the machine, and shuts the monitor down.
    pub fn vmm_shutdown(&mut self) -> (step: Step)
        requires
            old(self)@.idle(),
        ensures
            (final(self)@, step@) == begun(old(self)@, vmm_shutdown_plan(old(self)@)),
            old(self)@.vm_config is None ==> step@ == StepView::Done(Ok(ReplyView::Done))
                && final(self)@ == (Monitor {
                notices: old(self)@.notices.push(Notice::MonitorShutdown),
                ..old(self)@
            }),
            old(self)@.vm_config is Some && old(self)@.vm is None ==> step@ == StepView::Done(Ok(ReplyView::Done))
                && final(self)@ == (Monitor {
                vm_config: None,
                notices: old(self)@.notices.push(Notice::Deleted).push(Notice::MonitorShutdown),
                ..old(self)@
            }),
            old(self)@.vm_config is Some && old(self)@.vm is Some ==> step@ == StepView::Perform(
                Action::ShutdownVm,
            ) && final(self)@.vm is None,
    {
        let plan = plan_vmm_shutdown(self);
        proof {
            reveal_with_fuel(settled, 4);
        }
        self.begin(plan)
    }

    /// Resizes the machine, or its configuration where there is no machine.
    pub fn vm_resize(
        &mut self,
        desired_vcpus: Option<u32>,
        desired_ram: Option<u64>,
        desired_balloon: Option<u64>,
    ) -> (step: Step)
        requires
            old(self)@.idle(),
        ensures
            (final(self)@, step@) == begun(
                old(self)@,
                resize_plan(
                    old(self)@,
                    Sizes { vcpus: desired_vcpus, ram: desired_ram, balloon: desired_balloon },
                ),
            ),
            old(self)@.vm_config is None ==> step@ == refusal(VmError::VmNotCreated)
                && final(self)@ == old(self)@,
            old(self)@.vm is Some && old(self)@.vm_config is Some ==> step@ == StepView::Perform(
                Action::ResizeVm(
                    Sizes { vcpus: desired_vcpus, ram: desired_ram, balloon: desired_balloon },
                ),
            ),
            old(self)@.vm is None ==> (old(self)@.vm_config matches Some(config) ==> step@
                == StepView::Done(Ok(ReplyView::Done)) && final(self)@ == (Monitor {
                vm_config: Some(resized(config, desired_vcpus, desired_ram, desired_balloon)),
                ..old(self)@
            })),
    {
        let sizes = Sizes { vcpus: desired_vcpus, ram: desired_ram, balloon: desired_balloon };
        let plan = plan_resize(self, sizes);
        proof {
            lemma_refused(self@, VmError::VmNotCreated);
            reveal_with_fuel(settled, 2);
        }
        self.begin(plan)
    }

    /// Resizes a memory zone of the machine, or of its configuration where there
    /// is no machine.
    pub fn vm_resize_zone(&mut self, id: String, desired_ram: u64) -> (step: Step)
        requires
            old(self)@.idle(),
        ensures
            (final(self)@, step@) == begun(old(self)@, zone_plan(old(self)@, id, desired_ram)),
            old(self)@.vm_config is None ==> step@ == refusal(VmError::VmNotCreated) && final(self)@ == old(self)@,
            old(self)@.vm is Some && old(self)@.vm_config is Some ==> step@ == StepView::Perform(
                Action::ResizeZone(id, desired_ram),
            ),
            old(self)@.vm is None ==> (old(self)@.vm_config matches Some(config) ==> if has_zone(config, id@) {
                step@ == StepView::Done(Ok(ReplyView::Done)) && final(self)@ == (Monitor {
                    vm_config: Some(zone_resized(config, id@, desired_ram)),
                    ..old(self)@
                })
            } else {
                step@ == refusal(VmError::ResizeZone) && final(self)@ == old(self)@
            }),
    {
        let plan = plan_zone(self, id, desired_ram);
        proof {
            lemma_refused(self@, VmError::VmNotCreated);
            lemma_refused(self@, VmError::ResizeZone);
            reveal_with_fuel(settled, 2);
        }
        self.begin(plan)
    }

    /// Adds a device to the machine, or to its configuration where there is no
    /// machine.
    fn add(&mut self, device: Device) -> (step: Step)
        requires
            old(self)@.idle(),
        ensures
            (final(self)@, step@) == begun(
                considering(old(self)@, device),
                add_plan(old(self)@, device),
            ),
            old(self)@.vm_config is None ==> step@ == refusal(VmError::VmNotCreated)
                && final(self)@ == old(self)@,
            old(self)@.vm_config matches Some(config) ==> if device is Vsock
                && config.vsock is Some {
                step@ == refusal(VmError::TooManyVsockDevices) && final(self)@ == old(self)@
            } else {
                step@ == StepView::Perform(Action::Validate) && final(self)@.candidate == Some(
                    with_device(config, device),
                ) && final(self)@.vm_config == old(self)@.vm_config
            },
    {
        self.consider(device.clone());
        let plan = plan_add(self, device);
        proof {
            lemma_refused(self@, VmError::VmNotCreated);
            lemma_refused(self@, VmError::TooManyVsockDevices);
        }
        self.begin(plan)
    }

    /// Adds a passed-through device.
    pub fn vm_add_device(&mut self, device_cfg: DeviceConfig) -> (step: Step)
        requires
            old(self)@.idle(),
        ensures
            (final(self)@, step@) == begun(
                considering(old(self)@, Device::Vfio(device_cfg)),
                add_plan(old(self)@, Device::Vfio(device_cfg)),
            ),
            old(self)@.vm_config is None ==> step@ == refusal(VmError::VmNotCreated)
                && final(self)@ == old(self)@,
            old(self)@.vm_config matches Some(config) ==> step@ == StepView::Perform(
                Action::Validate,
            ) && final(self)@.candidate == Some(with_device(config, Device::Vfio(device_cfg)))
                && final(self)@.vm_config == old(self)@.vm_config,
    {
        self.add(Device::Vfio(device_cfg))
    }

    /// Adds a device that another process provides.
    pub fn vm_add_user_device(&mut self, device_cfg: UserDeviceConfig) -> (step: Step)
        requires
            old(self)@.idle(),
        ensures
            (final(self)@, step@) == begun(
                considering(old(self)@, Device::User(device_cfg)),
                add_plan(old(self)@, Device::User(device_cfg)),
            ),
            old(self)@.vm_config is None ==> step@ == refusal(VmError::VmNotCreated)
                && final(self)@ == old(self)@,
            old(self)@.vm_config matches Some(config) ==> step@ == StepView::Perform(
                Action::Validate,
            ) && final(self)@.candidate == Some(with_device(config, Device::User(device_cfg)))
                && final(self)@.vm_config == old(self)@.vm_config,
    {
        self.add(Device::User(device_cfg))
    }

    /// Adds a disk.
    pub fn vm_add_disk(&mut self, disk_cfg: DiskConfig) -> (step: Step)
        requires
            old(self)@.idle(),
        ensures
            (final(self)@, step@) == begun(
                considering(old(self)@, Device::Disk(disk_cfg)),
                add_plan(old(self)@, Device::Disk(disk_cfg)),
            ),
            old(self)@.vm_config is None ==> step@ == refusal(VmError::VmNotCreated)
                && final(self)@ == old(self)@,
            old(self)@.vm_config matches Some(config) ==> step@ == StepView::Perform(
                Action::Validate,
            ) && final(self)@.candidate == Some(with_device(config, Device::Disk(disk_cfg)))
                && final(self)@.vm_config == old(self)@.vm_config,
    {
        self.add(Device::Disk(disk_cfg))
    }

    /// Adds a shared file system.
    pub fn vm_add_fs(&mut self, fs_cfg: FsConfig) -> (step: Step)
        requires
            old(self)@.idle(),
        ensures
            (final(self)@, step@) == begun(
                considering(old(self)@, Device::Fs(fs_cfg)),
                add_plan(old(self)@, Device::Fs(fs_cfg)),
            ),
            old(self)@.vm_config is None ==> step@ == refusal(VmError::VmNotCreated)
                && final(self)@ == old(self)@,
            old(self)@.vm_config matches Some(config) ==> step@ == StepView::Perform(
                Action::Validate,
            ) && final(self)@.candidate == Some(with_device(config, Device::Fs(fs_cfg)))
                && final(self)@.vm_config == old(self)@.vm_config,
    {
        self.add(Device::Fs(fs_cfg))
    }

    /// Adds persistent memory.
    pub fn vm_add_pmem(&mut self, pmem_cfg: PmemConfig) -> (step: Step)
        requires
            old(self)@.idle(),
        ensures
            (final(self)@, step@) == begun(
                considering(old(self)@, Device::Pmem(pmem_cfg)),
                add_plan(old(self)@, Device::Pmem(pmem_cfg)),
            ),
            old(self)@.vm_config is None ==> step@ == refusal(VmError::VmNotCreated)
                && final(self)@ == old(self)@,
            old(self)@.vm_config matches Some(config) ==> step@ == StepView::Perform(
                Action::Validate,
            ) && final(self)@.candidate == Some(with_device(config, Device::Pmem(pmem_cfg)))
                && final(self)@.vm_config == old(self)@.vm_config,
    {
        self.add(Device::Pmem(pmem_cfg))
    }

    /// Adds a network device.
    pub fn vm_add_net(&mut self, net_cfg: NetConfig) -> (step: Step)
        requires
            old(self)@.idle(),
        ensures
            (final(self)@, step@) == begun(
                considering(old(self)@, Device::Net(net_cfg)),
                add_plan(old(self)@, Device::Net(net_cfg)),
            ),
            old(self)@.vm_config is None ==> step@ == refusal(VmError::VmNotCreated)
                && final(self)@ == old(self)@,
            old(self)@.vm_config matches Some(config) ==> step@ == StepView::Perform(
                Action::Validate,
            ) && final(self)@.candidate == Some(with_device(config, Device::Net(net_cfg)))
                && final(self)@.vm_config == old(self)@.vm_config,
    {
        self.add(Device::Net(net_cfg))
    }

    /// Adds a vDPA device.
    pub fn vm_add_vdpa(&mut self, vdpa_cfg: VdpaConfig) -> (step: Step)
        requires
            old(self)@.idle(),
        ensures
            (final(self)@, step@) == begun(
                considering(old(self)@, Device::Vdpa(vdpa_cfg)),
                add_plan(old(self)@, Device::Vdpa(vdpa_cfg)),
            ),
            old(self)@.vm_config is None ==> step@ == refusal(VmError::VmNotCreated)
                && final(self)@ == old(self)@,
            old(self)@.vm_config matches Some(config) ==> step@ == StepView::Perform(
                Action::Validate,
            ) && final(self)@.candidate == Some(with_device(config, Device::Vdpa(vdpa_cfg)))
                && final(self)@.vm_config == old(self)@.vm_config,
    {
        self.add(Device::Vdpa(vdpa_cfg))
    }

    /// Adds the vsock device, where there is none yet.
    pub fn vm_add_vsock(&mut self, vsock_cfg: VsockConfig) -> (step: Step)
        requires
            old(self)@.idle(),
        ensures
            (final(self)@, step@) == begun(
                considering(old(self)@, Device::Vsock(vsock_cfg)),
                add_plan(old(self)@, Device::Vsock(vsock_cfg)),
            ),
            old(self)@.vm_config is None ==> step@ == refusal(VmError::VmNotCreated)
                && final(self)@ == old(self)@,
            old(self)@.vm_config matches Some(config) ==> if config.vsock is Some {
                step@ == refusal(VmError::TooManyVsockDevices) && final(self)@ == old(self)@
            } else {
                step@ == StepView::Perform(Action::Validate) && final(self)@.candidate == Some(
                    with_device(config, Device::Vsock(vsock_cfg)),
                ) && final(self)@.vm_config == old(self)@.vm_config
            },
    {
        self.add(Device::Vsock(vsock_cfg))
    }

    /// Removes a device from the machine, or from its configuration where there
    /// is no machine.
    pub fn vm_remove_device(&mut self, id: String) -> (step: Step)
        requires
            old(self)@.idle(),
        ensures
            (final(self)@, step@) == begun(old(self)@, remove_plan(old(self)@, id)),
            old(self)@.vm is None && old(self)@.vm_config is None ==> step@ == refusal(VmError::VmNotCreated) && final(self)@ == old(self)@,
            old(self)@.vm is Some ==> step@ == StepView::Perform(Action::RemoveDevice(id)),
            old(self)@.vm is None && old(self)@.vm_config is Some ==> step@ == StepView::Perform(
                Action::RemoveFromConfig(id),
            ),
    {
        let plan = plan_remove(self, id);
        proof {
            lemma_refused(self@, VmError::VmNotCreated);
        }
        self.begin(plan)
    }

    /// Answers with the machine's counters.
    pub fn vm_counters(&mut self) -> (step: Step)
        requires
            old(self)@.idle(),
        ensures
            (final(self)@, step@) == begun(old(self)@, counters_plan(old(self)@)),
            old(self)@.vm is None ==> step@ == refusal(VmError::VmNotRunning) && final(self)@ == old(self)@,
            old(self)@.vm is Some ==> step@ == StepView::Perform(Action::ReadCounters),
    {
        let plan = plan_counters(self);
        proof {
            lemma_refused(self@, VmError::VmNotRunning);
        }
        self.begin(plan)
    }

    /// Presses the machine's power button.
    pub fn vm_power_button(&mut self) -> (step: Step)
        requires
            old(self)@.idle(),
        ensures
            (final(self)@, step@) == begun(old(self)@, power_button_plan(old(self)@)),
            old(self)@.vm is None ==> step@ == refusal(VmError::VmNotRunning) && final(self)@ == old(self)@,
            old(self)@.vm is Some ==> step@ == StepView::Perform(Action::PowerButton),
    {
        let plan = plan_power_button(self);
        proof {
            lemma_refused(self@, VmError::VmNotRunning);
        }
        self.begin(plan)
    }

    /// Sends the machine a non-maskable interrupt.
    pub fn vm_nmi(&mut self) -> (step: Step)
        requires
            old(self)@.idle(),
        ensures
            (final(self)@, step@) == begun(old(self)@, nmi_plan(old(self)@)),
            old(self)@.vm is None ==> step@ == refusal(VmError::VmNotRunning) && final(self)@ == old(self)@,
            old(self)@.vm is Some ==> step@ == StepView::Perform(Action::Nmi),
    {
        let plan = plan_nmi(self);
        proof {
            lemma_refused(self@, VmError::VmNotRunning);
        }
        self.begin(plan)
    }

    /// Takes in a machine from another host.
    pub fn vm_receive_migration(&mut self, data: VmReceiveMigrationData) -> (step: Step)
        requires
            old(self)@.idle(),
        ensures
            (final(self)@, step@) == begun(
                at_endpoint(old(self)@, data.receiver_url@),
                receive_plan(data.receiver_url),
            ),
            endpoint_of(data.receiver_url@) is None ==> step@ == StepView::Done(
                Err(Failure::Migration(no_path_in(data.receiver_url))),
            ) && final(self)@ == old(self)@,
            endpoint_of(data.receiver_url@) is Some ==> step@ == StepView::Perform(Action::Bind)
                && final(self)@.session.endpoint == endpoint_of(data.receiver_url@),
    {
        let socket = self.set_endpoint(&data.receiver_url);
        let plan = plan_receive(&socket, data.receiver_url);
        proof {
            reveal_with_fuel(settled, 2);
        }
        self.begin(plan)
    }

    /// Sends the machine to another host.
    pub fn vm_send_migration(&mut self, data: VmSendMigrationData) -> (step: Step)
        requires
            old(self)@.idle(),
            old(self)@.vm_config is Some,
        ensures
            (final(self)@, step@) == begun(old(self)@, send_migration_plan(data)),
            step@ == StepView::Perform(Action::ReadSharedMemory),
    {
        let plan = plan_send_migration(data);
        self.begin(plan)
    }
}

} // verus!
