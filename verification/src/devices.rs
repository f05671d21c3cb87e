//! The devices and the sizes of a machine: the plans of the requests that
//! report, resize, add to and remove from it.

use vstd::prelude::*;
use crate::config::{has_zone, with_device, Device};
use crate::error::VmError;
use crate::lifecycle::{
    ask, asking, chain, on_machine, only, plan_if, plan_on_machine, plan_refusal, provided, refuse,
};
use crate::model::Monitor;
use crate::plan::{Action, Change, Expect, Phase, Sizes, Wrap};
use crate::vmm::Vmm;

verus! {

/// A report is drawn up: the configuration and its memory and, where there is
/// a machine, its state, its balloon and its device tree.
pub open spec fn info_plan(m: Monitor) -> Seq<Phase> {
    if m.vm_config is None {
        refuse(VmError::VmNotCreated)
    } else {
        provided(m.vm is Some, seq![Phase::Ask(Action::ReadState, Expect::State, Wrap::Machine)])
            + seq![Phase::Ask(Action::MeasureMemory, Expect::MemorySize, Wrap::Never)] + provided(
            m.vm is Some,
            seq![
                Phase::Ask(Action::ReadBalloon, Expect::BalloonSize, Wrap::Never),
                Phase::Ask(Action::ReadDeviceTree, Expect::DeviceTree, Wrap::Never),
            ],
        ) + seq![Phase::Apply(Change::Report)]
    }
}

/// The machine is resized or, where there is none, its configuration.
pub open spec fn resize_plan(m: Monitor, sizes: Sizes) -> Seq<Phase> {
    if m.vm_config is None {
        refuse(VmError::VmNotCreated)
    } else if m.vm is Some {
        seq![ask(Action::ResizeVm(sizes), Wrap::Machine)]
    } else {
        seq![Phase::Apply(Change::Resize(sizes))]
    }
}

/// A memory zone of the machine is resized or, where there is none, of its
/// configuration, which has to have such a zone.
pub open spec fn zone_plan(m: Monitor, id: String, ram: u64) -> Seq<Phase> {
    match m.vm_config {
        None => refuse(VmError::VmNotCreated),
        Some(config) => if m.vm is Some {
            seq![ask(Action::ResizeZone(id, ram), Wrap::Machine)]
        } else if has_zone(config, id@) {
            seq![Phase::Apply(Change::ResizeZone(id, ram))]
        } else {
            refuse(VmError::ResizeZone)
        },
    }
}

/// The monitor once it considers its configuration with one more device.
pub open spec fn considering(m: Monitor, device: Device) -> Monitor {
    Monitor {
        candidate: match m.vm_config {
            Some(config) => Some(with_device(config, device)),
            None => None,
        },
        ..m
    }
}

/// A device is added to the machine or, where there is none, to its
/// configuration, once the configuration with it has been validated. There is
/// at most one vsock device.
pub open spec fn add_plan(m: Monitor, device: Device) -> Seq<Phase> {
    match m.vm_config {
        None => refuse(VmError::VmNotCreated),
        Some(config) => if device is Vsock && config.vsock is Some {
            refuse(VmError::TooManyVsockDevices)
        } else {
            seq![ask(Action::Validate, Wrap::ConfigValidation)] + if m.vm is Some {
                seq![Phase::Ask(Action::AddDevice(device), Expect::Device, Wrap::Machine)]
            } else {
                seq![
                    Phase::Apply(Change::AddDevice(device)),
                    Phase::Apply(Change::NoData),
                ]
            }
        },
    }
}

/// A device is removed from the machine or, where there is none, from its
/// configuration.
pub open spec fn remove_plan(m: Monitor, id: String) -> Seq<Phase> {
    if m.vm is Some {
        seq![ask(Action::RemoveDevice(id), Wrap::Machine)]
    } else if m.vm_config is Some {
        seq![Phase::Ask(Action::RemoveFromConfig(id), Expect::Removal(id), Wrap::Never)]
    } else {
        refuse(VmError::VmNotCreated)
    }
}

/// The machine's counters are read, and put in JSON.
pub open spec fn counters_plan(m: Monitor) -> Seq<Phase> {
    on_machine(
        m,
        seq![
            ask(Action::ReadCounters, Wrap::Machine),
            Phase::Ask(Action::EncodeCounters, Expect::Data, Wrap::SerializeJson),
        ],
    )
}

/// A report is drawn up.
pub fn plan_info(vmm: &Vmm) -> (plan: Vec<Phase>)
    ensures
        plan@ == info_plan(vmm@),
{
    if vmm.vm_config.is_none() {
        plan_refusal(VmError::VmNotCreated)
    } else {
        let state = plan_if(
            vmm.vm.is_some(),
            only(Phase::Ask(Action::ReadState, Expect::State, Wrap::Machine)),
        );
        let memory = chain(
            state,
            only(Phase::Ask(Action::MeasureMemory, Expect::MemorySize, Wrap::Never)),
        );
        let details: Vec<Phase> = vec![
            Phase::Ask(Action::ReadBalloon, Expect::BalloonSize, Wrap::Never),
            Phase::Ask(Action::ReadDeviceTree, Expect::DeviceTree, Wrap::Never),
        ];
        assert(details@ =~= seq![
            Phase::Ask(Action::ReadBalloon, Expect::BalloonSize, Wrap::Never),
            Phase::Ask(Action::ReadDeviceTree, Expect::DeviceTree, Wrap::Never),
        ]);
        let machine = chain(memory, plan_if(vmm.vm.is_some(), details));
        chain(machine, only(Phase::Apply(Change::Report)))
    }
}

/// The machine, or its configuration, is resized.
pub fn plan_resize(vmm: &Vmm, sizes: Sizes) -> (plan: Vec<Phase>)
    ensures
        plan@ == resize_plan(vmm@, sizes),
{
    if vmm.vm_config.is_none() {
        plan_refusal(VmError::VmNotCreated)
    } else if vmm.vm.is_some() {
        only(asking(Action::ResizeVm(sizes), Wrap::Machine))
    } else {
        only(Phase::Apply(Change::Resize(sizes)))
    }
}

/// A memory zone of the machine, or of its configuration, is resized.
pub fn plan_zone(vmm: &Vmm, id: String, ram: u64) -> (plan: Vec<Phase>)
    ensures
        plan@ == zone_plan(vmm@, id, ram),
{
    match &vmm.vm_config {
        None => plan_refusal(VmError::VmNotCreated),
        Some(config) => if vmm.vm.is_some() {
            only(asking(Action::ResizeZone(id, ram), Wrap::Machine))
        } else if config.names_zone(&id) {
            only(Phase::Apply(Change::ResizeZone(id, ram)))
        } else {
            plan_refusal(VmError::ResizeZone)
        },
    }
}

/// A device is added to the machine, or to its configuration.
pub fn plan_add(vmm: &Vmm, device: Device) -> (plan: Vec<Phase>)
    ensures
        plan@ == add_plan(vmm@, device),
{
    match &vmm.vm_config {
        None => plan_refusal(VmError::VmNotCreated),
        Some(config) => {
            let second_vsock = match &device {
                Device::Vsock(_) => config.vsock.is_some(),
                _ => false,
            };
            if second_vsock {
                plan_refusal(VmError::TooManyVsockDevices)
            } else {
                let validated = only(asking(Action::Validate, Wrap::ConfigValidation));
                if vmm.vm.is_some() {
                    chain(
                        validated,
                        only(Phase::Ask(Action::AddDevice(device), Expect::Device, Wrap::Machine)),
                    )
                } else {
                    let plan: Vec<Phase> = vec![
                        Phase::Apply(Change::AddDevice(device)),
                        Phase::Apply(Change::NoData),
                    ];
                    assert(plan@ =~= seq![
                        Phase::Apply(Change::AddDevice(device)),
                        Phase::Apply(Change::NoData),
                    ]);
                    chain(validated, plan)
                }
            }
        },
    }
}

/// A device is removed from the machine, or from its configuration.
pub fn plan_remove(vmm: &Vmm, id: String) -> (plan: Vec<Phase>)
    ensures
        plan@ == remove_plan(vmm@, id),
{
    if vmm.vm.is_some() {
        only(asking(Action::RemoveDevice(id), Wrap::Machine))
    } else if vmm.vm_config.is_some() {
        only(
            Phase::Ask(Action::RemoveFromConfig(id.clone()), Expect::Removal(id), Wrap::Never),
        )
    } else {
        plan_refusal(VmError::VmNotCreated)
    }
}

/// The machine's counters are read, and put in JSON.
pub fn plan_counters(vmm: &Vmm) -> (plan: Vec<Phase>)
    ensures
        plan@ == counters_plan(vmm@),
{
    let plan: Vec<Phase> = vec![
        asking(Action::ReadCounters, Wrap::Machine),
        Phase::Ask(Action::EncodeCounters, Expect::Data, Wrap::SerializeJson),
    ];
    assert(plan@ =~= seq![
        ask(Action::ReadCounters, Wrap::Machine),
        Phase::Ask(Action::EncodeCounters, Expect::Data, Wrap::SerializeJson),
    ]);
    plan_on_machine(vmm, plan)
}

} // verus!
