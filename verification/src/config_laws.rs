//! What the requests change of a configuration, field by field.

use vstd::prelude::*;
use crate::config::{
    has_zone, is_first_zone, items, with_all_fds, with_device, with_fds, with_net_fds,
    Device, MemoryConfigView, MemoryZoneConfig, NetConfigView, RestoreConfig, RestoredNetConfig, VmConfigView,
};
use crate::device_laws::{law_cold_add, law_new_descriptors_only_replace, law_zone_resize_changes_one_size};
use crate::error::VmError;
use crate::model::{advanced, fits, refusal, settled, Monitor};
use crate::plan::{Action, Outcome, ReplyView, Sizes, StepView};
use crate::restore_laws::law_restore;
use crate::run::{course, possible, taken_up, Request};

verus! {

/// What a list has, where there is one.
pub open spec fn listed<T>(list: Option<Seq<T>>) -> Seq<T> {
    match list {
        Some(list) => list,
        None => Seq::empty(),
    }
}

/// Whether a list has been lengthened by one item: there is a list, the items
/// that were there are still there, in their order, and the new one comes
/// behind them.
pub open spec fn lengthened<T>(before: Option<Seq<T>>, after: Option<Seq<T>>, item: T) -> bool {
    &&& after is Some
    &&& listed(after).len() == listed(before).len() + 1
    &&& forall|i: int|
        0 <= i < listed(before).len() ==> #[trigger] listed(after)[i] == listed(before)[i]
    &&& listed(after)[listed(before).len() as int] == item
}

/// A device that has joined a configuration is the last of the devices of its
/// kind, behind those that were there, and no other field of the configuration
/// has changed.
pub proof fn law_a_device_joins_its_kind(before: VmConfigView, device: Device)
    ensures
        ({
            let after = with_device(before, device);
            &&& match device {
                Device::Vfio(d) => lengthened(before.devices, after.devices, d),
                _ => after.devices == before.devices,
            }
            &&& match device {
                Device::User(d) => lengthened(before.user_devices, after.user_devices, d),
                _ => after.user_devices == before.user_devices,
            }
            &&& match device {
                Device::Disk(d) => lengthened(before.disks, after.disks, d),
                _ => after.disks == before.disks,
            }
            &&& match device {
                Device::Fs(d) => lengthened(before.fs, after.fs, d),
                _ => after.fs == before.fs,
            }
            &&& match device {
                Device::Pmem(d) => lengthened(before.pmem, after.pmem, d),
                _ => after.pmem == before.pmem,
            }
            &&& match device {
                Device::Net(d) => lengthened(before.net, after.net, d@),
                _ => after.net == before.net,
            }
            &&& match device {
                Device::Vdpa(d) => lengthened(before.vdpa, after.vdpa, d),
                _ => after.vdpa == before.vdpa,
            }
            &&& match device {
                Device::Vsock(d) => after.vsock == Some(d),
                _ => after.vsock == before.vsock,
            }
            &&& after.cpus == before.cpus
            &&& after.memory == before.memory
            &&& after.payload == before.payload
            &&& after.rng == before.rng
            &&& after.balloon == before.balloon
            &&& after.serial == before.serial
            &&& after.console == before.console
            &&& after.pvpanic == before.pvpanic
            &&& after.iommu == before.iommu
            &&& after.watchdog == before.watchdog
            &&& after.tdx == before.tdx
            &&& after.landlock_enable == before.landlock_enable
            &&& after.options == before.options
        }),
{
}

/// Without a machine, a device is put to the validation together with the
/// configuration as it would be with it, and joins the configuration where it
/// passes: in the list of its kind the former items stay, in their order, and
/// the new one follows them. Every other field of the configuration, and
/// everything else of the monitor, stays as it was. Where it does not pass,
/// nothing changes.
#[verifier::rlimit(30)]
pub proof fn law_cold_add_field_by_field(
    m: Monitor,
    before: VmConfigView,
    device: Device,
    outcome: Outcome,
)
    requires
        m.idle(),
        m.vm is None,
        m.vm_config == Some(before),
        device is Vsock ==> before.vsock is None,
        fits(taken_up(m, Request::Add(device)).0, outcome),
    ensures
        ({
            let asking = taken_up(m, Request::Add(device));
            let end = advanced(asking.0, outcome);
            &&& asking.1 == StepView::Perform(Action::Validate)
            &&& asking.0.vm_config == Some(before)
            &&& match outcome {
                Outcome::Failed(fault) => end == (m, refusal(VmError::ConfigValidation(fault))),
                _ => {
                    &&& end.1 == StepView::Done(Ok(ReplyView::Data(None)))
                    &&& end.0 == (Monitor { vm_config: end.0.vm_config, ..m })
                    &&& end.0.vm_config is Some
                    &&& end.0.vm_config == asking.0.candidate
                },
            }
            &&& asking.0.candidate matches Some(after) && {
                &&& match device {
                    Device::Vfio(d) => lengthened(before.devices, after.devices, d),
                    _ => after.devices == before.devices,
                }
                &&& match device {
                    Device::User(d) => lengthened(before.user_devices, after.user_devices, d),
                    _ => after.user_devices == before.user_devices,
                }
                &&& match device {
                    Device::Disk(d) => lengthened(before.disks, after.disks, d),
                    _ => after.disks == before.disks,
                }
                &&& match device {
                    Device::Fs(d) => lengthened(before.fs, after.fs, d),
                    _ => after.fs == before.fs,
                }
                &&& match device {
                    Device::Pmem(d) => lengthened(before.pmem, after.pmem, d),
                    _ => after.pmem == before.pmem,
                }
                &&& match device {
                    Device::Net(d) => lengthened(before.net, after.net, d@),
                    _ => after.net == before.net,
                }
                &&& match device {
                    Device::Vdpa(d) => lengthened(before.vdpa, after.vdpa, d),
                    _ => after.vdpa == before.vdpa,
                }
                &&& match device {
                    Device::Vsock(d) => after.vsock == Some(d),
                    _ => after.vsock == before.vsock,
                }
                &&& after.cpus == before.cpus
                &&& after.memory == before.memory
                &&& after.payload == before.payload
                &&& after.rng == before.rng
                &&& after.balloon == before.balloon
                &&& after.serial == before.serial
                &&& after.console == before.console
                &&& after.pvpanic == before.pvpanic
                &&& after.iommu == before.iommu
                &&& after.watchdog == before.watchdog
                &&& after.tdx == before.tdx
                &&& after.landlock_enable == before.landlock_enable
                &&& after.options == before.options
            }
        }),
{
    law_cold_add(m, before, device, outcome);
    law_a_device_joins_its_kind(before, device);
}

/// With a machine, a device is put to the same validation as without one.
pub proof fn law_validation_does_not_depend_on_the_machine(m: Monitor, device: Device)
    requires
        m.idle(),
        m.vm_config is Some,
    ensures
        ({
            let with = taken_up(m, Request::Add(device));
            let without = taken_up(Monitor { vm: None, ..m }, Request::Add(device));
            &&& with.1 == without.1
            &&& with.0.candidate == without.0.candidate
            &&& with.0.waiting == without.0.waiting
        }),
{
    reveal_with_fuel(settled, 2);
}

/// Whether an entry of new descriptors bears the name of a network device.
pub open spec fn is_for(entry: RestoredNetConfig, net: NetConfigView) -> bool {
    net.id matches Some(id) && id@ == entry.id@
}

/// One more entry of new descriptors.
proof fn lemma_one_more_entry(
    nets: Seq<NetConfigView>,
    restored: Seq<RestoredNetConfig>,
    i: int,
)
    requires
        0 <= i < nets.len(),
        restored.len() > 0,
    ensures
        with_all_fds(nets, restored.drop_last()).len() == nets.len(),
        with_all_fds(nets, restored).len() == nets.len(),
        with_all_fds(nets, restored.drop_last())[i].id == nets[i].id,
        with_all_fds(nets, restored)[i] == with_fds(
            with_all_fds(nets, restored.drop_last())[i],
            restored.last(),
        ),
{
    law_new_descriptors_only_replace(nets, restored.drop_last(), i);
}

/// A device that loses its descriptors by one entry gets none by another.
proof fn lemma_no_descriptors(
    nets: Seq<NetConfigView>,
    restored: Seq<RestoredNetConfig>,
    i: int,
    j: int,
)
    requires
        0 <= i < nets.len(),
        0 <= j < restored.len(),
        is_for(restored[j], nets[i]),
        restored[j].fds is None,
    ensures
        with_all_fds(nets, restored)[i].fds is None,
    decreases restored.len(),
{
    lemma_one_more_entry(nets, restored, i);
    if j + 1 < restored.len() {
        lemma_no_descriptors(nets, restored.drop_last(), i, j);
    }
}

/// A device that descriptors back has the descriptors of the last entry that
/// bears its name, or its own where none does.
proof fn lemma_last_descriptors(
    nets: Seq<NetConfigView>,
    restored: Seq<RestoredNetConfig>,
    i: int,
)
    requires
        0 <= i < nets.len(),
        nets[i].fds is Some,
        forall|j: int|
            0 <= j < restored.len() && is_for(#[trigger] restored[j], nets[i]) ==> restored[j].fds is Some,
    ensures
        with_all_fds(nets, restored)[i].fds is Some,
        forall|k: int|
            0 <= k < restored.len() && is_for(#[trigger] restored[k], nets[i]) && (forall|j: int|
                k < j < restored.len() ==> !is_for(#[trigger] restored[j], nets[i]))
                ==> with_all_fds(nets, restored)[i].fds == Some(restored[k].fds->0@),
    decreases restored.len(),
{
    if restored.len() > 0 {
        let before = restored.drop_last();
        lemma_one_more_entry(nets, restored, i);
        assert forall|j: int|
            0 <= j < before.len() && is_for(#[trigger] before[j], nets[i]) implies before[j].fds is Some by {
            assert(before[j] == restored[j]);
        }
        lemma_last_descriptors(nets, before, i);
        let last = restored.len() - 1;
        assert(is_for(restored[last], nets[i]) ==> restored[last].fds is Some);
        assert forall|k: int|
            0 <= k < restored.len() && is_for(#[trigger] restored[k], nets[i]) && (forall|j: int|
                k < j < restored.len() ==> !is_for(#[trigger] restored[j], nets[i])) implies with_all_fds(
            nets,
            restored,
        )[i].fds == Some(restored[k].fds->0@) by {
            if k < last {
                assert(!is_for(restored[last], nets[i]));
                assert(before[k] == restored[k]);
                assert forall|j: int| k < j < before.len() implies !is_for(
                    #[trigger] before[j],
                    nets[i],
                ) by {
                    assert(before[j] == restored[j]);
                }
            }
        }
    }
}

/// What becomes of the descriptors of a network device in a restoring, by the
/// entries of new descriptors. A device that is not backed by descriptors, or
/// that no entry is for, keeps what it has. Otherwise it has exactly the
/// descriptors of the last entry that is for it. An entry without descriptors
/// leaves it without, and the entries behind that one no longer count, since
/// the device is not backed by descriptors any more.
pub open spec fn has_its_descriptors(
    before: NetConfigView,
    after: NetConfigView,
    entries: Seq<RestoredNetConfig>,
) -> bool {
    &&& before.fds is None ==> after.fds is None
    &&& before.fds is Some && (forall|j: int|
        0 <= j < entries.len() ==> !is_for(#[trigger] entries[j], before)) ==> after.fds
        == before.fds
    &&& before.fds is Some ==> forall|k: int|
        {
            &&& 0 <= k < entries.len()
            &&& is_for(#[trigger] entries[k], before)
            &&& forall|j: int|
                k < j < entries.len() ==> !is_for(#[trigger] entries[j], before)
            &&& forall|j: int|
                0 <= j < entries.len() && is_for(#[trigger] entries[j], before)
                    ==> entries[j].fds is Some
        } ==> after.fds == Some(entries[k].fds->0@)
    &&& (exists|j: int|
        0 <= j < entries.len() && is_for(#[trigger] entries[j], before) && entries[j].fds is None)
        ==> after.fds is None
}

/// The new descriptors of a configuration, device by device.
proof fn lemma_new_descriptors(
    nets: Seq<NetConfigView>,
    restored: Seq<RestoredNetConfig>,
    i: int,
)
    requires
        0 <= i < nets.len(),
    ensures
        with_all_fds(nets, restored).len() == nets.len(),
        has_its_descriptors(nets[i], with_all_fds(nets, restored)[i], restored),
        with_all_fds(nets, restored)[i] == (NetConfigView {
            fds: with_all_fds(nets, restored)[i].fds,
            ..nets[i]
        }),
{
    law_new_descriptors_only_replace(nets, restored, i);
    let after = with_all_fds(nets, restored)[i];
    if forall|j: int| 0 <= j < restored.len() ==> !is_for(#[trigger] restored[j], nets[i]) {
        assert forall|j: int| 0 <= j < restored.len() implies !(nets[i].id matches Some(id) && id@
            == #[trigger] restored[j].id@) by {
            assert(!is_for(restored[j], nets[i]));
        }
        assert(after == nets[i]);
    }
    if nets[i].fds is Some && forall|j: int|
        0 <= j < restored.len() && is_for(#[trigger] restored[j], nets[i]) ==> restored[j].fds is Some {
        lemma_last_descriptors(nets, restored, i);
    }
    if exists|j: int|
        0 <= j < restored.len() && is_for(#[trigger] restored[j], nets[i]) && restored[j].fds is None {
        let j = choose|j: int|
            0 <= j < restored.len() && is_for(#[trigger] restored[j], nets[i]) && restored[j].fds is None;
        lemma_no_descriptors(nets, restored, i, j);
    }
}

/// A machine that has been restored has the configuration that was read, field
/// by field, but for the descriptors of its network devices. There are as many
/// of these as were read, in the same order, and of each nothing but its
/// descriptors can differ. A device that is backed by descriptors has those of
/// the last entry of the restoring that bears its name, all of them and in
/// their order.
#[verifier::rlimit(30)]
pub proof fn law_restored_configuration(
    m: Monitor,
    restore: RestoreConfig,
    outcomes: Seq<Outcome>,
)
    requires
        m.vm is None,
        m.vm_config is None,
        restore.source_url is Some,
        possible(m, Request::Restore(restore), outcomes),
        course(m, Request::Restore(restore), outcomes).1 matches StepView::Done(Ok(_)),
    ensures
        ({
            let end = course(m, Request::Restore(restore), outcomes);
            let entries = match restore.net_fds {
                Some(entries) => entries@,
                None => Seq::empty(),
            };
            &&& outcomes.len() > 0
            &&& outcomes[0] matches Outcome::Config(config) && end.0.vm_config matches Some(after) && {
                let before = config@;
                &&& after.net is Some <==> before.net is Some
                &&& listed(after.net).len() == listed(before.net).len()
                &&& forall|i: int|
                    0 <= i < listed(before.net).len() ==> {
                        let old_net = #[trigger] listed(before.net)[i];
                        let new_net = listed(after.net)[i];
                        &&& has_its_descriptors(old_net, new_net, entries)
                        &&& new_net.id == old_net.id
                        &&& new_net.mac == old_net.mac
                        &&& new_net.host_mac == old_net.host_mac
                        &&& new_net.vhost_user == old_net.vhost_user
                        &&& new_net.vhost_socket == old_net.vhost_socket
                        &&& new_net.options == old_net.options
                    }
                &&& after.cpus == before.cpus
                &&& after.memory == before.memory
                &&& after.payload == before.payload
                &&& after.disks == before.disks
                &&& after.rng == before.rng
                &&& after.balloon == before.balloon
                &&& after.fs == before.fs
                &&& after.pmem == before.pmem
                &&& after.serial == before.serial
                &&& after.console == before.console
                &&& after.devices == before.devices
                &&& after.user_devices == before.user_devices
                &&& after.vdpa == before.vdpa
                &&& after.vsock == before.vsock
                &&& after.pvpanic == before.pvpanic
                &&& after.iommu == before.iommu
                &&& after.watchdog == before.watchdog
                &&& after.tdx == before.tdx
                &&& after.landlock_enable == before.landlock_enable
                &&& after.options == before.options
            }
        }),
{
    law_restore(m, restore, outcomes);
    let before = outcomes[0]->Config_0@;
    let after = with_net_fds(before, items(restore.net_fds));
    let entries = match restore.net_fds {
        Some(entries) => entries@,
        None => Seq::empty(),
    };
    assert forall|i: int| 0 <= i < listed(before.net).len() implies {
        let old_net = #[trigger] listed(before.net)[i];
        let new_net = listed(after.net)[i];
        &&& has_its_descriptors(old_net, new_net, entries)
        &&& new_net == NetConfigView { fds: new_net.fds, ..old_net }
    } by {
        lemma_new_descriptors(listed(before.net), entries, i);
    }
    if listed(before.net).len() > 0 {
        lemma_new_descriptors(listed(before.net), entries, 0);
    }
    lemma_as_many(listed(before.net), entries);
}

/// New descriptors leave the number of devices.
proof fn lemma_as_many(nets: Seq<NetConfigView>, restored: Seq<RestoredNetConfig>)
    ensures
        with_all_fds(nets, restored).len() == nets.len(),
    decreases restored.len(),
{
    if restored.len() > 0 {
        lemma_as_many(nets, restored.drop_last());
    }
}

/// Without a machine, a resize sets in the configuration what it names, and
/// leaves the rest: the number of processors at boot, the size of the memory,
/// and the size of the balloon where there is one. Nothing is asked of the
/// host, and nothing else of the monitor changes.
pub proof fn law_cold_resize(m: Monitor, before: VmConfigView, sizes: Sizes)
    requires
        m.idle(),
        m.vm is None,
        m.vm_config == Some(before),
    ensures
        ({
            let end = taken_up(m, Request::Resize(sizes));
            &&& end.1 == StepView::Done(Ok(ReplyView::Done))
            &&& end.0 == (Monitor { vm_config: end.0.vm_config, ..m })
            &&& end.0.vm_config matches Some(after) && {
                &&& after.cpus.boot_vcpus == (match sizes.vcpus {
                    Some(vcpus) => vcpus,
                    None => before.cpus.boot_vcpus,
                })
                &&& after.cpus.max_vcpus == before.cpus.max_vcpus
                &&& after.cpus.topology == before.cpus.topology
                &&& after.cpus.kvm_hyperv == before.cpus.kvm_hyperv
                &&& after.cpus.max_phys_bits == before.cpus.max_phys_bits
                &&& after.cpus.features == before.cpus.features
                &&& after.memory.size == (match sizes.ram {
                    Some(ram) => ram,
                    None => before.memory.size,
                })
                &&& after.memory == MemoryConfigView { size: after.memory.size, ..before.memory }
                &&& after.balloon is Some <==> before.balloon is Some
                &&& after.balloon matches Some(balloon) ==> balloon.size == (match sizes.balloon {
                    Some(size) => size,
                    None => before.balloon->0.size,
                }) && balloon.options == before.balloon->0.options
                &&& after.payload == before.payload
                &&& after.disks == before.disks
                &&& after.net == before.net
                &&& after.rng == before.rng
                &&& after.fs == before.fs
                &&& after.pmem == before.pmem
                &&& after.serial == before.serial
                &&& after.console == before.console
                &&& after.devices == before.devices
                &&& after.user_devices == before.user_devices
                &&& after.vdpa == before.vdpa
                &&& after.vsock == before.vsock
                &&& after.pvpanic == before.pvpanic
                &&& after.iommu == before.iommu
                &&& after.watchdog == before.watchdog
                &&& after.tdx == before.tdx
                &&& after.landlock_enable == before.landlock_enable
                &&& after.options == before.options
            }
        }),
{
    reveal_with_fuel(settled, 2);
}

/// Without a machine, the resizing of a zone sets the size of the first zone
/// of that name in the configuration. The other zones, and everything else of
/// the configuration and the monitor, stay as they were. Where no zone has the
/// name, the request fails and nothing changes.
#[verifier::rlimit(30)]
pub proof fn law_cold_zone_resize(
    m: Monitor,
    before: VmConfigView,
    id: String,
    ram: u64,
)
    requires
        m.idle(),
        m.vm is None,
        m.vm_config == Some(before),
    ensures
        ({
            let zones = listed(before.memory.zones);
            let end = taken_up(m, Request::ResizeZone(id, ram));
            &&& (forall|i: int| 0 <= i < zones.len() ==> (#[trigger] zones[i]).id@ != id@) ==> end
                == (m, refusal(VmError::ResizeZone))
            &&& (exists|i: int| 0 <= i < zones.len() && (#[trigger] zones[i]).id@ == id@) ==> {
                &&& end.1 == StepView::Done(Ok(ReplyView::Done))
                &&& end.0 == (Monitor { vm_config: end.0.vm_config, ..m })
                &&& end.0.vm_config matches Some(after) && {
                    let new_zones = listed(after.memory.zones);
                    &&& after == VmConfigView { memory: after.memory, ..before }
                    &&& after.memory == MemoryConfigView {
                        zones: after.memory.zones,
                        ..before.memory
                    }
                    &&& after.memory.zones is Some
                    &&& new_zones.len() == zones.len()
                    &&& forall|i: int|
                        0 <= i < zones.len() ==> {
                            &&& (#[trigger] new_zones[i]).id == zones[i].id
                            &&& new_zones[i].options == zones[i].options
                            &&& new_zones[i].size == (if zones[i].id@ == id@ && (forall|j: int|
                                0 <= j < i ==> (#[trigger] zones[j]).id@ != id@) {
                                ram
                            } else {
                                zones[i].size
                            })
                        }
                }
            }
        }),
{
    reveal_with_fuel(settled, 2);
    let zones = listed(before.memory.zones);
    if exists|i: int| 0 <= i < zones.len() && (#[trigger] zones[i]).id@ == id@ {
        let some = choose|i: int| 0 <= i < zones.len() && (#[trigger] zones[i]).id@ == id@;
        let first = lemma_first_zone(zones, id@, some);
        law_zone_resize_changes_one_size(before, zones, id@, ram, first);
        assert(has_zone(before, id@));
        let after = taken_up(m, Request::ResizeZone(id, ram)).0.vm_config->0;
        let new_zones = listed(after.memory.zones);
        assert forall|i: int| 0 <= i < zones.len() implies {
            &&& (#[trigger] new_zones[i]).id == zones[i].id
            &&& new_zones[i].options == zones[i].options
            &&& new_zones[i].size == (if zones[i].id@ == id@ && (forall|j: int|
                0 <= j < i ==> (#[trigger] zones[j]).id@ != id@) {
                ram
            } else {
                zones[i].size
            })
        } by {
            if i < first {
                assert(zones[i].id@ != id@);
            } else if i > first {
                assert(zones[first].id@ == id@);
            }
        }
    } else if has_zone(before, id@) {
        let i = choose|i: int| is_first_zone(before.memory.zones->0, id@, i);
        assert(is_first_zone(zones, id@, i));
        assert(zones[i].id@ == id@);
    }
}

/// Among the zones of a name there is a first.
proof fn lemma_first_zone(zones: Seq<MemoryZoneConfig>, id: Seq<char>, i: int) -> (first: int)
    requires
        0 <= i < zones.len(),
        zones[i].id@ == id,
    ensures
        is_first_zone(zones, id, first),
    decreases i,
{
    if forall|j: int| 0 <= j < i ==> (#[trigger] zones[j]).id@ != id {
        i
    } else {
        let j = choose|j: int| 0 <= j < i && (#[trigger] zones[j]).id@ == id;
        lemma_first_zone(zones, id, j)
    }
}

} // verus!
