//! What holds of the devices and the sizes of a machine.

use vstd::prelude::*;
use crate::config::{
    appended, has_zone, is_first_zone, with_all_fds, with_device, with_fds, zone_resized, Device,
    MemoryConfigView, MemoryZoneConfig, NetConfigView, RestoredNetConfig, VmConfigView,
};
use crate::device::json_of_device;
use crate::error::VmError;
use crate::model::{advanced, fits, refusal, settled, Monitor, Waiting};
use crate::plan::{
    Action, Change, Expect, Outcome, Phase, ReplyView, StepView, VmState, Wrap,
};
use crate::run::{taken_up, Request};

verus! {

/// Whether a device can be added to a configuration: there is one vsock device
/// at most.
pub open spec fn fits_in(config: VmConfigView, device: Device) -> bool {
    !(device is Vsock && config.vsock is Some)
}

/// Without a machine, a device that passes the validation joins the
/// configuration, and nothing else changes. One that does not pass changes
/// nothing.
pub proof fn law_cold_add(m: Monitor, config: VmConfigView, device: Device, outcome: Outcome)
    requires
        m.idle(),
        m.vm is None,
        m.vm_config == Some(config),
        fits_in(config, device),
        fits(taken_up(m, Request::Add(device)).0, outcome),
    ensures
        match outcome {
            Outcome::Failed(fault) => advanced(taken_up(m, Request::Add(device)).0, outcome) == (
                m,
                refusal(VmError::ConfigValidation(fault)),
            ),
            _ => advanced(taken_up(m, Request::Add(device)).0, outcome) == (
                Monitor { vm_config: Some(with_device(config, device)), ..m },
                StepView::Done(Ok(ReplyView::Data(None))),
            ),
        },
{
    lemma_cold_add_asked(m, config, device);
    let at = taken_up(m, Request::Add(device)).0;
    match outcome {
        Outcome::Failed(fault) => {
            assert(advanced(at, outcome) == (m, refusal(VmError::ConfigValidation(fault)))) by {
                reveal_with_fuel(settled, 2);
            }
        },
        _ => lemma_cold_add_done(m, config, device),
    }
}

/// The validation that a device is first put to.
proof fn lemma_cold_add_asked(m: Monitor, config: VmConfigView, device: Device)
    requires
        m.idle(),
        m.vm is None,
        m.vm_config == Some(config),
        fits_in(config, device),
    ensures
        taken_up(m, Request::Add(device)).0 == validating(m, config, device),
{
    let at = taken_up(m, Request::Add(device)).0;
    assert(at.plan =~= validating(m, config, device).plan);
}

/// The monitor while it validates a device that is to join the configuration.
spec fn validating(m: Monitor, config: VmConfigView, device: Device) -> Monitor {
    Monitor {
        candidate: Some(with_device(config, device)),
        plan: seq![Phase::Apply(Change::AddDevice(device)), Phase::Apply(Change::NoData)],
        waiting: Some(Waiting { expect: Expect::Done, wrap: Wrap::ConfigValidation }),
        ..m
    }
}

/// A device that has passed the validation joins the configuration.
proof fn lemma_cold_add_done(m: Monitor, config: VmConfigView, device: Device)
    requires
        m.idle(),
        m.vm_config == Some(config),
    ensures
        advanced(validating(m, config, device), Outcome::Done) == (
            Monitor { vm_config: Some(with_device(config, device)), ..m },
            StepView::Done(Ok(ReplyView::Data(None))),
        ),
{
    let at = Monitor { waiting: None, ..validating(m, config, device) };
    let one = Monitor {
        vm_config: Some(with_device(config, device)),
        plan: seq![Phase::Apply(Change::NoData)],
        ..at
    };
    assert(at.plan.drop_first() =~= one.plan);
    assert(settled(at) == settled(one));
    let two = Monitor { reply: ReplyView::Data(None), plan: Seq::empty(), ..one };
    assert(one.plan.drop_first() =~= two.plan);
    assert(settled(one) == settled(two));
}

/// With a machine, a device that passes the validation is added to the
/// machine, and the answer is what the machine says of it, in JSON. The
/// monitor itself changes nothing: its configuration is the machine's to
/// change.
pub proof fn law_hot_add(
    m: Monitor,
    config: VmConfigView,
    device: Device,
    validated: Outcome,
    added: Outcome,
)
    requires
        m.idle(),
        m.vm is Some,
        m.vm_config == Some(config),
        fits_in(config, device),
        fits(taken_up(m, Request::Add(device)).0, validated),
        validated is Done ==> fits(
            advanced(taken_up(m, Request::Add(device)).0, validated).0,
            added,
        ),
    ensures
        match validated {
            Outcome::Failed(fault) => advanced(taken_up(m, Request::Add(device)).0, validated) == (
                m,
                refusal(VmError::ConfigValidation(fault)),
            ),
            _ => {
                let asked = advanced(taken_up(m, Request::Add(device)).0, validated);
                &&& asked.1 == StepView::Perform(Action::AddDevice(device))
                &&& match added {
                    Outcome::Failed(fault) => advanced(asked.0, added) == (
                        m,
                        refusal(VmError::Machine(fault)),
                    ),
                    Outcome::Device(info) => advanced(asked.0, added) == (
                        m,
                        StepView::Done(Ok(ReplyView::Data(Some(json_of_device(info))))),
                    ),
                    _ => false,
                }
            },
        },
{
    reveal_with_fuel(settled, 3);
}

/// A device joins the others of its kind behind them, and the others stay as
/// they are.
pub proof fn law_devices_are_appended<T>(list: Option<Seq<T>>, item: T)
    ensures
        appended(list, item) matches Some(longer) && longer.last() == item && longer.drop_last()
            == (match list {
            Some(list) => list,
            None => Seq::empty(),
        }),
{
    let longer = appended(list, item)->0;
    match list {
        Some(list) => assert(longer.drop_last() =~= list),
        None => assert(longer.drop_last() =~= Seq::empty()),
    }
}

/// Without a machine, a removal takes over the configuration without the
/// device, or fails and changes nothing where there is no such device.
pub proof fn law_cold_remove(m: Monitor, id: String, outcome: Outcome)
    requires
        m.idle(),
        m.vm is None,
        m.vm_config is Some,
        fits(taken_up(m, Request::Remove(id)).0, outcome),
    ensures
        match outcome {
            Outcome::Removed(config) => advanced(taken_up(m, Request::Remove(id)).0, outcome) == (
                Monitor { vm_config: Some(config@), ..m },
                StepView::Done(Ok(ReplyView::Done)),
            ),
            _ => advanced(taken_up(m, Request::Remove(id)).0, outcome) == (
                m,
                refusal(VmError::NoDeviceToRemove(id)),
            ),
        },
{
    reveal_with_fuel(settled, 2);
}

/// A report without a machine: the machine counts as created, and has the
/// memory that is configured.
pub proof fn law_info_without_machine(m: Monitor, config: VmConfigView, size: u64)
    requires
        m.idle(),
        m.vm is None,
        m.vm_config == Some(config),
    ensures
        advanced(taken_up(m, Request::Info).0, Outcome::Number(size)) == (
            m,
            StepView::Done(
                Ok(
                    ReplyView::Info {
                        config,
                        state: VmState::Created,
                        memory_actual_size: size,
                        device_tree: None,
                    },
                ),
            ),
        ),
{
    reveal_with_fuel(settled, 3);
}

/// What is left of a report on a machine while its memory is measured.
spec fn rest_of_report() -> Seq<Phase> {
    seq![
        Phase::Ask(Action::ReadBalloon, Expect::BalloonSize, Wrap::Never),
        Phase::Ask(Action::ReadDeviceTree, Expect::DeviceTree, Wrap::Never),
        Phase::Apply(Change::Report),
    ]
}

/// A report on a machine, as far as its state.
proof fn lemma_info_state(m: Monitor, state: VmState)
    requires
        m.idle(),
        m.vm is Some,
        m.vm_config is Some,
    ensures
        ({
            let next = advanced(taken_up(m, Request::Info).0, Outcome::State(state));
            &&& next.1 == StepView::Perform(Action::MeasureMemory)
            &&& next.0 == (Monitor {
                plan: next.0.plan,
                waiting: next.0.waiting,
                draft: next.0.draft,
                ..m
            })
            &&& next.0.draft.state == state
            &&& next.0.draft.device_tree is None
            &&& next.0.waiting matches Some(waiting) && waiting.expect is MemorySize
            &&& next.0.plan == rest_of_report()
        }),
{
    let next = advanced(taken_up(m, Request::Info).0, Outcome::State(state));
    assert(next.0.plan =~= rest_of_report());
}

/// A report on a machine: its state, its device tree, and the memory that is
/// configured less that of its balloon. Nothing changes.
pub proof fn law_info_of_machine(
    m: Monitor,
    config: VmConfigView,
    state: VmState,
    size: u64,
    balloon: u64,
    tree: String,
)
    requires
        m.idle(),
        m.vm is Some,
        m.vm_config == Some(config),
        balloon <= size,
    ensures
        ({
            let first = advanced(taken_up(m, Request::Info).0, Outcome::State(state));
            let second = advanced(first.0, Outcome::Number(size));
            let third = advanced(second.0, Outcome::Number(balloon));
            advanced(third.0, Outcome::Text(tree)) == (
                m,
                StepView::Done(
                    Ok(
                        ReplyView::Info {
                            config,
                            state,
                            memory_actual_size: (size - balloon) as u64,
                            device_tree: Some(tree),
                        },
                    ),
                ),
            )
        }),
{
    lemma_info_state(m, state);
    let first = advanced(taken_up(m, Request::Info).0, Outcome::State(state));
    lemma_info_rest(m, first.0, config, state, size, balloon, tree);
}

/// The rest of a report on a machine.
proof fn lemma_info_rest(
    m: Monitor,
    at: Monitor,
    config: VmConfigView,
    state: VmState,
    size: u64,
    balloon: u64,
    tree: String,
)
    requires
        m.idle(),
        m.vm_config == Some(config),
        balloon <= size,
        at == (Monitor { plan: at.plan, waiting: at.waiting, draft: at.draft, ..m }),
        at.draft.state == state,
        at.draft.device_tree is None,
        at.waiting matches Some(waiting) && waiting.expect is MemorySize,
        at.plan == rest_of_report(),
    ensures
        ({
            let second = advanced(at, Outcome::Number(size));
            let third = advanced(second.0, Outcome::Number(balloon));
            advanced(third.0, Outcome::Text(tree)) == (
                m,
                StepView::Done(
                    Ok(
                        ReplyView::Info {
                            config,
                            state,
                            memory_actual_size: (size - balloon) as u64,
                            device_tree: Some(tree),
                        },
                    ),
                ),
            )
        }),
{
    reveal_with_fuel(settled, 2);
    let second = advanced(at, Outcome::Number(size));
    assert(second.0.plan =~= at.plan.skip(1));
    let third = advanced(second.0, Outcome::Number(balloon));
    assert(third.0.plan =~= at.plan.skip(2));
}

/// The resizing of a zone changes the size of the first zone of that name, and
/// nothing else.
pub proof fn law_zone_resize_changes_one_size(
    config: VmConfigView,
    zones: Seq<MemoryZoneConfig>,
    id: Seq<char>,
    ram: u64,
    i: int,
)
    requires
        config.memory.zones == Some(zones),
        is_first_zone(zones, id, i),
    ensures
        zone_resized(config, id, ram) == (VmConfigView {
            memory: MemoryConfigView {
                zones: Some(zones.update(i, MemoryZoneConfig { size: ram, ..zones[i] })),
                ..config.memory
            },
            ..config
        }),
{
    assert(has_zone(config, id));
    let first = choose|k: int| is_first_zone(zones, id, k);
    assert(is_first_zone(zones, id, first));
    assert(first == i) by {
        if first < i {
            assert(zones[first].id@ != id);
        } else if i < first {
            assert(zones[i].id@ != id);
        }
    }
}

/// New descriptors change nothing of a network device but its descriptors,
/// and these only where descriptors back it already and bear its name.
pub proof fn law_new_descriptors_only_replace(
    nets: Seq<NetConfigView>,
    restored: Seq<RestoredNetConfig>,
    i: int,
)
    requires
        0 <= i < nets.len(),
    ensures
        with_all_fds(nets, restored).len() == nets.len(),
        with_all_fds(nets, restored)[i] == (NetConfigView {
            fds: with_all_fds(nets, restored)[i].fds,
            ..nets[i]
        }),
        nets[i].fds is None ==> with_all_fds(nets, restored)[i] == nets[i],
        (forall|j: int|
            0 <= j < restored.len() ==> !(nets[i].id matches Some(id) && id@
                == #[trigger] restored[j].id@)) ==> with_all_fds(nets, restored)[i] == nets[i],
    decreases restored.len(),
{
    if restored.len() > 0 {
        let before = restored.drop_last();
        law_new_descriptors_only_replace(nets, before, i);
        assert(with_all_fds(nets, restored)[i] == with_fds(
            with_all_fds(nets, before)[i],
            restored.last(),
        ));
        if forall|j: int|
            0 <= j < restored.len() ==> !(nets[i].id matches Some(id) && id@
                == #[trigger] restored[j].id@) {
            assert forall|j: int| 0 <= j < before.len() implies !(nets[i].id matches Some(id) && id@
                == #[trigger] before[j].id@) by {
                assert(before[j] == restored[j]);
            }
            assert(restored.last() == restored[restored.len() - 1]);
        }
    }
}

} // verus!
