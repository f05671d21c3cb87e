//! Whole runs of requests, for what is stated of them.

use vstd::prelude::*;
use crate::config::{Device, RestoreConfig, VmConfig};
use crate::devices::{
    add_plan, considering, counters_plan, info_plan, remove_plan, resize_plan, zone_plan,
};
use crate::error::Failure;
use crate::lifecycle::{
    boot_plan, coredump_plan, create_plan, delete_plan, nmi_plan, pause_plan, power_button_plan,
    reboot_plan, restore_plan, resume_plan, shutdown_plan, snapshot_plan, vmm_shutdown_plan,
};
use crate::migration::{at_endpoint, receive_plan, send_migration_plan};
use crate::model::{advanced, applied, begun, failed, fits, settled, Monitor, Waiting};
use crate::plan::{
    Action, Change, Expect, Outcome, Phase, Recovery, Sizes, StepView, VmReceiveMigrationData,
    VmSendMigrationData, Wrap,
};

verus! {

/// A request on the monitor.
pub enum Request {
    /// `Vmm::vm_create`.
    Create(VmConfig),
    /// `Vmm::vm_boot`.
    Boot,
    /// `Vmm::vm_pause`.
    Pause,
    /// `Vmm::vm_resume`.
    Resume,
    /// `Vmm::vm_snapshot`.
    Snapshot(String),
    /// `Vmm::vm_restore`.
    Restore(RestoreConfig),
    /// `Vmm::vm_coredump`.
    Coredump(String),
    /// `Vmm::vm_shutdown`.
    Shutdown,
    /// `Vmm::vm_reboot`.
    Reboot,
    /// `Vmm::vm_info`.
    Info,
    /// `Vmm::vm_delete`.
    Delete,
    /// `Vmm::vmm_shutdown`.
    MonitorShutdown,
    /// `Vmm::vm_resize`.
    Resize(Sizes),
    /// `Vmm::vm_resize_zone`.
    ResizeZone(String, u64),
    /// `Vmm::vm_add_device` and the others that add a device.
    Add(Device),
    /// `Vmm::vm_remove_device`.
    Remove(String),
    /// `Vmm::vm_counters`.
    Counters,
    /// `Vmm::vm_power_button`.
    PowerButton,
    /// `Vmm::vm_nmi`.
    Nmi,
    /// `Vmm::vm_receive_migration`.
    Receive(VmReceiveMigrationData),
    /// `Vmm::vm_send_migration`.
    Send(VmSendMigrationData),
}

/// The plan of a request.
pub open spec fn plan_of(m: Monitor, request: Request) -> Seq<Phase> {
    match request {
        Request::Create(config) => create_plan(m, config),
        Request::Boot => boot_plan(m),
        Request::Pause => pause_plan(m),
        Request::Resume => resume_plan(m),
        Request::Snapshot(url) => snapshot_plan(m, url),
        Request::Restore(restore) => restore_plan(m, restore),
        Request::Coredump(url) => coredump_plan(m, url),
        Request::Shutdown => shutdown_plan(m),
        Request::Reboot => reboot_plan(m),
        Request::Info => info_plan(m),
        Request::Delete => delete_plan(m),
        Request::MonitorShutdown => vmm_shutdown_plan(m),
        Request::Resize(sizes) => resize_plan(m, sizes),
        Request::ResizeZone(id, ram) => zone_plan(m, id, ram),
        Request::Add(device) => add_plan(m, device),
        Request::Remove(id) => remove_plan(m, id),
        Request::Counters => counters_plan(m),
        Request::PowerButton => power_button_plan(m),
        Request::Nmi => nmi_plan(m),
        Request::Receive(data) => receive_plan(data.receiver_url),
        Request::Send(data) => send_migration_plan(data),
    }
}

/// The monitor as it takes up a request.
pub open spec fn ready_for(m: Monitor, request: Request) -> Monitor {
    match request {
        Request::Add(device) => considering(m, device),
        Request::Receive(data) => at_endpoint(m, data.receiver_url@),
        _ => m,
    }
}

/// The monitor, and what comes next, once it has taken up a request.
pub open spec fn taken_up(m: Monitor, request: Request) -> (Monitor, StepView) {
    begun(ready_for(m, request), plan_of(m, request))
}

/// The monitor, and what comes next, once some outcomes have come one after
/// the other.
pub open spec fn continued(at: (Monitor, StepView), outcomes: Seq<Outcome>) -> (Monitor, StepView)
    decreases outcomes.len(),
{
    if outcomes.len() == 0 {
        at
    } else {
        advanced(continued(at, outcomes.drop_last()).0, outcomes.last())
    }
}

/// Whether outcomes can come like that: each fits the action that it is the
/// outcome of.
pub open spec fn can_come(at: (Monitor, StepView), outcomes: Seq<Outcome>) -> bool
    decreases outcomes.len(),
{
    outcomes.len() > 0 ==> can_come(at, outcomes.drop_last()) && fits(
        continued(at, outcomes.drop_last()).0,
        outcomes.last(),
    )
}

/// The monitor, and what comes next, in the course of a request, once some
/// outcomes have come.
#[verifier::opaque]
pub open spec fn course(m: Monitor, request: Request, outcomes: Seq<Outcome>) -> (Monitor, StepView) {
    continued(taken_up(m, request), outcomes)
}

/// Whether outcomes can come in the course of a request, which nothing else
/// is in progress for.
#[verifier::opaque]
pub open spec fn possible(m: Monitor, request: Request, outcomes: Seq<Outcome>) -> bool {
    m.idle() && can_come(taken_up(m, request), outcomes)
}

/// A plan that begins with a change goes on after it.
pub proof fn lemma_next_change(m: Monitor, change: Change, rest: Seq<Phase>)
    requires
        m.plan == seq![Phase::Apply(change)] + rest,
    ensures
        settled(m) == settled(applied(Monitor { plan: rest, ..m }, change)),
{
    assert(m.plan.drop_first() =~= rest);
}

/// A plan that begins with something for the host stops there.
pub proof fn lemma_next_ask(
    m: Monitor,
    action: Action,
    expect: Expect,
    wrap: Wrap,
    rest: Seq<Phase>,
)
    requires
        m.plan == seq![Phase::Ask(action, expect, wrap)] + rest,
    ensures
        settled(m) == (
            Monitor { plan: rest, waiting: Some(Waiting { expect, wrap }), ..m },
            StepView::Perform(action),
        ),
{
    assert(m.plan.drop_first() =~= rest);
}

/// A failure that nothing follows ends the request.
pub proof fn lemma_failed_ends(m: Monitor, failure: Failure)
    requires
        m.pending is Some || m.recovery == Recovery::Nothing,
    ensures
        settled(failed(m, failure)) == (m.at_rest(), StepView::Done(Err(failure))),
{
}

/// A course, one outcome further.
pub proof fn lemma_step(m: Monitor, request: Request, outcomes: Seq<Outcome>)
    requires
        outcomes.len() > 0,
        possible(m, request, outcomes),
    ensures
        m.idle(),
        possible(m, request, outcomes.drop_last()),
        fits(course(m, request, outcomes.drop_last()).0, outcomes.last()),
        course(m, request, outcomes) == advanced(
            course(m, request, outcomes.drop_last()).0,
            outcomes.last(),
        ),
{
    reveal(course);
    reveal(possible);
}

/// A course, up to one of its outcomes and one further.
pub proof fn lemma_within(m: Monitor, request: Request, outcomes: Seq<Outcome>, i: int)
    requires
        0 <= i < outcomes.len(),
        possible(m, request, outcomes),
    ensures
        possible(m, request, outcomes.take(i)),
        possible(m, request, outcomes.take(i + 1)),
        fits(course(m, request, outcomes.take(i)).0, outcomes[i]),
        course(m, request, outcomes.take(i + 1)) == advanced(
            course(m, request, outcomes.take(i)).0,
            outcomes[i],
        ),
    decreases outcomes.len(),
{
    lemma_step(m, request, outcomes);
    let before = outcomes.drop_last();
    if i + 1 == outcomes.len() {
        assert(outcomes.take(i) =~= before);
        assert(outcomes.take(i + 1) =~= outcomes);
    } else {
        lemma_within(m, request, before, i);
        assert(before.take(i) =~= outcomes.take(i));
        assert(before.take(i + 1) =~= outcomes.take(i + 1));
    }
}

} // verus!
