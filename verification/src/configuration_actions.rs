//! What the host is asked for by a configuration that a peer sends.

use vstd::prelude::*;
use crate::action_laws::{lemma_orders_three, lemma_orders_two};
use crate::config::{VmConfig, VmConfigView};
use crate::error::{Cause, Context, Failure, MigratableError};
use crate::features::Build;
use crate::lifecycle::{ask, console_plan, cpuid_plan, cpuid_request, landlock_plan};
use crate::migration::{
    answer, apic_plan, config_plan, migrated_plan, next_request, topology_plan,
};
use crate::migration_laws::awaits_request;
use crate::model::{after, settled, Monitor};
use crate::plan::{
    wrapped, Action, Change, Command, CpuidRequest, Expect, Outcome, Phase, Recovery, ReplyView, StepView,
    Wrap,
};
use crate::receiving_laws::{
    before_request, considering_sent, lemma_sent_configuration, sent_configuration,
};
use crate::run::{continued, lemma_failed_ends};
use crate::session_actions::{
    asked_from, cannot_receive, fails_with, goes_well, lemma_of_block, lemma_taking, may_follow,
    onward, taking, upon,
};
use crate::trace::{
    expect_of, firm, lemma_firm_join, lemma_orders_add, lemma_orders_one, on_course, orders,
};

verus! {

/// Where processors are compared before a machine is taken in.
spec fn compares(build: Build) -> bool {
    build.features.kvm && build.x86_64
}

/// What a configuration asks for behind the comparison of processors, and what
/// a failure of each is reported as.
spec fn made_orders(build: Build, config: VmConfigView) -> Seq<(Action, Wrap)> {
    seq![(Action::CreateConsole, Wrap::Receive(Context::CreateConsole))] + (
    if config.landlock_enable {
        seq![(Action::ApplyLandlock, Wrap::Receive(Context::ApplyLandlock))]
    } else {
        Seq::empty()
    }) + seq![(Action::CreateHypervisorVm, Wrap::Receive(Context::CreateHypervisorVm))] + (
    if compares(build) && config.cpus.topology is Some {
        seq![(Action::MaxApicId(config.cpus.topology->0), Wrap::Never)]
    } else {
        Seq::empty()
    }) + last_orders(config)
}

/// What a configuration asks for at the end.
spec fn last_orders(config: VmConfigView) -> Seq<(Action, Wrap)> {
    seq![
        (
            Action::CreateMemoryManager(config.cpus.max_phys_bits),
            Wrap::Receive(Context::CreateMemoryManager),
        ),
        (Action::Answer(true), Wrap::Migration),
        (Action::ReadRequest, Wrap::Migration),
    ]
}

/// All that a configuration asks for once it is decoded.
spec fn all_orders(build: Build, config: VmConfigView) -> Seq<(Action, Wrap)> {
    (if compares(build) {
        seq![
            (
                Action::GenerateCpuid(cpuid_request(config)),
                Wrap::Receive(Context::DestinationCpuid),
            ),
            (Action::CheckCpuid, Wrap::Receive(Context::CompareCpuid)),
        ]
    } else {
        Seq::empty()
    }) + made_orders(build, config)
}

/// The plan of a configuration that the peer has sent.
#[verifier::rlimit(30)]
proof fn lemma_configuration_orders(build: Build, config: VmConfigView)
    requires
        !(compares(build) && build.features.tdx && config.tdx),
    ensures
        firm(migrated_plan(build, config) + seq![next_request()]),
        orders(migrated_plan(build, config) + seq![next_request()]) == all_orders(build, config),
{
    reveal(migrated_plan);
    let cpuid = cpuid_plan(build, config, false);
    let install = seq![Phase::Apply(Change::InstallCandidate)];
    let console = console_plan(Wrap::Receive(Context::CreateConsole));
    let landlock = landlock_plan(config.landlock_enable, Wrap::Receive(Context::ApplyLandlock));
    let hypervisor = seq![
        ask(Action::CreateHypervisorVm, Wrap::Receive(Context::CreateHypervisorVm)),
    ];
    let topology = topology_plan(build, config.cpus.topology);
    let last = seq![
        ask(
            Action::CreateMemoryManager(config.cpus.max_phys_bits),
            Wrap::Receive(Context::CreateMemoryManager),
        ),
        answer(true),
        Phase::Apply(Change::MemoryManagerReady),
    ];
    let next = seq![next_request()];
    if compares(build) {
        lemma_orders_two(cpuid[0], cpuid[1]);
        if let Some(t) = config.cpus.topology {
            lemma_orders_one(topology[0]);
        }
    }
    lemma_orders_one(install[0]);
    lemma_orders_two(console[0], console[1]);
    lemma_orders_one(
        ask(Action::ApplyLandlock, Wrap::Receive(Context::ApplyLandlock)),
    );
    lemma_orders_one(hypervisor[0]);
    lemma_orders_three(last[0], last[1], last[2]);
    lemma_orders_one(next[0]);
    let p1 = cpuid + install;
    let p2 = p1 + console;
    let p3 = p2 + landlock;
    let p4 = p3 + hypervisor;
    let p5 = p4 + topology;
    let p6 = p5 + last;
    lemma_orders_add(cpuid, install);
    lemma_orders_add(p1, console);
    lemma_orders_add(p2, landlock);
    lemma_orders_add(p3, hypervisor);
    lemma_orders_add(p4, topology);
    lemma_orders_add(p5, last);
    lemma_orders_add(p6, next);
    lemma_firm_join(cpuid, install);
    lemma_firm_join(p1, console);
    lemma_firm_join(p2, landlock);
    lemma_firm_join(p3, hypervisor);
    lemma_firm_join(p4, topology);
    lemma_firm_join(p5, last);
    lemma_firm_join(p6, next);
    assert(orders(p6 + next) =~= all_orders(build, config));
}

/// What a configuration asks for once it is decoded, in its order.
spec fn all_actions(build: Build, config: VmConfigView) -> Seq<Action> {
    (if compares(build) {
        seq![
            Action::GenerateCpuid(
                CpuidRequest {
                    max_phys_bits: config.cpus.max_phys_bits,
                    kvm_hyperv: config.cpus.kvm_hyperv,
                    amx: config.cpus.features.amx,
                },
            ),
            Action::CheckCpuid,
        ]
    } else {
        Seq::empty()
    }) + seq![Action::CreateConsole] + (if config.landlock_enable {
        seq![Action::ApplyLandlock]
    } else {
        Seq::empty()
    }) + seq![Action::CreateHypervisorVm] + (if compares(build) && config.cpus.topology is Some {
        seq![Action::MaxApicId(config.cpus.topology->0)]
    } else {
        Seq::empty()
    }) + seq![
        Action::CreateMemoryManager(config.cpus.max_phys_bits),
        Action::Answer(true),
        Action::ReadRequest,
    ]
}

/// What a configuration asks for, with and without what its failures are
/// reported as.
#[verifier::rlimit(30)]
proof fn lemma_all_actions(build: Build, config: VmConfigView)
    ensures
        ({
            let all = all_actions(build, config);
            let pairs = all_orders(build, config);
            let n = all.len();
            &&& all.len() == pairs.len()
            &&& all.len() >= 5
            &&& forall|i: int| 0 <= i < n ==> #[trigger] all[i] == pairs[i].0
            &&& forall|i: int|
                0 <= i < n - 1 && !(all[i] is MaxApicId) ==> expect_of((#[trigger] pairs[i]).0) is Done
            &&& forall|i: int| 0 <= i < n && #[trigger] all[i] is MaxApicId ==> i == n - 4
            &&& compares(build) && config.cpus.topology is Some ==> all[n - 4] is MaxApicId
            &&& pairs.skip(n - 3) == last_orders(config)
        }),
{
    let all = all_actions(build, config);
    let pairs = all_orders(build, config);
    if compares(build) {
        assert forall|i: int| 0 <= i < all.len() implies #[trigger] all[i] == pairs[i].0 by {}
    } else {
        assert forall|i: int| 0 <= i < all.len() implies #[trigger] all[i] == pairs[i].0 by {}
    }
    assert(pairs.skip(all.len() - 3) =~= last_orders(config));
}

/// What a failure of each is reported as.
proof fn lemma_configuration_wrap(build: Build, config: VmConfigView, i: int)
    requires
        0 <= i < all_orders(build, config).len(),
    ensures
        all_orders(build, config)[i].1 == (match all_orders(build, config)[i].0 {
            Action::GenerateCpuid(_) => Wrap::Receive(Context::DestinationCpuid),
            Action::CheckCpuid => Wrap::Receive(Context::CompareCpuid),
            Action::CreateConsole => Wrap::Receive(Context::CreateConsole),
            Action::ApplyLandlock => Wrap::Receive(Context::ApplyLandlock),
            Action::CreateHypervisorVm => Wrap::Receive(Context::CreateHypervisorVm),
            Action::MaxApicId(_) => Wrap::Never,
            Action::CreateMemoryManager(_) => Wrap::Receive(Context::CreateMemoryManager),
            _ => Wrap::Migration,
        }),
{
}

/// A configuration that the peer sends is read, with the length that the peer
/// gave, and decoded.
pub proof fn law_configuration_is_read_first(
    m: Monitor,
    length: u64,
    outcomes: Seq<Outcome>,
    fault: String,
)
    requires
        awaits_request(m),
        m.pending is None,
        m.session.started,
        may_follow(upon(m, Command::Config, length), outcomes),
        outcomes.len() < 2,
    ensures
        ({
            let first = upon(m, Command::Config, length);
            let at = onward(first, outcomes);
            let all = seq![Action::ReadPayload(length), Action::DecodeConfig];
            goes_well(at) ==> {
                &&& asked_from(first, outcomes) == all.take(outcomes.len() as int + 1)
                &&& at.1 == StepView::Perform(all[outcomes.len() as int])
                &&& fails_with(
                    at.0,
                    fault,
                    if outcomes.len() == 0 {
                        Failure::Migration(MigratableError::MigrateSocket(fault))
                    } else {
                        cannot_receive(Context::DecodeConfig, fault)
                    },
                )
            }
        }),
{
    let first = upon(m, Command::Config, length);
    let plan = config_plan(length);
    let all = seq![
        (Action::ReadPayload(length), Wrap::Socket),
        (Action::DecodeConfig, Wrap::Receive(Context::DecodeConfig)),
        (Action::ReadRequest, Wrap::Migration),
    ];
    lemma_taking(m, Command::Config, length);
    lemma_orders_two(plan[0], plan[1]);
    lemma_orders_one(next_request());
    lemma_orders_add(plan, seq![next_request()]);
    assert(orders(plan + seq![next_request()]) =~= all);
    let actions = seq![Action::ReadPayload(length), Action::DecodeConfig, Action::ReadRequest];
    lemma_of_block(first, taking(m, Command::Config, length), all, actions, outcomes, fault);
    assert(actions.take(outcomes.len() as int + 1) =~= seq![
        Action::ReadPayload(length),
        Action::DecodeConfig,
    ].take(outcomes.len() as int + 1));
}

/// A configuration that the peer has sent, once it is decoded. Where processors
/// are compared, that is the first: the processor of this host as the
/// configuration wants it, and the comparison. Then come console devices, the
/// confinement of the monitor where the configuration wants it, the
/// hypervisor's machine, the highest APIC number where processors are compared
/// and have a layout, and the memory manager, for the widest address of the
/// configuration. Then the peer is told, and its next request is read. What
/// fails is reported under the name of what was being done.
#[verifier::rlimit(30)]
pub proof fn law_received_configuration_actions(
    m: Monitor,
    length: u64,
    decoded: VmConfig,
    outcomes: Seq<Outcome>,
    fault: String,
)
    requires
        awaits_request(m),
        m.pending is None,
        m.session.started,
        may_follow(sent_configuration(m, length, decoded), outcomes),
        !(m.build.features.kvm && m.build.x86_64 && m.build.features.tdx && decoded@.tdx),
    ensures
        ({
            let config = decoded@;
            let first = sent_configuration(m, length, decoded);
            let at = onward(first, outcomes);
            let all = (if m.build.features.kvm && m.build.x86_64 {
                seq![
                    Action::GenerateCpuid(
                        CpuidRequest {
                            max_phys_bits: config.cpus.max_phys_bits,
                            kvm_hyperv: config.cpus.kvm_hyperv,
                            amx: config.cpus.features.amx,
                        },
                    ),
                    Action::CheckCpuid,
                ]
            } else {
                Seq::empty()
            }) + seq![Action::CreateConsole] + (if config.landlock_enable {
                seq![Action::ApplyLandlock]
            } else {
                Seq::empty()
            }) + seq![Action::CreateHypervisorVm] + (if m.build.features.kvm && m.build.x86_64
                && config.cpus.topology is Some {
                seq![Action::MaxApicId(config.cpus.topology->0)]
            } else {
                Seq::empty()
            }) + seq![
                Action::CreateMemoryManager(config.cpus.max_phys_bits),
                Action::Answer(true),
                Action::ReadRequest,
            ];
            outcomes.len() < all.len() && (m.build.features.kvm && m.build.x86_64
                && config.cpus.topology is Some ==> outcomes.len() <= all.len() - 4) && goes_well(at)
                ==> {
                &&& asked_from(first, outcomes) == all.take(outcomes.len() as int + 1)
                &&& at.1 == StepView::Perform(all[outcomes.len() as int])
                &&& !(all[outcomes.len() as int] is MaxApicId) ==> fails_with(
                    at.0,
                    fault,
                    match all[outcomes.len() as int] {
                        Action::GenerateCpuid(_) => cannot_receive(
                            Context::DestinationCpuid,
                            fault,
                        ),
                        Action::CheckCpuid => cannot_receive(Context::CompareCpuid, fault),
                        Action::CreateConsole => cannot_receive(Context::CreateConsole, fault),
                        Action::ApplyLandlock => cannot_receive(Context::ApplyLandlock, fault),
                        Action::CreateHypervisorVm => cannot_receive(
                            Context::CreateHypervisorVm,
                            fault,
                        ),
                        Action::CreateMemoryManager(_) => cannot_receive(
                            Context::CreateMemoryManager,
                            fault,
                        ),
                        _ => Failure::Migration(MigratableError::Machine(fault)),
                    },
                )
            }
        }),
{
    let config = decoded@;
    let first = sent_configuration(m, length, decoded);
    let all = all_actions(m.build, config);
    lemma_all_actions(m.build, config);
    if outcomes.len() < all.len() && (compares(m.build) && config.cpus.topology is Some
        ==> outcomes.len() <= all.len() - 4) {
        lemma_in_configuration(m, length, decoded, outcomes, fault);
        lemma_configuration_wrap(m.build, config, outcomes.len() as int);
    }
}

/// A configuration that the peer has sent, up to its APIC numbers.
proof fn lemma_in_configuration(
    m: Monitor,
    length: u64,
    decoded: VmConfig,
    outcomes: Seq<Outcome>,
    fault: String,
)
    requires
        awaits_request(m),
        m.pending is None,
        m.session.started,
        may_follow(sent_configuration(m, length, decoded), outcomes),
        !(compares(m.build) && m.build.features.tdx && decoded@.tdx),
        outcomes.len() < all_actions(m.build, decoded@).len(),
        compares(m.build) && decoded@.cpus.topology is Some ==> outcomes.len() <= all_actions(
            m.build,
            decoded@,
        ).len() - 4,
    ensures
        ({
            let first = sent_configuration(m, length, decoded);
            let at = onward(first, outcomes);
            let all = all_actions(m.build, decoded@);
            let pairs = all_orders(m.build, decoded@);
            goes_well(at) ==> {
                &&& asked_from(first, outcomes) == all.take(outcomes.len() as int + 1)
                &&& at.1 == StepView::Perform(all[outcomes.len() as int])
                &&& fails_with(
                    at.0,
                    fault,
                    wrapped(pairs[outcomes.len() as int].1, fault),
                )
                &&& on_course(pairs, at, outcomes.len() as int + 1)
            }
        }),
{
    let config = decoded@;
    let first = sent_configuration(m, length, decoded);
    let start = before_request(considering_sent(m, decoded), migrated_plan(m.build, config));
    lemma_sent_configuration(m, length, decoded);
    lemma_configuration_orders(m.build, config);
    lemma_all_actions(m.build, config);
    let pairs = all_orders(m.build, config);
    let all = all_actions(m.build, config);
    assert forall|i: int| 0 <= i < outcomes.len() implies expect_of((#[trigger] pairs[i]).0) is Done by {
        assert(all[i] == pairs[i].0);
        assert(!(all[i] is MaxApicId));
    }
    lemma_of_block(first, start, pairs, all, outcomes, fault);
}

/// What follows the highest APIC number: wide numbers are switched on where it
/// is above what narrow ones can hold, and only there. Then come the memory
/// manager, for the widest address of the configuration, the answer, and the
/// next request.
#[verifier::rlimit(30)]
pub proof fn law_apic_numbers(
    m: Monitor,
    length: u64,
    decoded: VmConfig,
    outcomes: Seq<Outcome>,
    id: u64,
    more: Seq<Outcome>,
)
    requires
        awaits_request(m),
        m.pending is None,
        m.session.started,
        may_follow(sent_configuration(m, length, decoded), outcomes),
        m.build.features.kvm && m.build.x86_64,
        decoded@.cpus.topology is Some,
        !(m.build.features.tdx && decoded@.tdx),
        outcomes.len() == if decoded@.landlock_enable {
            5int
        } else {
            4
        },
        goes_well(onward(sent_configuration(m, length, decoded), outcomes)),
        may_follow(
            onward(
                onward(sent_configuration(m, length, decoded), outcomes),
                seq![Outcome::Number(id)],
            ),
            more,
        ),
        more.len() < if id > 254 {
            4int
        } else {
            3
        },
    ensures
        ({
            let asking = onward(sent_configuration(m, length, decoded), outcomes);
            let first = onward(asking, seq![Outcome::Number(id)]);
            let at = onward(first, more);
            let all = (if id > 254 {
                seq![Action::EnableX2Apic]
            } else {
                Seq::empty()
            }) + seq![
                Action::CreateMemoryManager(decoded@.cpus.max_phys_bits),
                Action::Answer(true),
                Action::ReadRequest,
            ];
            &&& asking.1 == StepView::Perform(Action::MaxApicId(decoded@.cpus.topology->0))
            &&& goes_well(at) ==> asked_from(first, more) == all.take(more.len() as int + 1)
                && at.1 == StepView::Perform(all[more.len() as int])
        }),
{
    let config = decoded@;
    let asking = onward(sent_configuration(m, length, decoded), outcomes);
    lemma_all_actions(m.build, config);
    let n = all_actions(m.build, config).len();
    assert(outcomes.len() == n - 4);
    lemma_in_configuration(m, length, decoded, outcomes, config.options);
    let pairs = all_orders(m.build, config);
    lemma_after_number(asking, pairs, config, id, n - 3, more);
}

/// A configuration that the peer has sent, once its highest APIC number is
/// known.
proof fn lemma_after_number(
    asking: (Monitor, StepView),
    pairs: Seq<(Action, Wrap)>,
    config: VmConfigView,
    id: u64,
    n: int,
    more: Seq<Outcome>,
)
    requires
        on_course(pairs, asking, n),
        pairs[n - 1].0 is MaxApicId,
        pairs.skip(n) == last_orders(config),
        may_follow(onward(asking, seq![Outcome::Number(id)]), more),
        more.len() < if id > 254 {
            4int
        } else {
            3
        },
    ensures
        ({
            let first = onward(asking, seq![Outcome::Number(id)]);
            let at = onward(first, more);
            let all = (if id > 254 {
                seq![Action::EnableX2Apic]
            } else {
                Seq::empty()
            }) + seq![
                Action::CreateMemoryManager(config.cpus.max_phys_bits),
                Action::Answer(true),
                Action::ReadRequest,
            ];
            goes_well(at) ==> asked_from(first, more) == all.take(more.len() as int + 1) && at.1
                == StepView::Perform(all[more.len() as int])
        }),
{
    let start = numbered(asking.0, id);
    let all = (if id > 254 {
        seq![Action::EnableX2Apic]
    } else {
        Seq::empty()
    }) + seq![
        Action::CreateMemoryManager(config.cpus.max_phys_bits),
        Action::Answer(true),
        Action::ReadRequest,
    ];
    lemma_numbered(asking, pairs, config, id, n);
    lemma_of_block(
        onward(asking, seq![Outcome::Number(id)]),
        start,
        orders(start.plan),
        all,
        more,
        config.options,
    );
}

/// The monitor as it goes on with the highest APIC number.
#[verifier::opaque]
spec fn numbered(asking: Monitor, id: u64) -> Monitor {
    after(Monitor { waiting: None, ..asking }, Expect::ApicId, Outcome::Number(id))
}

/// The plan once the highest APIC number is known.
proof fn lemma_numbered(
    asking: (Monitor, StepView),
    pairs: Seq<(Action, Wrap)>,
    config: VmConfigView,
    id: u64,
    n: int,
)
    requires
        on_course(pairs, asking, n),
        pairs[n - 1].0 is MaxApicId,
        pairs.skip(n) == last_orders(config),
    ensures
        ({
            let start = numbered(asking.0, id);
            &&& onward(asking, seq![Outcome::Number(id)]) == settled(start)
            &&& start.pending is None
            &&& firm(start.plan)
            &&& orders(start.plan) == (if id > 254 {
                seq![(Action::EnableX2Apic, Wrap::Never)]
            } else {
                Seq::empty()
            }) + last_orders(config)
        }),
{
    reveal(on_course);
    reveal(numbered);
    reveal(onward);
    let one = seq![Outcome::Number(id)];
    assert(one.drop_last() =~= Seq::empty());
    assert(continued(asking, one.drop_last()) == asking);
    let plan = apic_plan(id);
    lemma_orders_add(plan, asking.0.plan);
    lemma_orders_one(ask(Action::EnableX2Apic, Wrap::Never));
    lemma_firm_join(plan, asking.0.plan);
}

/// A configuration with TDX is not taken where processors are compared.
pub proof fn law_configuration_with_tdx(m: Monitor, length: u64, decoded: VmConfig)
    requires
        awaits_request(m),
        m.pending is None,
        m.recovery == Recovery::Nothing,
        m.session.started,
        m.build.features.kvm && m.build.x86_64 && m.build.features.tdx && decoded@.tdx,
    ensures
        sent_configuration(m, length, decoded).1 == StepView::Done(
            Err::<ReplyView, Failure>(
                Failure::Migration(
                    MigratableError::MigrateReceive(Cause { context: Context::Tdx, detail: None }),
                ),
            ),
        ),
{
    reveal(migrated_plan);
    let start = before_request(considering_sent(m, decoded), migrated_plan(m.build, decoded@));
    lemma_sent_configuration(m, length, decoded);
    let failure = Failure::Migration(
        MigratableError::MigrateReceive(Cause { context: Context::Tdx, detail: None }),
    );
    assert(start.plan[0] == Phase::Fail(failure));
    lemma_failed_ends(Monitor { plan: start.plan.drop_first(), ..start }, failure);
}

} // verus!
