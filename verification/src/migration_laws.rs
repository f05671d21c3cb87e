//! What holds of migrations.

use vstd::prelude::*;
use crate::config::VmConfigView;
use crate::endpoint::{endpoint_of, EndpointView};
use crate::error::Context;
use crate::features::Build;
use crate::lifecycle::{ask, provided};
use crate::migration::{
    abort_plan, answer, await_answer, connect_wrap, descriptors_plan, next_request, paused_plan,
    quiesce_plan, send_plan, served, session_after, slot_number, source_cpuid_plan, takes,
    transfer_plan, with_file,
};
use crate::model::{advanced, applied, fits, Monitor, SessionView, Waiting};
use crate::plan::{
    Action, Change, Command, Expect, Outcome, Phase, Recovery, ReplyView, StepView,
    VmSendMigrationData, VmState, Wrap,
};
use crate::run::{lemma_next_ask, lemma_next_change, Request};

verus! {

/// A `tcp:` URL names the TCP address after it.
pub proof fn law_tcp_url(address: Seq<char>)
    ensures
        endpoint_of("tcp:"@ + address) == Some(EndpointView::Tcp(address)),
{
    assert(("tcp:"@ + address).skip("tcp:"@.len() as int) =~= address);
    assert("tcp:"@.is_prefix_of("tcp:"@ + address)) by {
        assert(("tcp:"@ + address).subrange(0, "tcp:"@.len() as int) =~= "tcp:"@);
    }
}

/// A `unix:` URL names the path after it.
pub proof fn law_unix_url(path: Seq<char>)
    ensures
        endpoint_of("unix:"@ + path) == Some(EndpointView::Unix(path)),
{
    reveal_strlit("tcp:");
    reveal_strlit("unix:");
    let url = "unix:"@ + path;
    assert(url.skip("unix:"@.len() as int) =~= path);
    assert("unix:"@.is_prefix_of(url)) by {
        assert(url.subrange(0, "unix:"@.len() as int) =~= "unix:"@);
    }
    assert(!"tcp:"@.is_prefix_of(url)) by {
        if "tcp:"@.is_prefix_of(url) {
            assert(url[0] == 'u');
            assert("tcp:"@[0] == 't');
            assert(url.subrange(0, 4)[0] == url[0]);
        }
    }
}

/// A number has one row of digits.
proof fn lemma_digits(
    a0: int,
    a1: int,
    a2: int,
    a3: int,
    b0: int,
    b1: int,
    b2: int,
    b3: int,
)
    requires
        0 <= a0 < 0x100 && 0 <= a1 < 0x100 && 0 <= a2 < 0x100,
        0 <= b0 < 0x100 && 0 <= b1 < 0x100 && 0 <= b2 < 0x100,
        a0 + 0x100 * a1 + 0x1_0000 * a2 + 0x100_0000 * a3 == b0 + 0x100 * b1 + 0x1_0000 * b2
            + 0x100_0000 * b3,
    ensures
        a0 == b0,
        a1 == b1,
        a2 == b2,
        a3 == b3,
{
    assert(a3 == b3);
    assert(a2 == b2);
    assert(a1 == b1);
}

/// The number of a memory slot fits its type, and different bytes are
/// different numbers.
pub proof fn law_slot_numbers(a: Seq<u8>, b: Seq<u8>)
    requires
        a.len() == 4,
        b.len() == 4,
    ensures
        slot_number(a) <= u32::MAX,
        slot_number(a) == slot_number(b) ==> a == b,
{
    if slot_number(a) == slot_number(b) {
        lemma_digits(
            a[0] as int,
            a[1] as int,
            a[2] as int,
            a[3] as int,
            b[0] as int,
            b[1] as int,
            b[2] as int,
            b[3] as int,
        );
        assert(a =~= b);
    }
}

/// A file that has come is there, and the others stay as they are.
pub proof fn law_a_slot_has_one_file(files: Option<Map<u32, i32>>, slot: u32, fd: i32, other: u32)
    ensures
        with_file(files, slot, fd).contains_pair(slot, fd),
        other != slot ==> (files matches Some(before) ==> (with_file(
            files,
            slot,
            fd,
        ).contains_key(other) <==> before.contains_key(other))),
        other != slot ==> (files matches Some(before) ==> with_file(files, slot, fd)[other]
            == before[other]),
{
    reveal(with_file);
}

/// The peer's next request is awaited.
pub open spec fn awaits_request(m: Monitor) -> bool {
    &&& m.plan.len() == 0
    &&& m.waiting == Some(Waiting { expect: Expect::Request, wrap: Wrap::Migration })
}

/// A request of the peer that is not taken is answered with no. Nothing else
/// happens, and the next request is awaited as if there had been none.
pub proof fn law_untaken_requests_are_refused(m: Monitor, command: Command, length: u64)
    requires
        awaits_request(m),
        !takes(m.session, command),
    ensures
        advanced(m, Outcome::Request(command, length)).1 == StepView::Perform(Action::Answer(false)),
        advanced(advanced(m, Outcome::Request(command, length)).0, Outcome::Done) == (
            m,
            StepView::Perform(Action::ReadRequest),
        ),
{
    reveal(served);
    let rest = Monitor { waiting: None, ..m };
    let refused = served(rest, command, length);
    assert(refused.plan =~= seq![answer(false)] + seq![next_request()]);
    lemma_next_ask(
        refused,
        Action::Answer(false),
        Expect::Done,
        Wrap::Migration,
        seq![next_request()],
    );
    let again = Monitor { plan: seq![next_request()], ..rest };
    assert(again.plan =~= seq![next_request()] + Seq::empty());
    lemma_next_ask(again, Action::ReadRequest, Expect::Request, Wrap::Migration, Seq::empty());
    assert(m.plan =~= Seq::empty());
}

/// Before the migration has started, neither a configuration is taken nor
/// anything of the machine.
pub proof fn law_nothing_is_taken_before_start(session: SessionView, command: Command)
    requires
        !session.started,
        command is Config || command is State || command is Memory || command is MemoryFd,
    ensures
        !takes(session, command),
{
}

/// Without a configuration, and without a new one after the machine's state,
/// neither state nor memory is taken. Files are not taken over TCP.
pub proof fn law_what_is_taken_when(session: SessionView)
    ensures
        !session.memory_manager ==> !takes(session, Command::State) && !takes(
            session,
            Command::Memory,
        ),
        !takes(session_after(session, Command::State), Command::State),
        !takes(session_after(session, Command::State), Command::Memory),
        (session.endpoint matches Some(EndpointView::Tcp(_))) ==> !takes(
            session,
            Command::MemoryFd,
        ),
{
}

/// A migration that is given up leaves neither machine nor configuration, and
/// ends well, whether the peer hears the answer or not.
pub proof fn law_abandon(m: Monitor, length: u64, outcome: Outcome)
    requires
        awaits_request(m),
        m.pending is None,
        m.reply == ReplyView::Done,
        fits(advanced(m, Outcome::Request(Command::Abandon, length)).0, outcome),
    ensures
        ({
            let given_up = advanced(m, Outcome::Request(Command::Abandon, length));
            &&& given_up.1 == StepView::Perform(Action::Answer(true))
            &&& advanced(given_up.0, outcome) == (
                Monitor { vm: None, vm_config: None, ..m.at_rest() },
                StepView::Done(Ok(ReplyView::Done)),
            )
        }),
{
    reveal(served);
    let rest = Monitor { waiting: None, ..m };
    let abandoned = served(rest, Command::Abandon, length);
    let last = seq![ask(Action::Answer(true), Wrap::Ignore)];
    assert(abandoned.plan =~= seq![Phase::Apply(Change::Forget)] + last);
    lemma_next_change(abandoned, Change::Forget, last);
    let forgotten = applied(Monitor { plan: last, ..abandoned }, Change::Forget);
    assert(last =~= last + Seq::empty());
    lemma_next_ask(forgotten, Action::Answer(true), Expect::Done, Wrap::Ignore, Seq::empty());
}

/// A migration completes well only with a machine, which runs before the peer
/// is told.
pub proof fn law_complete(m: Monitor, length: u64)
    requires
        awaits_request(m),
    ensures
        m.vm is None ==> advanced(m, Outcome::Request(Command::Complete, length)).1
            == StepView::Perform(Action::Answer(false)),
        m.vm is Some ==> {
            let running = advanced(m, Outcome::Request(Command::Complete, length));
            &&& running.1 == StepView::Perform(Action::ResumeVm)
            &&& advanced(running.0, Outcome::Done).1 == StepView::Perform(Action::Answer(true))
        },
{
    reveal(served);
    let rest = Monitor { waiting: None, ..m };
    let completing = served(rest, Command::Complete, length);
    if m.vm is None {
        assert(completing.plan =~= seq![answer(false)] + Seq::empty());
        lemma_next_ask(
            completing,
            Action::Answer(false),
            Expect::Done,
            Wrap::Migration,
            Seq::empty(),
        );
    } else {
        assert(completing.plan =~= seq![ask(Action::ResumeVm, Wrap::Migration)] + seq![
            answer(true),
        ]);
        lemma_next_ask(
            completing,
            Action::ResumeVm,
            Expect::Done,
            Wrap::Migration,
            seq![answer(true)],
        );
        let resumed = Monitor { plan: seq![answer(true)], ..completing };
        assert(resumed.plan =~= seq![answer(true)] + Seq::empty());
        lemma_next_ask(
            resumed,
            Action::Answer(true),
            Expect::Done,
            Wrap::Migration,
            Seq::empty(),
        );
    }
}

/// Whether every phase of a plan is of a kind.
pub open spec fn all_are(plan: Seq<Phase>, kind: spec_fn(Phase) -> bool) -> bool {
    forall|i: int| 0 <= i < plan.len() ==> kind(#[trigger] plan[i])
}

/// Two plans of a kind, one after the other.
pub proof fn lemma_all_are(head: Seq<Phase>, tail: Seq<Phase>, kind: spec_fn(Phase) -> bool)
    requires
        all_are(head, kind),
        all_are(tail, kind),
    ensures
        all_are(head + tail, kind),
{
    assert forall|i: int| 0 <= i < (head + tail).len() implies kind(#[trigger] (head + tail)[i]) by {
        if i < head.len() {
            assert(kind(head[i]));
        } else {
            assert(kind(tail[i - head.len()]));
        }
    }
}

/// A transfer is of a kind where its parts are.
pub proof fn lemma_transfer(
    build: Build,
    config: VmConfigView,
    endpoint: EndpointView,
    local: bool,
    kind: spec_fn(Phase) -> bool,
)
    requires
        all_are(opening(endpoint), kind),
        all_are(source_cpuid_plan(build, config), kind),
        all_are(descriptors_plan(endpoint, local), kind),
        all_are(config_sent(), kind),
        all_are(quiesce_plan(local), kind),
        all_are(state_sent(), kind),
        all_are(log_stopped(local), kind),
        kind(ask(Action::CompleteMigration, Wrap::Migration)),
    ensures
        all_are(transfer_plan(build, config, endpoint, local), kind),
{
    let cpuid = source_cpuid_plan(build, config);
    let descriptors = descriptors_plan(endpoint, local);
    let prepared = opening(endpoint) + cpuid + descriptors;
    lemma_all_are(opening(endpoint), cpuid, kind);
    lemma_all_are(opening(endpoint) + cpuid, descriptors, kind);
    lemma_all_are(prepared, config_sent(), kind);
    lemma_all_are(prepared + config_sent(), quiesce_plan(local), kind);
    let quiet = prepared + config_sent() + quiesce_plan(local);
    lemma_all_are(quiet, state_sent(), kind);
    lemma_all_are(quiet + state_sent(), log_stopped(local), kind);
    lemma_all_are(
        quiet + state_sent() + log_stopped(local),
        seq![ask(Action::CompleteMigration, Wrap::Migration)],
        kind,
    );
}

/// The opening of a transfer.
pub open spec fn opening(endpoint: EndpointView) -> Seq<Phase> {
    seq![
        ask(Action::Connect, connect_wrap(endpoint)),
        ask(Action::SendRequest(Command::Start, 0), Wrap::Migration),
        await_answer(Context::Start),
    ]
}

/// The sending of the configuration.
pub open spec fn config_sent() -> Seq<Phase> {
    seq![
        Phase::Ask(Action::EncodeConfig, Expect::Length(Command::Config), Wrap::Never),
        await_answer(Context::Config),
        ask(Action::StartMigration, Wrap::Migration),
    ]
}

/// The sending of the state.
pub open spec fn state_sent() -> Seq<Phase> {
    seq![
        ask(Action::ReleaseDiskLocks, Wrap::Unlock),
        ask(Action::SnapshotVm, Wrap::Migration),
        Phase::Ask(Action::EncodeSnapshot, Expect::Length(Command::State), Wrap::Never),
        await_answer(Context::State),
        ask(Action::SendRequest(Command::Complete, 0), Wrap::Migration),
        await_answer(Context::Complete),
    ]
}

/// Dirty pages are no longer logged.
pub open spec fn log_stopped(local: bool) -> Seq<Phase> {
    provided(!local, seq![ask(Action::StopDirtyLog, Wrap::Migration)])
}

/// Whether a phase reads or sends the machine's memory.
pub open spec fn handles_memory(phase: Phase) -> bool {
    phase matches Phase::Ask(action, _, _) && (action is StartDirtyLog || action is StopDirtyLog
        || action is ReadMemoryTable || action is ReadDirtyLog || action is SendTable
        || action is SendRegions)
}

/// A local migration hands over the descriptors of the memory, and never reads
/// or sends the memory itself.
pub proof fn law_local_migration_sends_no_memory(
    build: Build,
    config: VmConfigView,
    endpoint: EndpointView,
)
    ensures
        all_are(
            transfer_plan(build, config, endpoint, true),
            |phase: Phase| !handles_memory(phase),
        ),
{
    lemma_transfer(build, config, endpoint, true, |phase: Phase| !handles_memory(phase));
}

/// Whether a phase sends the memory's descriptors.
pub open spec fn sends_descriptors(phase: Phase) -> bool {
    phase matches Phase::Ask(action, _, _) && action is SendMemoryFds
}

/// A migration to another host never sends descriptors.
pub proof fn law_remote_migration_sends_no_descriptors(
    build: Build,
    config: VmConfigView,
    endpoint: EndpointView,
)
    ensures
        all_are(
            transfer_plan(build, config, endpoint, false),
            |phase: Phase| !sends_descriptors(phase),
        ),
{
    lemma_transfer(build, config, endpoint, false, |phase: Phase| !sends_descriptors(phase));
}

/// Whether a phase signals the monitor's exit.
pub open spec fn signals_exit(phase: Phase) -> bool {
    phase matches Phase::Ask(action, _, _) && action is SignalExit
}

/// The monitor's exit is signalled at the very end of a sending, and nowhere
/// else: not in what follows a failure either.
pub proof fn law_exit_comes_last(
    build: Build,
    config: VmConfigView,
    data: VmSendMigrationData,
    state: VmState,
)
    ensures
        all_are(
            send_plan(build, config, data).drop_last(),
            |phase: Phase| !signals_exit(phase),
        ),
        endpoint_of(data.destination_url@) is Some ==> signals_exit(
            send_plan(build, config, data).last(),
        ),
        all_are(abort_plan(data.local), |phase: Phase| !signals_exit(phase)),
        all_are(paused_plan(state), |phase: Phase| !signals_exit(phase)),
{
    let kind = |phase: Phase| !signals_exit(phase);
    let first = seq![Phase::Apply(Change::OnFailure(Recovery::AbortSend { local: data.local }))];
    match endpoint_of(data.destination_url@) {
        Some(endpoint) => {
            let transfer = transfer_plan(build, config, endpoint, data.local);
            let guard = seq![Phase::Apply(Change::OnFailure(Recovery::Nothing))];
            lemma_transfer(build, config, endpoint, data.local, kind);
            lemma_all_are(first, transfer, kind);
            lemma_all_are(first + transfer, guard, kind);
            assert(send_plan(build, config, data).drop_last() =~= first + transfer + guard);
        },
        None => {
            assert(send_plan(build, config, data).drop_last() =~= first);
        },
    }
}

} // verus!
