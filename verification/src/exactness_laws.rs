//! What the smaller rules of the monitor come to, said outright.

use vstd::prelude::*;
use crate::config::VmConfigView;
use crate::endpoint::EndpointView;
use crate::migration::{
    session_after, slot_number, takes, with_file, with_slot, MAX_DIRTY_MIGRATIONS, MAX_XAPIC_ID,
};
use crate::model::{with_changed_config, Monitor, SessionView};
use crate::plan::{Action, Command, Outcome, StepView, VmSendMigrationData, VmSource};
use crate::run::{course, possible, Request};
use crate::transfer_laws::{law_order_of_a_sending, record};

verus! {

/// Which requests of a peer are taken: a configuration and files once the
/// migration has started, files only over a UNIX socket, state and memory once
/// there is also a memory manager for them, and everything else at any time.
pub proof fn law_which_requests_are_taken(session: SessionView, command: Command)
    ensures
        takes(session, command) <==> match command {
            Command::Config => session.started,
            Command::State => session.started && session.memory_manager,
            Command::Memory => session.started && session.memory_manager,
            Command::MemoryFd => session.started && session.endpoint is Some && !(
            session.endpoint matches Some(EndpointView::Tcp(_))),
            _ => true,
        },
{
}

/// What a request of a peer changes of the session by itself: a start marks it
/// as started, a configuration takes the files that have come for its memory
/// manager, a state uses up the memory manager, and no other changes anything.
pub proof fn law_what_requests_change_of_the_session(session: SessionView, command: Command)
    ensures
        ({
            let next = session_after(session, command);
            &&& next.endpoint == session.endpoint
            &&& next.started <==> session.started || command is Start
            &&& next.memory_manager <==> session.memory_manager && !(command is State)
            &&& next.memory_files == if command is Config {
                None
            } else {
                session.memory_files
            }
            &&& next.granted_files == if command is Config {
                session.memory_files
            } else {
                session.granted_files
            }
        }),
{
}

/// The number of a memory slot has its lowest byte first.
pub proof fn law_slot_bytes(bytes: Seq<u8>)
    requires
        bytes.len() == 4,
    ensures
        slot_number(bytes) == bytes[0] + 256 * bytes[1] + 65536 * bytes[2] + 16777216 * bytes[3],
        slot_number(bytes) % 256 == bytes[0],
{
    let n = bytes[0] + 256 * (bytes[1] + 256 * bytes[2] + 65536 * bytes[3]);
    assert(slot_number(bytes) == n);
    assert(n % 256 == bytes[0]);
}

/// A file that has come is kept under the number of its slot, in place of one
/// that was there. The other files, and everything else, stay as they were.
pub proof fn law_received_files(m: Monitor, bytes: Seq<u8>, fd: i32, slot: u32)
    requires
        bytes.len() == 4,
    ensures
        ({
            let next = with_slot(m, bytes, fd);
            let number = bytes[0] + 256 * bytes[1] + 65536 * bytes[2] + 16777216 * bytes[3];
            let before = match m.session.memory_files {
                Some(files) => files,
                None => Map::empty(),
            };
            &&& next == (Monitor {
                session: SessionView {
                    memory_files: next.session.memory_files,
                    ..m.session
                },
                ..m
            })
            &&& next.session.memory_files matches Some(files) && if slot == number {
                files.dom().contains(slot) && files[slot] == fd
            } else {
                (files.dom().contains(slot) <==> before.dom().contains(slot)) && (
                before.dom().contains(slot) ==> files[slot] == before[slot])
            }
        }),
{
    reveal(with_file);
    law_slot_bytes(bytes);
}

/// A change that the host makes of the configuration it works on. What prepares
/// a machine to come works on the monitor's, and so does everything else as
/// long as the machine shares it. A machine with a configuration of its own has
/// that changed, and so has one that a request has let go of. Nothing else
/// changes, and where there is no configuration none comes to be.
pub proof fn law_changed_configurations(m: Monitor, action: Action, config: VmConfigView)
    ensures
        ({
            let next = with_changed_config(m, action, config);
            let prepares = action == Action::CreateConsole || action == Action::ApplyLandlock
                || action == Action::RestoreVm || action == Action::CreateVm(VmSource::Migration);
            let own = m.vm matches Some(Some(_));
            let own_retired = m.vm is None && (m.retired matches Some(Some(_)));
            &&& next == (Monitor {
                vm: next.vm,
                vm_config: next.vm_config,
                retired: next.retired,
                ..m
            })
            &&& if !prepares && own {
                next.vm == Some(Some(config)) && next.vm_config == m.vm_config && next.retired
                    == m.retired
            } else if !prepares && own_retired {
                next.retired == Some(Some(config)) && next.vm_config == m.vm_config && next.vm
                    == m.vm
            } else {
                &&& next.vm == m.vm
                &&& next.retired == m.retired
                &&& m.vm_config is Some ==> next.vm_config == Some(config)
                &&& m.vm_config is None ==> next.vm_config is None
            }
        }),
{
}

/// How often a sending over the network reads the dirty log where it succeeds:
/// at most five times while the machine runs, and once more when it is paused.
/// Where the log never was empty, memory has been sent seven times in all: the
/// whole of it, five times what was dirty, and once more the rest. A local
/// migration reads nothing and sends no memory.
pub proof fn law_number_of_passes(m: Monitor, data: VmSendMigrationData, outcomes: Seq<Outcome>)
    requires
        possible(m, Request::Send(data), outcomes),
        course(m, Request::Send(data), outcomes).1 matches StepView::Done(Ok(_)),
    ensures
        ({
            let q = record(m, Request::Send(data), outcomes);
            &&& data.local ==> q.memory == 0 && q.before == 0 && q.after == 0
            &&& !data.local ==> q.before <= 5 && q.after == 1 && 1 <= q.memory <= 7 && (!q.clean
                ==> q.memory == 7)
        }),
        MAX_DIRTY_MIGRATIONS == 5,
        MAX_XAPIC_ID == 254,
{
    law_order_of_a_sending(m, data, outcomes);
}

} // verus!
