//! The events that the control loop waits for.

use vstd::prelude::*;

verus! {

/// What an event of the control loop stands for.
#[derive(Debug, Clone, Copy, PartialEq, Eq, Structural)]
pub enum EpollDispatch {
    /// The monitor is to exit.
    Exit,
    /// The machine is to be reset.
    Reset,
    /// An API request waits.
    Api,
    /// Virtio devices wait for their activation.
    ActivateVirtioDevices,
    /// A debugger's request waits.
    Debug,
    /// Nothing that the loop knows.
    Unknown,
}

impl EpollDispatch {
    /// The number under which this event is registered.
    pub open spec fn spec_index(self) -> u64 {
        match self {
            EpollDispatch::Exit => 0,
            EpollDispatch::Reset => 1,
            EpollDispatch::Api => 2,
            EpollDispatch::ActivateVirtioDevices => 3,
            EpollDispatch::Debug => 4,
            EpollDispatch::Unknown => 5,
        }
    }

    /// The number under which this event is registered.
    pub fn index(self) -> (index: u64)
        ensures
            index == self.spec_index(),
    {
        match self {
            EpollDispatch::Exit => 0,
            EpollDispatch::Reset => 1,
            EpollDispatch::Api => 2,
            EpollDispatch::ActivateVirtioDevices => 3,
            EpollDispatch::Debug => 4,
            EpollDispatch::Unknown => 5,
        }
    }

    /// The event of a number: the one registered under it, or `Unknown`.
    pub open spec fn of_index(v: u64) -> EpollDispatch {
        if v == 0 {
            EpollDispatch::Exit
        } else if v == 1 {
            EpollDispatch::Reset
        } else if v == 2 {
            EpollDispatch::Api
        } else if v == 3 {
            EpollDispatch::ActivateVirtioDevices
        } else if v == 4 {
            EpollDispatch::Debug
        } else {
            EpollDispatch::Unknown
        }
    }
}

impl From<u64> for EpollDispatch {
    fn from(v: u64) -> (r: Self) {
        match v {
            0 => EpollDispatch::Exit,
            1 => EpollDispatch::Reset,
            2 => EpollDispatch::Api,
            3 => EpollDispatch::ActivateVirtioDevices,
            4 => EpollDispatch::Debug,
            _ => EpollDispatch::Unknown,
        }
    }
}

impl vstd::std_specs::convert::FromSpecImpl<u64> for EpollDispatch {
    open spec fn obeys_from_spec() -> bool {
        true
    }

    open spec fn from_spec(v: u64) -> EpollDispatch {
        EpollDispatch::of_index(v)
    }
}

/// What is asked of the kernel for one descriptor: the conditions to report,
/// and the number to report them under.
#[derive(Debug, Clone, Copy, PartialEq, Eq, Structural)]
pub struct Interest {
    /// The conditions, as the kernel numbers them.
    pub events: u32,
    /// The number that comes back with the event.
    pub data: u64,
}

/// `epoll::Event::new` with `epoll::Events::EPOLLIN`: an event that reports
/// that the descriptor can be read, which is bit 0, under the number `data`.
#[verifier::external_body]
fn readable_event(data: u64) -> (event: (u32, u64))
    ensures
        event.0 == 1,
        event.1 == data,
{
    let event = epoll::Event::new(epoll::Events::EPOLLIN, data);
    (event.events, event.data)
}

/// What to ask of the kernel for a descriptor that stands for `token`: to
/// report that it can be read, under the number of `token`.
pub fn interest(token: EpollDispatch) -> (interest: Interest)
    ensures
        interest == (Interest { events: 1, data: token.spec_index() }),
{
    let event: (u32, u64) = readable_event(token.index());
    Interest { events: event.0, data: event.1 }
}

/// An event comes back as what it was registered for.
pub proof fn law_dispatch_of_registered(token: EpollDispatch)
    ensures
        EpollDispatch::of_index(token.spec_index()) == token,
{
}

/// A number that comes back as some known event is the one that this event is
/// registered under.
pub proof fn law_dispatch_is_known_only_by_its_number(v: u64)
    requires
        EpollDispatch::of_index(v) != EpollDispatch::Unknown,
    ensures
        EpollDispatch::of_index(v).spec_index() == v,
{
}

} // verus!
