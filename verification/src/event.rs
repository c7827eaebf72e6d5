//! A readiness event reported back by the kernel.

use vstd::prelude::*;

use crate::interest::{EPOLLERR, EPOLLHUP, EPOLLIN, EPOLLOUT, EPOLLPRI, EPOLLRDHUP};

verus! {

/// A readiness event for a single wake, a set of `EPOLL*` flag bits.
///
/// `Event` shares the flag universe of [`Interest`](crate::interest::Interest)
/// but is read-only: it reports what the kernel observed, which may include
/// bits such as `EPOLLERR` and `EPOLLHUP` that are never requested.
///
/// The view of an `Event` is its flag word.
#[derive(Clone, Copy, Debug, PartialEq, Eq, Hash, Structural)]
pub struct Event {
    bits: u32,
}

impl View for Event {
    type V = u32;

    closed spec fn view(&self) -> u32 {
        self.bits
    }
}

impl Event {
    /// Creates a new `Event` from a raw flag word.
    pub fn new(bits: u32) -> (r: Self)
        ensures
            r@ == bits,
    {
        Event { bits }
    }

    /// Returns the underlying flag word.
    pub fn bitflags(&self) -> (r: u32)
        ensures
            r == self@,
    {
        self.bits
    }

    /// Returns `true` if the event indicates readable readiness (`EPOLLIN`).
    pub fn is_readable(&self) -> (r: bool)
        ensures
            r == ((self@ & EPOLLIN) != 0),
    {
        (self.bits & EPOLLIN) != 0
    }

    /// Returns `true` if the event indicates writable readiness (`EPOLLOUT`).
    pub fn is_writable(&self) -> (r: bool)
        ensures
            r == ((self@ & EPOLLOUT) != 0),
    {
        (self.bits & EPOLLOUT) != 0
    }

    /// Returns `true` if the event indicates priority readiness (`EPOLLPRI`).
    pub fn is_priority(&self) -> (r: bool)
        ensures
            r == ((self@ & EPOLLPRI) != 0),
    {
        (self.bits & EPOLLPRI) != 0
    }

    /// Returns `true` if the event indicates an error condition (`EPOLLERR`).
    pub fn is_error(&self) -> (r: bool)
        ensures
            r == ((self@ & EPOLLERR) != 0),
    {
        (self.bits & EPOLLERR) != 0
    }

    /// Returns `true` if a hang up happened on the file descriptor (`EPOLLHUP`).
    pub fn is_hangup(&self) -> (r: bool)
        ensures
            r == ((self@ & EPOLLHUP) != 0),
    {
        (self.bits & EPOLLHUP) != 0
    }

    /// Returns `true` if the peer closed its writing half of the connection (`EPOLLRDHUP`).
    pub fn is_read_closed(&self) -> (r: bool)
        ensures
            r == ((self@ & EPOLLRDHUP) != 0),
    {
        (self.bits & EPOLLRDHUP) != 0
    }
}

} // verus!
