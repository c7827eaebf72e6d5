//! Interest in I/O readiness events for a file descriptor.
//!
//! [`Interest`] wraps the kernel's readiness-flag word. An empty set is made
//! with [`interest`] and grown with the fluent builder methods; each method
//! returns a new value with the corresponding flag bit set (or cleared, for
//! the `remove_*` methods) and leaves every other bit unchanged.

use vstd::prelude::*;

verus! {

/// The associated file is available for read operations (`EPOLLIN`).
pub const EPOLLIN: u32 = 0x001;
/// There is an exceptional condition on the file descriptor (`EPOLLPRI`).
pub const EPOLLPRI: u32 = 0x002;
/// The associated file is available for write operations (`EPOLLOUT`).
pub const EPOLLOUT: u32 = 0x004;
/// Error condition happened on the associated file descriptor (`EPOLLERR`).
pub const EPOLLERR: u32 = 0x008;
/// Hang up happened on the associated file descriptor (`EPOLLHUP`).
pub const EPOLLHUP: u32 = 0x010;
/// Stream socket peer closed connection, or shut down its writing half (`EPOLLRDHUP`).
pub const EPOLLRDHUP: u32 = 0x2000;
/// Exclusive wake-up mode for the attached epoll file descriptor (`EPOLLEXCLUSIVE`).
pub const EPOLLEXCLUSIVE: u32 = 0x1000_0000;
/// Prevents system suspend while the event is pending or processed (`EPOLLWAKEUP`).
pub const EPOLLWAKEUP: u32 = 0x2000_0000;
/// One-shot notification; the descriptor is disabled after one event (`EPOLLONESHOT`).
pub const EPOLLONESHOT: u32 = 0x4000_0000;
/// Edge-triggered notification instead of the default level-triggered (`EPOLLET`).
pub const EPOLLET: u32 = 0x8000_0000;

/// Interest in I/O readiness events, a set of `EPOLL*` flag bits.
///
/// The view of an `Interest` is its flag word.
#[derive(Clone, Copy, Debug, PartialEq, Eq, Hash, Structural)]
pub struct Interest {
    bits: u32,
}

impl View for Interest {
    type V = u32;

    closed spec fn view(&self) -> u32 {
        self.bits
    }
}

impl Default for Interest {
    /// Creates a default `Interest` with no flags set.
    fn default() -> (r: Self)
        ensures
            r@ == 0u32,
    {
        Interest { bits: 0 }
    }
}

impl Interest {
    /// Creates a new `Interest` from a raw flag word.
    pub fn new(bits: u32) -> (r: Self)
        ensures
            r@ == bits,
    {
        Interest { bits }
    }

    /// Returns the underlying flag word.
    pub fn bitflags(&self) -> (r: u32)
        ensures
            r == self@,
    {
        self.bits
    }

    /// Adds the given flags to this interest set.
    fn add(self, flags: u32) -> (r: Self)
        ensures
            r@ == (self@ | flags),
    {
        Interest { bits: self.bits | flags }
    }

    /// Removes the given flags from this interest set.
    fn remove(self, flags: u32) -> (r: Self)
        ensures
            r@ == (self@ & !flags),
    {
        Interest { bits: self.bits & !flags }
    }

    /// Adds interest in readable events (`EPOLLIN`).
    pub fn read(self) -> (r: Self)
        ensures
            r@ == (self@ | EPOLLIN),
    {
        self.add(EPOLLIN)
    }

    /// Adds interest in writable events (`EPOLLOUT`).
    pub fn write(self) -> (r: Self)
        ensures
            r@ == (self@ | EPOLLOUT),
    {
        self.add(EPOLLOUT)
    }

    /// Adds interest in both readable and writable events.
    pub fn read_write(self) -> (r: Self)
        ensures
            r@ == (self@ | (EPOLLIN | EPOLLOUT)),
    {
        let r = self.read().write();
        proof {
            lemma_or_accumulates(self@, EPOLLIN, EPOLLOUT);
        }
        r
    }

    /// Adds interest in the peer closing the write half of the connection (`EPOLLRDHUP`).
    pub fn rdhup(self) -> (r: Self)
        ensures
            r@ == (self@ | EPOLLRDHUP),
    {
        self.add(EPOLLRDHUP)
    }

    /// Adds interest in priority events (`EPOLLPRI`), such as out-of-band data.
    pub fn pri(self) -> (r: Self)
        ensures
            r@ == (self@ | EPOLLPRI),
    {
        self.add(EPOLLPRI)
    }

    /// Sets edge-triggered mode (`EPOLLET`); level-triggered is the default.
    pub fn edge_triggered(self) -> (r: Self)
        ensures
            r@ == (self@ | EPOLLET),
    {
        self.add(EPOLLET)
    }

    /// Sets one-shot mode (`EPOLLONESHOT`).
    pub fn oneshot(self) -> (r: Self)
        ensures
            r@ == (self@ | EPOLLONESHOT),
    {
        self.add(EPOLLONESHOT)
    }

    /// Adds a flag to prevent system suspend while events are pending (`EPOLLWAKEUP`).
    pub fn wakeup(self) -> (r: Self)
        ensures
            r@ == (self@ | EPOLLWAKEUP),
    {
        self.add(EPOLLWAKEUP)
    }

    /// Sets exclusive wake-up mode (`EPOLLEXCLUSIVE`), valid only at initial registration.
    pub fn exclusive(self) -> (r: Self)
        ensures
            r@ == (self@ | EPOLLEXCLUSIVE),
    {
        self.add(EPOLLEXCLUSIVE)
    }

    /// Removes interest in readable events.
    pub fn remove_read(self) -> (r: Self)
        ensures
            r@ == (self@ & !EPOLLIN),
    {
        self.remove(EPOLLIN)
    }

    /// Removes interest in writable events.
    pub fn remove_write(self) -> (r: Self)
        ensures
            r@ == (self@ & !EPOLLOUT),
    {
        self.remove(EPOLLOUT)
    }

    /// Removes interest in the `EPOLLRDHUP` event.
    pub fn remove_rdhup(self) -> (r: Self)
        ensures
            r@ == (self@ & !EPOLLRDHUP),
    {
        self.remove(EPOLLRDHUP)
    }

    /// Removes interest in priority events.
    pub fn remove_pri(self) -> (r: Self)
        ensures
            r@ == (self@ & !EPOLLPRI),
    {
        self.remove(EPOLLPRI)
    }

    /// Unsets edge-triggered mode, reverting to the default level-triggered behavior.
    pub fn remove_edge_triggered(self) -> (r: Self)
        ensures
            r@ == (self@ & !EPOLLET),
    {
        self.remove(EPOLLET)
    }

    /// Unsets one-shot mode.
    pub fn remove_oneshot(self) -> (r: Self)
        ensures
            r@ == (self@ & !EPOLLONESHOT),
    {
        self.remove(EPOLLONESHOT)
    }

    /// Unsets the `EPOLLWAKEUP` flag.
    pub fn remove_wakeup(self) -> (r: Self)
        ensures
            r@ == (self@ & !EPOLLWAKEUP),
    {
        self.remove(EPOLLWAKEUP)
    }

    /// Unsets exclusive wake-up mode.
    pub fn remove_exclusive(self) -> (r: Self)
        ensures
            r@ == (self@ & !EPOLLEXCLUSIVE),
    {
        self.remove(EPOLLEXCLUSIVE)
    }
}

/// Creates a new, empty [`Interest`] set, the entry point of the builder chain.
pub fn interest() -> (r: Interest)
    ensures
        r@ == 0u32,
{
    Interest::new(0)
}

/// Law: builder steps accumulate by bitwise or, so a chain of builder calls
/// yields the or of the individual flag contributions, in any grouping.
pub proof fn lemma_or_accumulates(bits: u32, f1: u32, f2: u32)
    ensures
        ((bits | f1) | f2) == (bits | (f1 | f2)),
        (bits | f1) == (f1 | bits),
{
    assert(((bits | f1) | f2) == (bits | (f1 | f2))) by (bit_vector);
    assert((bits | f1) == (f1 | bits)) by (bit_vector);
}

/// Law: adding a flag sets exactly that flag's bits: the flag is present
/// afterwards, and bits outside the flag are unchanged.
pub proof fn lemma_add_sets_exactly(bits: u32, flag: u32, other: u32)
    requires
        other & flag == 0,
    ensures
        ((bits | flag) & flag) == flag,
        ((bits | flag) & other) == (bits & other),
{
    assert(((bits | flag) & flag) == flag) by (bit_vector);
    assert(other & flag == 0 ==> ((bits | flag) & other) == (bits & other)) by (bit_vector);
}

/// Law: removing a flag clears exactly that flag's bits: the flag is absent
/// afterwards, and bits outside the flag are unchanged.
pub proof fn lemma_remove_clears_exactly(bits: u32, flag: u32, other: u32)
    requires
        other & flag == 0,
    ensures
        ((bits & !flag) & flag) == 0,
        ((bits & !flag) & other) == (bits & other),
{
    assert(((bits & !flag) & flag) == 0) by (bit_vector);
    assert(other & flag == 0 ==> ((bits & !flag) & other) == (bits & other)) by (bit_vector);
}

} // verus!
