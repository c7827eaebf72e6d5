//! The reactor's registration table and re-entrancy state machine.
//!
//! [`Reactor`] is the decision core of the event loop. It owns the table that
//! maps each registered file descriptor to its [`Entry`] (interest and kernel
//! cookie) and the state that makes dispatch re-entrant: while a batch of
//! events is handled, the descriptor whose handler is running is recorded, an
//! `add` aimed at that descriptor is rejected, and deletions are deferred and
//! carried out only after the batch.
//!
//! The core never talks to the kernel itself. The shell around it performs
//! each `epoll_ctl` syscall and records the outcome here, in the same order
//! the unverified engine would: the self-replacement check before the kernel
//! add, the lookup before the kernel modify, the kernel delete before the
//! table update. The `record_*` functions state exactly how the table changes
//! on a successful syscall; nothing changes when the syscall failed, because
//! nothing is recorded.

use vstd::prelude::*;

use crate::errors::ReactorError;
use crate::interest::Interest;
use crate::table::{
    apply_removals, as_table, collect_removed, contains_fd, cookie_occurrences, entries_wf,
    lemma_apply_removals_at, lemma_as_table_dom, lemma_as_table_index, lemma_as_table_push,
    lemma_as_table_swap_remove, lemma_as_table_update, lemma_contains_split, Entry,
};

verus! {

/// The placeholder descriptor recorded between the start of a batch and the
/// first handler invocation; no real descriptor is negative.
pub const INVALID_FD: i32 = -1;

/// The re-entrancy state held while a batch of events is dispatched.
struct Handling {
    fd: i32,
    deferred_remove: Vec<i32>,
}

/// The verified core of the reactor: the registration table plus the dispatch
/// state machine. See the module documentation for how the unverified shell
/// drives it.
pub struct Reactor {
    registered: Vec<Entry>,
    handling: Option<Handling>,
}

/// The table after a successful add: the entry for `fd` is inserted, replacing
/// a previous entry under the same descriptor.
pub open spec fn add_table(t: Map<i32, Entry>, fd: i32, interest: Interest, cookie: u64) -> Map<
    i32,
    Entry,
> {
    t.insert(fd, Entry { fd, interest, cookie })
}

/// The table after a successful modify: the interest under `fd` is replaced
/// and the cookie is kept.
pub open spec fn modify_table(t: Map<i32, Entry>, fd: i32, interest: Interest) -> Map<i32, Entry> {
    t.insert(fd, Entry { fd, interest, cookie: t[fd].cookie })
}

impl Reactor {
    /// The registration table: each registered descriptor's entry.
    pub closed spec fn table(self) -> Map<i32, Entry> {
        as_table(self.registered@)
    }

    /// Whether a batch of events is being dispatched.
    pub closed spec fn is_dispatching(self) -> bool {
        self.handling is Some
    }

    /// The descriptor whose handler is running; [`INVALID_FD`] when idle or
    /// between handlers.
    pub closed spec fn current(self) -> i32 {
        match self.handling {
            Option::Some(h) => h.fd,
            Option::None => INVALID_FD,
        }
    }

    /// The descriptors whose removal was deferred during the running batch.
    pub closed spec fn deferred(self) -> Seq<i32> {
        match self.handling {
            Option::Some(h) => h.deferred_remove@,
            Option::None => Seq::empty(),
        }
    }

    /// The stored registrations hold pairwise distinct descriptors.
    pub closed spec fn wf(self) -> bool {
        entries_wf(self.registered@)
    }

    /// Creates an empty reactor core: nothing registered, not dispatching.
    pub fn new() -> (r: Reactor)
        ensures
            r.wf(),
            r.table() == Map::<i32, Entry>::empty(),
            !r.is_dispatching(),
            r.current() == INVALID_FD,
            r.deferred() == Seq::<i32>::empty(),
    {
        let r = Reactor { registered: Vec::new(), handling: None };
        proof {
            assert(r.table() =~= Map::<i32, Entry>::empty());
        }
        r
    }

    /// Finds the position of `fd` in the stored registrations.
    fn find_index(&self, fd: i32) -> (r: Option<usize>)
        ensures
            match r {
                Some(i) => i < self.registered@.len() && self.registered@[i as int].fd == fd,
                None => !contains_fd(self.registered@, fd),
            },
    {
        let mut i: usize = 0;
        while i < self.registered.len()
            invariant
                i <= self.registered@.len(),
                forall|j: int| 0 <= j < i ==> (#[trigger] self.registered@[j]).fd != fd,
            decreases self.registered@.len() - i,
        {
            if self.registered[i].fd == fd {
                return Some(i);
            }
            i = i + 1;
        }
        None
    }

    /// Returns whether `fd` is registered.
    pub fn contains(&self, fd: i32) -> (r: bool)
        ensures
            r == self.table().dom().contains(fd),
    {
        proof {
            lemma_as_table_dom(self.registered@, fd);
        }
        self.find_index(fd).is_some()
    }

    /// Returns the interest `fd` is registered with, if it is registered.
    pub fn interest_of(&self, fd: i32) -> (r: Option<Interest>)
        requires
            self.wf(),
        ensures
            r == if self.table().dom().contains(fd) {
                Some(self.table()[fd].interest)
            } else {
                None::<Interest>
            },
    {
        proof {
            lemma_as_table_dom(self.registered@, fd);
        }
        match self.find_index(fd) {
            Some(i) => {
                proof {
                    lemma_as_table_index(self.registered@, i as int);
                }
                Some(self.registered[i].interest)
            },
            None => None,
        }
    }

    /// Returns the kernel cookie `fd` is registered with, if it is registered.
    /// A successful modify must re-submit exactly this cookie.
    pub fn cookie_of(&self, fd: i32) -> (r: Option<u64>)
        requires
            self.wf(),
        ensures
            r == if self.table().dom().contains(fd) {
                Some(self.table()[fd].cookie)
            } else {
                None::<u64>
            },
    {
        proof {
            lemma_as_table_dom(self.registered@, fd);
        }
        match self.find_index(fd) {
            Some(i) => {
                proof {
                    lemma_as_table_index(self.registered@, i as int);
                }
                Some(self.registered[i].cookie)
            },
            None => None,
        }
    }

    /// Law: a modify is owed exactly to a registered descriptor. The lookup
    /// hands back the cookie that the kernel modify must re-submit; an
    /// unregistered descriptor is refused with `NotFound` before any kernel
    /// call is made.
    pub fn require_registered(&self, fd: i32) -> (r: Result<u64, ReactorError>)
        requires
            self.wf(),
        ensures
            self.table().dom().contains(fd) ==> r == Ok::<u64, ReactorError>(
                self.table()[fd].cookie,
            ),
            !self.table().dom().contains(fd) ==> r == Err::<u64, ReactorError>(
                ReactorError::NotFound,
            ),
    {
        match self.cookie_of(fd) {
            Some(cookie) => Ok(cookie),
            None => Err(ReactorError::NotFound),
        }
    }

    /// Returns whether a batch of events is being dispatched. A run of the
    /// event loop must not start while this holds.
    pub fn is_handling(&self) -> (r: bool)
        ensures
            r == self.is_dispatching(),
    {
        self.handling.is_some()
    }

    /// Returns the descriptor whose handler is running, [`INVALID_FD`] when
    /// idle or between handlers.
    pub fn current_fd(&self) -> (r: i32)
        ensures
            r == self.current(),
    {
        match &self.handling {
            Some(h) => h.fd,
            None => INVALID_FD,
        }
    }

    /// Returns whether `fd` has been marked for removal during the running
    /// batch; a handler invoked later in the same batch can observe the mark.
    pub fn is_deferred(&self, fd: i32) -> (r: bool)
        ensures
            r == self.deferred().contains(fd),
    {
        match &self.handling {
            Some(h) => {
                let mut i: usize = 0;
                while i < h.deferred_remove.len()
                    invariant
                        i <= h.deferred_remove@.len(),
                        self.deferred() == h.deferred_remove@,
                        forall|j: int| 0 <= j < i ==> h.deferred_remove@[j] != fd,
                    decreases h.deferred_remove@.len() - i,
                {
                    if h.deferred_remove[i] == fd {
                        proof {
                            assert(self.deferred()[i as int] == fd);
                        }
                        return true;
                    }
                    i = i + 1;
                }
                false
            },
            None => false,
        }
    }

    /// Law: an add is rejected exactly when it would replace the subscriber
    /// whose event is being handled, and the rejection is `SelfReplacement`.
    /// The shell must consult this before the kernel add, so a rejected add
    /// leaves the kernel untouched.
    pub fn check_add(&self, fd: i32) -> (r: Result<(), ReactorError>)
        ensures
            r is Ok <==> !(self.is_dispatching() && self.current() == fd),
            r is Err ==> (r matches Err(e) && e == ReactorError::SelfReplacement),
    {
        match &self.handling {
            Some(h) => {
                if h.fd == fd {
                    Err(ReactorError::SelfReplacement)
                } else {
                    Ok(())
                }
            },
            None => Ok(()),
        }
    }

    /// Records a successful kernel add of `(fd, interest, cookie)`: the entry
    /// is inserted into the table, and the cookie of a replaced entry under
    /// the same descriptor is handed back so its subscriber can be dropped.
    pub fn record_add(&mut self, fd: i32, interest: Interest, cookie: u64) -> (replaced: Option<
        u64,
    >)
        requires
            old(self).wf(),
            !(old(self).is_dispatching() && old(self).current() == fd),
        ensures
            final(self).wf(),
            final(self).table() == add_table(old(self).table(), fd, interest, cookie),
            final(self).is_dispatching() == old(self).is_dispatching(),
            final(self).current() == old(self).current(),
            final(self).deferred() == old(self).deferred(),
            replaced == if old(self).table().dom().contains(fd) {
                Some(old(self).table()[fd].cookie)
            } else {
                None::<u64>
            },
    {
        let e = Entry { fd, interest, cookie };
        proof {
            lemma_as_table_dom(self.registered@, fd);
        }
        match self.find_index(fd) {
            Some(i) => {
                let prior = self.registered[i];
                proof {
                    lemma_as_table_index(self.registered@, i as int);
                    lemma_as_table_update(self.registered@, i as int, e);
                }
                self.registered[i] = e;
                Some(prior.cookie)
            },
            None => {
                proof {
                    lemma_as_table_push(self.registered@, e);
                }
                self.registered.push(e);
                None
            },
        }
    }

    /// Records a successful kernel modify of `fd` to `interest`: the interest
    /// in the table is replaced and the cookie is kept. The shell looks the
    /// descriptor up first ([`Self::cookie_of`]) and reports `NotFound` when
    /// the lookup fails, so this is only reached for a registered descriptor.
    pub fn record_modify(&mut self, fd: i32, interest: Interest)
        requires
            old(self).wf(),
            old(self).table().dom().contains(fd),
        ensures
            final(self).wf(),
            final(self).table() == modify_table(old(self).table(), fd, interest),
            final(self).is_dispatching() == old(self).is_dispatching(),
            final(self).current() == old(self).current(),
            final(self).deferred() == old(self).deferred(),
    {
        proof {
            lemma_as_table_dom(self.registered@, fd);
        }
        match self.find_index(fd) {
            Some(i) => {
                let e = Entry { fd, interest, cookie: self.registered[i].cookie };
                proof {
                    lemma_as_table_index(self.registered@, i as int);
                    lemma_as_table_update(self.registered@, i as int, e);
                }
                self.registered[i] = e;
            },
            None => {
                proof {
                    assert(false);
                }
            },
        }
    }

    /// Records a successful kernel delete of `fd`. During dispatch the removal
    /// is deferred: the table is untouched and `fd` is queued for the end of
    /// the batch. Otherwise the entry is removed at once and the cookie of the
    /// removed entry is handed back so its subscriber can be dropped.
    pub fn record_delete(&mut self, fd: i32) -> (removed: Option<u64>)
        requires
            old(self).wf(),
        ensures
            final(self).wf(),
            old(self).is_dispatching() ==> final(self).table() == old(self).table()
                && final(self).is_dispatching() && final(self).current() == old(self).current()
                && final(self).deferred() == old(self).deferred().push(fd) && removed is None,
            !old(self).is_dispatching() ==> final(self).table() == old(self).table().remove(fd)
                && !final(self).is_dispatching() && removed == (if old(
                self,
            ).table().dom().contains(fd) {
                Some(old(self).table()[fd].cookie)
            } else {
                None::<u64>
            }),
    {
        match &mut self.handling {
            Some(h) => {
                h.deferred_remove.push(fd);
                None
            },
            None => {
                proof {
                    lemma_as_table_dom(self.registered@, fd);
                }
                match self.find_index(fd) {
                    Some(i) => {
                        proof {
                            lemma_as_table_index(self.registered@, i as int);
                            lemma_as_table_swap_remove(self.registered@, i as int);
                        }
                        let e = self.registered.swap_remove(i);
                        Some(e.cookie)
                    },
                    None => {
                        proof {
                            assert(self.table().remove(fd) =~= self.table());
                        }
                        None
                    },
                }
            },
        }
    }

    /// Enters the dispatch state for a new batch of events: no handler is
    /// running yet and no removal has been deferred. The shell must refuse a
    /// re-entrant run before calling this.
    pub fn begin_dispatch(&mut self)
        requires
            old(self).wf(),
            !old(self).is_dispatching(),
        ensures
            final(self).wf(),
            final(self).table() == old(self).table(),
            final(self).is_dispatching(),
            final(self).current() == INVALID_FD,
            final(self).deferred() == Seq::<i32>::empty(),
    {
        self.handling = Some(Handling { fd: INVALID_FD, deferred_remove: Vec::new() });
    }

    /// Marks `fd` as the descriptor whose handler is about to run.
    pub fn set_current(&mut self, fd: i32)
        requires
            old(self).wf(),
            old(self).is_dispatching(),
        ensures
            final(self).wf(),
            final(self).table() == old(self).table(),
            final(self).is_dispatching(),
            final(self).current() == fd,
            final(self).deferred() == old(self).deferred(),
    {
        match &mut self.handling {
            Some(h) => {
                h.fd = fd;
            },
            None => {
                proof {
                    assert(false);
                }
            },
        }
    }

    /// Leaves the dispatch state and carries out the deferred removals in
    /// order. The entries that were actually removed are handed back, each
    /// exactly once, so their subscribers can be dropped.
    pub fn end_dispatch(&mut self) -> (dropped: Vec<Entry>)
        requires
            old(self).wf(),
            old(self).is_dispatching(),
        ensures
            final(self).wf(),
            !final(self).is_dispatching(),
            final(self).table() == apply_removals(old(self).table(), old(self).deferred()),
            dropped@ == collect_removed(old(self).table(), old(self).deferred()),
    {
        let handling = self.handling.take();
        let h = match handling {
            Some(h) => h,
            None => {
                proof {
                    assert(false);
                }
                Handling { fd: INVALID_FD, deferred_remove: Vec::new() }
            },
        };
        let ghost t0 = old(self).table();
        let ghost fds = h.deferred_remove@;
        let mut dropped: Vec<Entry> = Vec::new();
        let mut k: usize = 0;
        while k < h.deferred_remove.len()
            invariant
                k <= fds.len(),
                h.deferred_remove@ == fds,
                self.handling is None,
                entries_wf(self.registered@),
                as_table(self.registered@) == apply_removals(t0, fds.take(k as int)),
                dropped@ == collect_removed(t0, fds.take(k as int)),
            decreases fds.len() - k,
        {
            let fd = h.deferred_remove[k];
            proof {
                assert(fds.take(k as int + 1).drop_last() =~= fds.take(k as int));
                assert(fds.take(k as int + 1).last() == fd);
                lemma_as_table_dom(self.registered@, fd);
            }
            match self.find_index(fd) {
                Some(i) => {
                    proof {
                        lemma_as_table_index(self.registered@, i as int);
                        lemma_as_table_swap_remove(self.registered@, i as int);
                    }
                    let e = self.registered.swap_remove(i);
                    dropped.push(e);
                },
                None => {
                    proof {
                        assert(apply_removals(t0, fds.take(k as int)).remove(fd) =~= apply_removals(
                            t0,
                            fds.take(k as int),
                        ));
                    }
                },
            }
            k = k + 1;
        }
        proof {
            assert(fds.take(fds.len() as int) =~= fds);
        }
        dropped
    }
}

/// Law: registration identity. After a successful add of `(fd, interest,
/// cookie)`, the table's entry for `fd` carries exactly that descriptor,
/// interest and cookie.
pub proof fn lemma_registration_identity(
    t: Map<i32, Entry>,
    fd: i32,
    interest: Interest,
    cookie: u64,
)
    ensures
        add_table(t, fd, interest, cookie).dom().contains(fd),
        add_table(t, fd, interest, cookie)[fd] == (Entry { fd, interest, cookie }),
{
}

/// Law: modify idempotence. Applying the same interest modification twice
/// leaves the same table as applying it once.
pub proof fn lemma_modify_idempotent(t: Map<i32, Entry>, fd: i32, interest: Interest)
    requires
        t.dom().contains(fd),
    ensures
        modify_table(modify_table(t, fd, interest), fd, interest) == modify_table(t, fd, interest),
{
    assert(modify_table(modify_table(t, fd, interest), fd, interest) =~= modify_table(
        t,
        fd,
        interest,
    ));
}

/// Law: a descriptor deleted during dispatch is gone once the batch ends,
/// whatever else was deferred alongside it.
pub proof fn lemma_deferred_delete_removes(t: Map<i32, Entry>, fds: Seq<i32>, fd: i32)
    requires
        fds.contains(fd),
    ensures
        !apply_removals(t, fds).dom().contains(fd),
{
    lemma_apply_removals_at(t, fds, fd);
}

/// The cookies of distinct registered descriptors are distinct; this holds of
/// the running reactor because each cookie is the address of an entry's own
/// heap allocation.
pub open spec fn cookies_injective(t: Map<i32, Entry>) -> bool {
    forall|a: i32, b: i32|
        t.dom().contains(a) && t.dom().contains(b) && a != b ==> t[a].cookie != t[b].cookie
}

/// Counting a cookie in a sequence of entries extended by one element.
proof fn lemma_occurrences_push(s: Seq<Entry>, x: Entry, c: u64)
    ensures
        cookie_occurrences(s.push(x), c) == cookie_occurrences(s, c) + if x.cookie == c {
            1nat
        } else {
            0nat
        },
{
    assert(s.push(x).drop_last() =~= s);
    assert(s.push(x).last() == x);
}

/// How often the cookie of a registered descriptor is dropped by a batch of
/// deferred removals: once if the descriptor was named, never otherwise.
proof fn lemma_collect_occurrences(t: Map<i32, Entry>, fds: Seq<i32>, fd: i32)
    requires
        t.dom().contains(fd),
        cookies_injective(t),
    ensures
        cookie_occurrences(collect_removed(t, fds), t[fd].cookie) == if fds.contains(fd) {
            1nat
        } else {
            0nat
        },
    decreases fds.len(),
{
    let c = t[fd].cookie;
    if fds.len() == 0 {
        assert(!fds.contains(fd));
    } else {
        let dl = fds.drop_last();
        let last = fds.last();
        lemma_collect_occurrences(t, dl, fd);
        lemma_apply_removals_at(t, dl, fd);
        lemma_apply_removals_at(t, dl, last);
        lemma_contains_split(fds, fd);
        let prior = apply_removals(t, dl);
        let rest = collect_removed(t, dl);
        if prior.dom().contains(last) {
            assert(prior[last] == t[last]);
            lemma_occurrences_push(rest, t[last], c);
            if last == fd {
                assert(!dl.contains(fd));
            } else {
                assert(t[last].cookie != c);
            }
        } else {
            if last == fd {
                assert(dl.contains(fd));
            }
        }
    }
}

/// Law: delete-during-dispatch safety. When a handler deletes a registered
/// descriptor during a batch, ending the batch removes it from the table and
/// drops its subscriber's cookie exactly once, provided distinct descriptors
/// carry distinct cookies (in the running reactor each cookie is the address
/// of its own allocation).
pub proof fn lemma_deferred_delete_drops_once(t: Map<i32, Entry>, fds: Seq<i32>, fd: i32)
    requires
        t.dom().contains(fd),
        fds.contains(fd),
        cookies_injective(t),
    ensures
        !apply_removals(t, fds).dom().contains(fd),
        cookie_occurrences(collect_removed(t, fds), t[fd].cookie) == 1,
{
    lemma_apply_removals_at(t, fds, fd);
    lemma_collect_occurrences(t, fds, fd);
}

} // verus!
