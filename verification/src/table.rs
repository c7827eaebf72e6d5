//! The mathematical model of the registration table.
//!
//! The reactor stores its registrations as a sequence of [`Entry`] values with
//! pairwise distinct file descriptors. [`as_table`] gives the map from file
//! descriptor to entry that such a sequence denotes; the reactor's contracts
//! are stated over that map. [`apply_removals`] and [`collect_removed`] model
//! the post-batch processing of removals that were deferred while a batch of
//! events was being dispatched.

use vstd::map::*;
use vstd::prelude::*;

use crate::interest::Interest;

verus! {

/// One registration: a file descriptor, its current interest, and the opaque
/// 64-bit cookie that the kernel carries back with every event for it.
#[derive(Clone, Copy, Debug, PartialEq, Eq, Structural)]
pub struct Entry {
    /// The registered file descriptor.
    pub fd: i32,
    /// The interest the kernel is currently armed with for `fd`.
    pub interest: Interest,
    /// The cookie submitted to the kernel for `fd`; in the running reactor it
    /// is the address of the subscriber's owning handle.
    pub cookie: u64,
}

/// The entries hold pairwise distinct file descriptors.
pub open spec fn entries_wf(s: Seq<Entry>) -> bool {
    forall|i: int, j: int| 0 <= i < j < s.len() ==> s[i].fd != s[j].fd
}

/// Some entry of `s` is registered under `fd`.
pub open spec fn contains_fd(s: Seq<Entry>, fd: i32) -> bool {
    exists|i: int| 0 <= i < s.len() && (#[trigger] s[i]).fd == fd
}

/// The map from file descriptor to entry that a sequence of registrations
/// denotes; a later entry under the same descriptor shadows an earlier one.
pub open spec fn as_table(s: Seq<Entry>) -> Map<i32, Entry>
    decreases s.len(),
{
    if s.len() == 0 {
        Map::empty()
    } else {
        as_table(s.drop_last()).insert(s.last().fd, s.last())
    }
}

/// Distinctness of descriptors is inherited by the sequence without its last entry.
pub proof fn lemma_wf_drop_last(s: Seq<Entry>)
    requires
        entries_wf(s),
        s.len() > 0,
    ensures
        entries_wf(s.drop_last()),
{
    assert forall|i: int, j: int| 0 <= i < j < s.drop_last().len() implies s.drop_last()[i].fd
        != s.drop_last()[j].fd by {
        assert(s.drop_last()[i] == s[i]);
        assert(s.drop_last()[j] == s[j]);
    }
}

/// The table's domain holds exactly the descriptors of the entries.
pub proof fn lemma_as_table_dom(s: Seq<Entry>, fd: i32)
    ensures
        as_table(s).dom().contains(fd) == contains_fd(s, fd),
    decreases s.len(),
{
    if s.len() == 0 {
        assert(!contains_fd(s, fd));
    } else {
        lemma_as_table_dom(s.drop_last(), fd);
        if s.last().fd == fd {
            assert((s[s.len() - 1]).fd == fd);
        } else {
            if contains_fd(s.drop_last(), fd) {
                let i = choose|i: int|
                    0 <= i < s.drop_last().len() && (#[trigger] s.drop_last()[i]).fd == fd;
                assert((s[i]).fd == fd);
            }
            if contains_fd(s, fd) {
                let i = choose|i: int| 0 <= i < s.len() && (#[trigger] s[i]).fd == fd;
                assert(i != s.len() - 1);
                assert((s.drop_last()[i]).fd == fd);
            }
        }
    }
}

/// Under distinct descriptors, the table maps each entry's descriptor to that entry.
pub proof fn lemma_as_table_index(s: Seq<Entry>, i: int)
    requires
        entries_wf(s),
        0 <= i < s.len(),
    ensures
        as_table(s).dom().contains(s[i].fd),
        as_table(s)[s[i].fd] == s[i],
    decreases s.len(),
{
    if i == s.len() - 1 {
    } else {
        lemma_wf_drop_last(s);
        lemma_as_table_index(s.drop_last(), i);
        assert(s.drop_last()[i] == s[i]);
        assert(s.last().fd != s[i].fd);
    }
}

/// Appending an entry under a fresh descriptor inserts it into the table.
pub proof fn lemma_as_table_push(s: Seq<Entry>, e: Entry)
    requires
        entries_wf(s),
        !contains_fd(s, e.fd),
    ensures
        entries_wf(s.push(e)),
        as_table(s.push(e)) == as_table(s).insert(e.fd, e),
{
    let s2 = s.push(e);
    assert forall|i: int, j: int| 0 <= i < j < s2.len() implies s2[i].fd != s2[j].fd by {
        if j == s2.len() - 1 {
            assert(s2[i] == s[i]);
            assert(s[i].fd != e.fd);
        } else {
            assert(s2[i] == s[i]);
            assert(s2[j] == s[j]);
        }
    }
    assert(s2.drop_last() =~= s);
    assert(s2.last() == e);
}

/// Overwriting the entry at a position with one for the same descriptor
/// updates the table at that descriptor.
pub proof fn lemma_as_table_update(s: Seq<Entry>, i: int, e: Entry)
    requires
        entries_wf(s),
        0 <= i < s.len(),
        e.fd == s[i].fd,
    ensures
        entries_wf(s.update(i, e)),
        as_table(s.update(i, e)) == as_table(s).insert(e.fd, e),
{
    let s2 = s.update(i, e);
    assert forall|k: int, j: int| 0 <= k < j < s2.len() implies s2[k].fd != s2[j].fd by {
        assert(s2[k].fd == s[k].fd);
        assert(s2[j].fd == s[j].fd);
    }
    let m1 = as_table(s2);
    let m2 = as_table(s).insert(e.fd, e);
    assert_maps_equal!(m1, m2, fd => {
        lemma_as_table_dom(s2, fd);
        lemma_as_table_dom(s, fd);
        if fd == e.fd {
            assert((s2[i]).fd == fd);
            lemma_as_table_index(s2, i);
        } else {
            if contains_fd(s2, fd) {
                let k = choose|k: int| 0 <= k < s2.len() && (#[trigger] s2[k]).fd == fd;
                assert(k != i);
                assert(s2[k] == s[k]);
                assert((s[k]).fd == fd);
                lemma_as_table_index(s2, k);
                lemma_as_table_index(s, k);
            }
            if contains_fd(s, fd) {
                let k = choose|k: int| 0 <= k < s.len() && (#[trigger] s[k]).fd == fd;
                assert(k != i);
                assert((s2[k]).fd == fd);
            }
        }
    });
}

/// Swap-removing the entry at a position removes its descriptor from the table.
pub proof fn lemma_as_table_swap_remove(s: Seq<Entry>, i: int)
    requires
        entries_wf(s),
        0 <= i < s.len(),
    ensures
        entries_wf(s.update(i, s.last()).drop_last()),
        as_table(s.update(i, s.last()).drop_last()) == as_table(s).remove(s[i].fd),
{
    let s2 = s.update(i, s.last()).drop_last();
    let fd0 = s[i].fd;
    assert forall|k: int, j: int| 0 <= k < j < s2.len() implies s2[k].fd != s2[j].fd by {
        let a = if k == i { s.len() - 1 } else { k };
        let b = if j == i { s.len() - 1 } else { j };
        assert(s2[k] == s[a]);
        assert(s2[j] == s[b]);
        assert(a != b);
    }
    let m1 = as_table(s2);
    let m2 = as_table(s).remove(fd0);
    assert_maps_equal!(m1, m2, fd => {
        lemma_as_table_dom(s2, fd);
        lemma_as_table_dom(s, fd);
        if fd == fd0 {
            if contains_fd(s2, fd) {
                let k = choose|k: int| 0 <= k < s2.len() && (#[trigger] s2[k]).fd == fd;
                let a = if k == i { s.len() - 1 } else { k };
                assert(s2[k] == s[a]);
                assert(a == i);
                assert(false);
            }
        } else {
            if contains_fd(s2, fd) {
                let k = choose|k: int| 0 <= k < s2.len() && (#[trigger] s2[k]).fd == fd;
                let a = if k == i { s.len() - 1 } else { k };
                assert(s2[k] == s[a]);
                assert((s[a]).fd == fd);
                lemma_as_table_index(s2, k);
                lemma_as_table_index(s, a);
            }
            if contains_fd(s, fd) {
                let k = choose|k: int| 0 <= k < s.len() && (#[trigger] s[k]).fd == fd;
                assert(k != i);
                if k == s.len() - 1 {
                    assert(i < s.len() - 1);
                    assert((s2[i]).fd == fd);
                } else {
                    assert((s2[k]).fd == fd);
                }
            }
        }
    });
}

/// The table left after carrying out a sequence of deferred removals in order.
pub open spec fn apply_removals(t: Map<i32, Entry>, fds: Seq<i32>) -> Map<i32, Entry>
    decreases fds.len(),
{
    if fds.len() == 0 {
        t
    } else {
        apply_removals(t, fds.drop_last()).remove(fds.last())
    }
}

/// The entries that carrying out a sequence of deferred removals in order
/// actually drops; a descriptor that is absent (or already removed by an
/// earlier element) contributes nothing.
pub open spec fn collect_removed(t: Map<i32, Entry>, fds: Seq<i32>) -> Seq<Entry>
    decreases fds.len(),
{
    if fds.len() == 0 {
        Seq::empty()
    } else {
        let prior = apply_removals(t, fds.drop_last());
        let rest = collect_removed(t, fds.drop_last());
        if prior.dom().contains(fds.last()) {
            rest.push(prior[fds.last()])
        } else {
            rest
        }
    }
}

/// How many entries of a sequence carry a given cookie.
pub open spec fn cookie_occurrences(s: Seq<Entry>, c: u64) -> nat
    decreases s.len(),
{
    if s.len() == 0 {
        0
    } else {
        cookie_occurrences(s.drop_last(), c) + if s.last().cookie == c {
            1nat
        } else {
            0nat
        }
    }
}

/// Membership in a descriptor sequence, split at its last element.
pub proof fn lemma_contains_split(fds: Seq<i32>, x: i32)
    requires
        fds.len() > 0,
    ensures
        fds.contains(x) == (fds.drop_last().contains(x) || fds.last() == x),
{
    if fds.drop_last().contains(x) {
        let k = choose|k: int| 0 <= k < fds.drop_last().len() && fds.drop_last()[k] == x;
        assert(fds[k] == x);
    }
    if fds.last() == x {
        assert(fds[fds.len() - 1] == x);
    }
    if fds.contains(x) {
        let k = choose|k: int| 0 <= k < fds.len() && fds[k] == x;
        if k != fds.len() - 1 {
            assert(fds.drop_last()[k] == x);
        }
    }
}

/// Removals only remove: a descriptor survives them exactly when it was
/// present and no removal names it, and its entry is then unchanged.
pub proof fn lemma_apply_removals_at(t: Map<i32, Entry>, fds: Seq<i32>, x: i32)
    ensures
        apply_removals(t, fds).dom().contains(x) == (t.dom().contains(x) && !fds.contains(x)),
        apply_removals(t, fds).dom().contains(x) ==> apply_removals(t, fds)[x] == t[x],
    decreases fds.len(),
{
    if fds.len() == 0 {
        assert(!fds.contains(x));
    } else {
        lemma_apply_removals_at(t, fds.drop_last(), x);
        lemma_contains_split(fds, x);
    }
}

} // verus!
