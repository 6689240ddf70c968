//! The bounded multiplexer strategy: the watched descriptors are a mask of
//! fixed capacity, scanned up to a high-water mark that is kept beside it.
//!
//! The strategy has no room for a descriptor of `FD_SETSIZE` or more. Whoever
//! adds a descriptor has to make sure that it fits: nothing here checks it
//! at run time.

use crate::fdmask::{FdMask, FD_SETSIZE};
use crate::registry::{ascending, excluding, Registry};
use vstd::prelude::*;

verus! {

/// A change of the interest set.
#[derive(Clone, Copy, Debug, PartialEq, Eq)]
pub enum SfdChange {
    /// Start watching the descriptor.
    Add(i32),
    /// Stop watching the descriptor.
    Remove(i32),
}

/// The descriptors of `set` from 0 up to, but not including, `bound`, in
/// ascending order.
pub open spec fn listed(set: Set<i32>, bound: int) -> Seq<i32>
    decreases bound,
{
    if bound <= 0 {
        Seq::empty()
    } else if set.contains((bound - 1) as i32) {
        listed(set, bound - 1).push((bound - 1) as i32)
    } else {
        listed(set, bound - 1)
    }
}

/// `listed` is in ascending order and holds the descriptors of the set below the bound.
pub proof fn lemma_listed(set: Set<i32>, bound: int)
    requires
        bound <= i32::MAX,
    ensures
        ascending(listed(set, bound)),
        forall|x: i32|
            #![trigger listed(set, bound).contains(x)]
            listed(set, bound).contains(x) <==> (0 <= x < bound && set.contains(x)),
    decreases bound,
{
    if bound > 0 {
        lemma_listed(set, bound - 1);
        let rest = listed(set, bound - 1);
        let out = listed(set, bound);
        let top = (bound - 1) as i32;
        assert forall|i: int, j: int| 0 <= i < j < out.len() implies out[i] < out[j] by {
            if j >= rest.len() {
                assert(rest[i] == out[i]);
                assert(rest.contains(rest[i]));
            }
        }
        assert forall|x: i32| out.contains(x) <==> (0 <= x < bound && set.contains(x)) by {
            if out.contains(x) {
                let k = choose|k: int| 0 <= k < out.len() && out[k] == x;
                if k < rest.len() {
                    assert(rest[k] == x);
                    assert(rest.contains(x));
                }
            }
            if 0 <= x < bound && set.contains(x) {
                if x == top {
                    assert(out[out.len() - 1] == x);
                } else {
                    assert(rest.contains(x));
                    let k = choose|k: int| 0 <= k < rest.len() && rest[k] == x;
                    assert(out[k] == x);
                }
            }
        }
    }
}

/// The interest set after one change. The listener stays whatever the change.
pub open spec fn interest_after(interest: Set<i32>, listener: i32, change: SfdChange) -> Set<i32> {
    match change {
        SfdChange::Add(fd) => interest.insert(fd),
        SfdChange::Remove(fd) => if fd == listener {
            interest
        } else {
            interest.remove(fd)
        },
    }
}

/// The high-water mark after one change: it rises to a descriptor that is
/// added above it, and never falls.
pub open spec fn mark_after(mark: i32, change: SfdChange) -> i32 {
    match change {
        SfdChange::Add(fd) => if fd > mark {
            fd
        } else {
            mark
        },
        SfdChange::Remove(_) => mark,
    }
}

/// The interest set after the changes, applied in their order.
pub open spec fn interest_after_all(interest: Set<i32>, listener: i32, changes: Seq<SfdChange>) -> Set<
    i32,
>
    decreases changes.len(),
{
    if changes.len() == 0 {
        interest
    } else {
        interest_after(
            interest_after_all(interest, listener, changes.drop_last()),
            listener,
            changes.last(),
        )
    }
}

/// The high-water mark after the changes, applied in their order.
pub open spec fn mark_after_all(mark: i32, changes: Seq<SfdChange>) -> i32
    decreases changes.len(),
{
    if changes.len() == 0 {
        mark
    } else {
        mark_after(mark_after_all(mark, changes.drop_last()), changes.last())
    }
}

/// Whether every descriptor that the changes add fits into a mask.
pub open spec fn changes_fit(changes: Seq<SfdChange>) -> bool {
    forall|i: int|
        0 <= i < changes.len() ==> (#[trigger] changes[i] matches SfdChange::Add(fd) ==> 0 <= fd
            < FD_SETSIZE)
}

/// The watched descriptors of the bounded strategy: the interest set, which
/// changes only when a descriptor is added or taken out; the result set,
/// which every wait fills anew; and the high-water mark.
pub struct FdSet {
    master_set: FdMask,
    op_set: FdMask,
    max_fd: i32,
    listener: i32,
}

impl FdSet {
    /// The interest set: the listener and the open client connections.
    pub closed spec fn interest(&self) -> Set<i32> {
        self.master_set@
    }

    /// The result set: what the last wait left in the working mask.
    pub closed spec fn result(&self) -> Set<i32> {
        self.op_set@
    }

    /// The high-water mark.
    pub closed spec fn mark(&self) -> i32 {
        self.max_fd
    }

    /// The listening descriptor.
    pub closed spec fn listening(&self) -> i32 {
        self.listener
    }

    /// The invariant: the listener is watched, and the high-water mark is
    /// below the capacity and at or above every watched descriptor.
    pub open spec fn inv(&self) -> bool {
        &&& 0 <= self.listening() <= self.mark() < FD_SETSIZE
        &&& self.interest().contains(self.listening())
        &&& forall|fd: i32| self.interest().contains(fd) ==> 0 <= fd <= self.mark()
    }

    /// A set that watches the listener alone.
    pub fn new(listener_fd: i32) -> (fds: Self)
        requires
            0 <= listener_fd < FD_SETSIZE,
        ensures
            fds.inv(),
            fds.interest() == set![listener_fd],
            fds.result() == Set::<i32>::empty(),
            fds.mark() == listener_fd,
            fds.listening() == listener_fd,
    {
        let mut master_set = FdMask::zero();
        master_set.set(listener_fd);
        let op_set = FdMask::zero();
        let fds = FdSet { master_set, op_set, max_fd: listener_fd, listener: listener_fd };
        assert(fds.interest() =~= set![listener_fd]);
        fds
    }

    /// The high-water mark: the largest descriptor that was ever watched.
    pub fn max_fd(&self) -> (mark: i32)
        ensures
            mark == self.mark(),
    {
        self.max_fd
    }

    /// Copies the interest set into the working mask and hands the working
    /// mask out, for a wait to overwrite it with its result. The interest set
    /// itself is out of the wait's reach.
    pub fn as_mut(&mut self) -> (working: &mut FdMask)
        ensures
            working@ == old(self).interest(),
            final(self).result() == final(working)@,
            final(self).interest() == old(self).interest(),
            final(self).mark() == old(self).mark(),
            final(self).listening() == old(self).listening(),
    {
        self.op_set = self.master_set;
        &mut self.op_set
    }

    /// The descriptors of the result set up to the high-water mark, in
    /// ascending order.
    pub fn iter_sfd(&self) -> (fds: Vec<i32>)
        requires
            self.inv(),
        ensures
            fds@ == listed(self.result(), self.mark() + 1),
    {
        scan(&self.op_set, self.max_fd)
    }

    /// The descriptors of the interest set, in ascending order.
    pub fn iter_fd(&self) -> (fds: Vec<i32>)
        requires
            self.inv(),
        ensures
            fds@ == listed(self.interest(), self.mark() + 1),
    {
        scan(&self.master_set, self.max_fd)
    }

    /// Applies the changes in their order. A descriptor that is added above
    /// the high-water mark raises it; taking a descriptor out never lowers
    /// it, and the listener is never taken out.
    pub fn apply_changes(&mut self, changes: &[SfdChange])
        requires
            old(self).inv(),
            changes_fit(changes@),
        ensures
            final(self).inv(),
            final(self).interest() == interest_after_all(
                old(self).interest(),
                old(self).listening(),
                changes@,
            ),
            final(self).mark() == mark_after_all(old(self).mark(), changes@),
            final(self).result() == old(self).result(),
            final(self).listening() == old(self).listening(),
    {
        let mut i: usize = 0;
        while i < changes.len()
            invariant
                0 <= i <= changes.len(),
                changes_fit(changes@),
                self.inv(),
                self.interest() == interest_after_all(
                    old(self).interest(),
                    old(self).listening(),
                    changes@.take(i as int),
                ),
                self.mark() == mark_after_all(old(self).mark(), changes@.take(i as int)),
                self.result() == old(self).result(),
                self.listening() == old(self).listening(),
            decreases changes.len() - i,
        {
            proof {
                assert(changes@.take(i + 1).drop_last() =~= changes@.take(i as int));
                assert(changes@.take(i + 1).last() == changes@[i as int]);
            }
            self.apply_change(changes[i]);
            i += 1;
        }
        assert(changes@.take(i as int) =~= changes@);
    }

    /// Applies one change.
    pub fn apply_change(&mut self, change: SfdChange)
        requires
            old(self).inv(),
            change matches SfdChange::Add(fd) ==> 0 <= fd < FD_SETSIZE,
        ensures
            final(self).inv(),
            final(self).interest() == interest_after(
                old(self).interest(),
                old(self).listening(),
                change,
            ),
            final(self).mark() == mark_after(old(self).mark(), change),
            final(self).result() == old(self).result(),
            final(self).listening() == old(self).listening(),
    {
        match change {
            SfdChange::Add(fd) => {
                self.master_set.set(fd);
                if fd > self.max_fd {
                    self.max_fd = fd;
                }
            },
            SfdChange::Remove(fd) => {
                if fd != self.listener && 0 <= fd && fd < FD_SETSIZE {
                    self.master_set.clear(fd);
                } else {
                    proof {
                        self.master_set.lemma_range();
                        assert(fd != self.listener ==> self.interest().remove(fd)
                            =~= self.interest());
                    }
                }
            },
        }
    }
}

/// The high-water mark is at or above every watched descriptor.
pub proof fn lemma_mark_covers(fds: &FdSet, fd: i32)
    requires
        fds.inv(),
        fds.interest().contains(fd),
    ensures
        0 <= fd <= fds.mark(),
{
}

/// The high-water mark never falls, whatever is added or taken out.
pub proof fn lemma_mark_never_falls(mark: i32, changes: Seq<SfdChange>)
    ensures
        mark_after_all(mark, changes) >= mark,
    decreases changes.len(),
{
    if changes.len() > 0 {
        lemma_mark_never_falls(mark, changes.drop_last());
    }
}

/// The descriptors of `mask` from 0 up to `mark`, in ascending order.
fn scan(mask: &FdMask, mark: i32) -> (fds: Vec<i32>)
    requires
        mark < FD_SETSIZE,
    ensures
        fds@ == listed(mask@, mark + 1),
{
    let mut out: Vec<i32> = Vec::new();
    let mut fd: i32 = 0;
    while fd <= mark
        invariant
            0 <= fd,
            mark >= 0 ==> fd <= mark + 1,
            mark < 0 ==> fd == 0,
            mark < FD_SETSIZE,
            out@ == listed(mask@, fd as int),
        decreases mark + 1 - fd,
    {
        if mask.is_set(fd) {
            out.push(fd);
        }
        fd += 1;
    }
    out
}

/// The descriptors that both masks hold, from 0 up to `mark`, in ascending order.
fn scan_both(first: &FdMask, second: &FdMask, mark: i32) -> (fds: Vec<i32>)
    requires
        mark < FD_SETSIZE,
    ensures
        fds@ == listed(first@.intersect(second@), mark + 1),
{
    let mut out: Vec<i32> = Vec::new();
    let mut fd: i32 = 0;
    while fd <= mark
        invariant
            0 <= fd,
            mark >= 0 ==> fd <= mark + 1,
            mark < 0 ==> fd == 0,
            mark < FD_SETSIZE,
            out@ == listed(first@.intersect(second@), fd as int),
        decreases mark + 1 - fd,
    {
        if first.is_set(fd) && second.is_set(fd) {
            out.push(fd);
        }
        fd += 1;
    }
    out
}

impl Registry for FdSet {
    /// The listener is watched, and the high-water mark is below the capacity
    /// and at or above every watched descriptor.
    open spec fn wf(&self) -> bool {
        self.inv()
    }

    open spec fn listener(&self) -> i32 {
        self.listening()
    }

    open spec fn descriptors(&self) -> Seq<i32> {
        listed(self.interest(), self.mark() + 1)
    }

    /// Only a descriptor below the capacity has room.
    open spec fn admits(&self, fd: i32) -> bool {
        0 <= fd < FD_SETSIZE
    }

    /// A descriptor is ready when the wait left it in the result set and it
    /// is watched.
    open spec fn ready_set(&self) -> Set<i32> {
        self.interest().intersect(self.result())
    }

    proof fn lemma_registry(&self) {
        lemma_listed(self.interest(), self.mark() + 1);
        crate::registry::lemma_ascending_no_duplicates(self.descriptors());
    }

    fn listener_fd(&self) -> (fd: i32) {
        self.listener
    }

    fn contains(&self, fd: i32) -> (found: bool) {
        proof {
            lemma_listed(self.interest(), self.mark() + 1);
        }
        self.master_set.is_set(fd)
    }

    fn insert(&mut self, fd: i32) -> (added: bool)
        ensures
            final(self).interest() == old(self).interest().insert(fd),
            final(self).mark() == mark_after(old(self).mark(), SfdChange::Add(fd)),
            final(self).result() == old(self).result(),
    {
        let added = !self.master_set.is_set(fd);
        self.apply_change(SfdChange::Add(fd));
        proof {
            lemma_listed(old(self).interest(), old(self).mark() + 1);
            lemma_listed(self.interest(), self.mark() + 1);
        }
        added
    }

    fn remove(&mut self, fd: i32) -> (removed: bool)
        ensures
            final(self).interest() == interest_after(
                old(self).interest(),
                old(self).listening(),
                SfdChange::Remove(fd),
            ),
            final(self).mark() == old(self).mark(),
            final(self).result() == old(self).result(),
    {
        let removed = fd != self.listener && self.master_set.is_set(fd);
        self.apply_change(SfdChange::Remove(fd));
        proof {
            lemma_listed(old(self).interest(), old(self).mark() + 1);
            lemma_listed(self.interest(), self.mark() + 1);
        }
        removed
    }

    fn iter_all(&self) -> (all: Vec<i32>) {
        self.iter_fd()
    }

    fn iter_excluding(&self, source: i32) -> (dests: Vec<i32>) {
        let mut out: Vec<i32> = Vec::new();
        let mut fd: i32 = 0;
        while fd <= self.max_fd
            invariant
                self.inv(),
                0 <= fd <= self.mark() + 1,
                self.mark() == self.max_fd,
                self.listening() == self.listener,
                self.interest() == self.master_set@,
                out@ == excluding(listed(self.interest(), fd as int), self.listening(), source),
            decreases self.max_fd + 1 - fd,
        {
            proof {
                if self.interest().contains(fd) {
                    let grown = listed(self.interest(), fd + 1);
                    assert(grown.drop_last() =~= listed(self.interest(), fd as int));
                    assert(grown.last() == fd);
                }
            }
            if self.master_set.is_set(fd) && fd != self.listener && fd != source {
                out.push(fd);
            }
            fd += 1;
        }
        out
    }

    fn ready(&self) -> (ready: Vec<i32>) {
        proof {
            lemma_listed(self.ready_set(), self.mark() + 1);
        }
        scan_both(&self.master_set, &self.op_set, self.max_fd)
    }
}

} // verus!
