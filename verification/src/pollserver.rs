//! The dynamic multiplexer strategy: a growable list of watched descriptors,
//! each with the events asked for and the events that the last wait reported.

use crate::registry::{ascending, excluding, insert_ascending, Registry};
use vstd::prelude::*;

verus! {

/// Event bit: there is data to read.
pub const POLLIN: i16 = 0x001;

/// Event bit: the peer hung up.
pub const POLLHUP: i16 = 0x010;

/// One watched descriptor.
#[derive(Clone, Copy, Debug, PartialEq, Eq)]
pub struct PollFd {
    /// The descriptor.
    pub fd: i32,
    /// The events asked for.
    pub events: i16,
    /// The events that the last wait reported.
    pub revents: i16,
}

/// A change of the watched list.
#[derive(Clone, Copy, Debug, PartialEq, Eq)]
pub enum PfdChange {
    /// Stop watching the descriptor.
    Remove(i32),
    /// Start watching the descriptor.
    Insert(i32),
}

/// The entry with which a descriptor starts: readable data asked for, nothing reported.
pub open spec fn watch(fd: i32) -> PollFd {
    PollFd { fd, events: POLLIN, revents: 0 }
}

/// Whether reported events say that the descriptor is readable or hung up.
pub open spec fn is_ready(revents: i16) -> bool {
    revents & (POLLIN | POLLHUP) != 0
}

/// The descriptors of the entries, in their order.
pub open spec fn fds_of(entries: Seq<PollFd>) -> Seq<i32> {
    entries.map_values(|e: PollFd| e.fd)
}

/// The entries after `fd` is added: at the end, unless `fd` is watched already.
pub open spec fn insert_entry(entries: Seq<PollFd>, fd: i32) -> Seq<PollFd> {
    if fds_of(entries).contains(fd) {
        entries
    } else {
        entries.push(watch(fd))
    }
}

/// The entries after `fd` is taken out: the last entry moves into its place.
/// The first entry, the listener's, stays.
pub open spec fn remove_entry(entries: Seq<PollFd>, fd: i32) -> Seq<PollFd> {
    if entries.len() > 0 && entries[0].fd != fd && fds_of(entries).contains(fd) {
        entries.update(fds_of(entries).index_of(fd), entries.last()).drop_last()
    } else {
        entries
    }
}

/// The entries after one change.
pub open spec fn apply_change(entries: Seq<PollFd>, op: PfdChange) -> Seq<PollFd> {
    match op {
        PfdChange::Remove(fd) => remove_entry(entries, fd),
        PfdChange::Insert(fd) => insert_entry(entries, fd),
    }
}

/// The entries after the changes `ops`, applied in their order.
pub open spec fn apply_all(entries: Seq<PollFd>, ops: Seq<PfdChange>) -> Seq<PollFd>
    decreases ops.len(),
{
    if ops.len() == 0 {
        entries
    } else {
        apply_change(apply_all(entries, ops.drop_last()), ops.last())
    }
}

/// The entries after a wait reported `revents`, one value per entry in order.
/// An entry for which nothing was reported has no events.
pub open spec fn with_events(entries: Seq<PollFd>, revents: Seq<i16>) -> Seq<PollFd> {
    Seq::new(
        entries.len(),
        |i: int|
            PollFd {
                fd: entries[i].fd,
                events: entries[i].events,
                revents: if i < revents.len() {
                    revents[i]
                } else {
                    0
                },
            },
    )
}

/// A list of entries is well formed when it starts with the listener's entry
/// and watches no descriptor twice.
pub open spec fn entries_wf(entries: Seq<PollFd>) -> bool {
    entries.len() > 0 && fds_of(entries).no_duplicates()
}

/// Adding a descriptor keeps the list well formed and adds that descriptor only.
pub proof fn lemma_insert_entry(entries: Seq<PollFd>, fd: i32)
    requires
        entries_wf(entries),
    ensures
        entries_wf(insert_entry(entries, fd)),
        insert_entry(entries, fd)[0] == entries[0],
        forall|x: i32|
            #![trigger fds_of(insert_entry(entries, fd)).contains(x)]
            fds_of(insert_entry(entries, fd)).contains(x) <==> (fds_of(entries).contains(x) || x
                == fd),
{
    let after = insert_entry(entries, fd);
    let a = fds_of(entries);
    let b = fds_of(after);
    if !a.contains(fd) {
        assert(b =~= a.push(fd));
        assert forall|i: int, j: int| 0 <= i < b.len() && 0 <= j < b.len() && i != j implies b[i]
            != b[j] by {
            if i < a.len() {
                assert(a.contains(a[i]));
            }
            if j < a.len() {
                assert(a.contains(a[j]));
            }
        }
        assert forall|x: i32| b.contains(x) <==> (a.contains(x) || x == fd) by {
            if b.contains(x) {
                let k = choose|k: int| 0 <= k < b.len() && b[k] == x;
                if k < a.len() {
                    assert(a[k] == x);
                }
            }
            if a.contains(x) {
                let k = choose|k: int| 0 <= k < a.len() && a[k] == x;
                assert(b[k] == x);
            }
            if x == fd {
                assert(b[a.len() as int] == x);
            }
        }
    }
}

/// Taking a descriptor out keeps the list well formed, takes out that
/// descriptor only, and never the listener.
pub proof fn lemma_remove_entry(entries: Seq<PollFd>, fd: i32)
    requires
        entries_wf(entries),
    ensures
        entries_wf(remove_entry(entries, fd)),
        remove_entry(entries, fd)[0] == entries[0],
        forall|x: i32|
            #![trigger fds_of(remove_entry(entries, fd)).contains(x)]
            fds_of(remove_entry(entries, fd)).contains(x) <==> (fds_of(entries).contains(x) && (x
                != fd || fd == entries[0].fd)),
{
    let after = remove_entry(entries, fd);
    let a = fds_of(entries);
    let b = fds_of(after);
    if entries[0].fd != fd && a.contains(fd) {
        let idx = a.index_of(fd);
        let n = entries.len() - 1;
        assert(a[idx] == fd);
        assert(a[0] != fd);
        assert(idx > 0);
        assert(b.len() == n);
        assert forall|k: int| 0 <= k < n implies b[k] == (if k == idx {
            a[n]
        } else {
            a[k]
        }) by {}
        assert forall|i: int, j: int| 0 <= i < b.len() && 0 <= j < b.len() && i != j implies b[i]
            != b[j] by {
            let i2 = if i == idx { n } else { i };
            let j2 = if j == idx { n } else { j };
            assert(a[i2] != a[j2]);
        }
        assert forall|x: i32| b.contains(x) <==> (a.contains(x) && x != fd) by {
            if b.contains(x) {
                let k = choose|k: int| 0 <= k < b.len() && b[k] == x;
                let k2 = if k == idx { n } else { k };
                assert(a[k2] == x);
                assert(k2 != idx);
                assert(a[k2] != a[idx]);
            }
            if a.contains(x) && x != fd {
                let k = choose|k: int| 0 <= k < a.len() && a[k] == x;
                if k == n {
                    assert(b[idx] == x);
                } else {
                    assert(b[k] == x);
                }
            }
        }
    } else {
        assert forall|x: i32| b.contains(x) <==> (a.contains(x) && (x != fd || fd
            == entries[0].fd)) by {
            if a.contains(x) && x == fd && fd != entries[0].fd {
                assert(false);
            }
        }
    }
}

/// Any run of changes keeps the list well formed and the listener first.
pub proof fn lemma_apply_all(entries: Seq<PollFd>, ops: Seq<PfdChange>)
    requires
        entries_wf(entries),
    ensures
        entries_wf(apply_all(entries, ops)),
        apply_all(entries, ops)[0] == entries[0],
    decreases ops.len(),
{
    if ops.len() > 0 {
        lemma_apply_all(entries, ops.drop_last());
        let mid = apply_all(entries, ops.drop_last());
        match ops.last() {
            PfdChange::Remove(fd) => lemma_remove_entry(mid, fd),
            PfdChange::Insert(fd) => lemma_insert_entry(mid, fd),
        }
    }
}

/// The descriptors whose entry reports that they are readable or hung up.
pub open spec fn ready_fds(entries: Seq<PollFd>) -> Set<i32> {
    Set::new(
        |fd: i32|
            exists|i: int| 0 <= i < entries.len() && entries[i].fd == fd && is_ready(entries[i].revents),
    )
}

/// Whether reported events say that the descriptor is readable or hung up.
pub fn reports_ready(revents: i16) -> (ready: bool)
    ensures
        ready == is_ready(revents),
{
    revents & (POLLIN | POLLHUP) != 0
}

/// The watched descriptors of the dynamic strategy. The first entry is the
/// listener's; the clients follow in no particular order.
pub struct Pfds {
    pfds: Vec<PollFd>,
}

impl View for Pfds {
    type V = Seq<PollFd>;

    closed spec fn view(&self) -> Seq<PollFd> {
        self.pfds@
    }
}

impl Pfds {
    /// A list that watches the listener alone.
    pub fn new(listener_fd: i32) -> (pfds: Self)
        ensures
            pfds@ == seq![watch(listener_fd)],
            pfds.wf(),
    {
        let mut pfds: Vec<PollFd> = Vec::with_capacity(5);
        pfds.push(PollFd { fd: listener_fd, events: POLLIN, revents: 0 });
        let out = Pfds { pfds };
        proof {
            assert(out@ =~= seq![watch(listener_fd)]);
            assert(fds_of(out@) =~= seq![listener_fd]);
        }
        out
    }

    /// The number of watched descriptors, the listener included.
    pub fn len(&self) -> (n: usize)
        ensures
            n == self@.len(),
    {
        self.pfds.len()
    }

    /// The entries, in their order.
    pub fn iter(&self) -> (entries: Vec<PollFd>)
        ensures
            entries@ == self@,
    {
        let mut out: Vec<PollFd> = Vec::with_capacity(self.pfds.len());
        let mut i: usize = 0;
        while i < self.pfds.len()
            invariant
                0 <= i <= self.pfds.len(),
                out@ == self.pfds@.take(i as int),
            decreases self.pfds.len() - i,
        {
            out.push(self.pfds[i]);
            assert(self.pfds@.take(i + 1) =~= self.pfds@.take(i as int).push(self.pfds@[i as int]));
            i += 1;
        }
        assert(self.pfds@.take(i as int) =~= self.pfds@);
        out
    }

    /// Where `fd` is watched.
    pub fn position(&self, fd: i32) -> (at: Option<usize>)
        ensures
            match at {
                Some(i) => i < self@.len() && self@[i as int].fd == fd && forall|k: int|
                    0 <= k < i ==> self@[k].fd != fd,
                None => !fds_of(self@).contains(fd),
            },
    {
        let mut i: usize = 0;
        while i < self.pfds.len()
            invariant
                0 <= i <= self.pfds.len(),
                forall|k: int| 0 <= k < i ==> self.pfds@[k].fd != fd,
            decreases self.pfds.len() - i,
        {
            if self.pfds[i].fd == fd {
                return Some(i);
            }
            i += 1;
        }
        None
    }

    /// Applies the changes in their order. Adding a descriptor that is watched
    /// already changes nothing, and so does taking out the listener or a
    /// descriptor that is not watched.
    pub fn apply_changes(&mut self, ops: &[PfdChange])
        requires
            old(self).wf(),
        ensures
            final(self)@ == apply_all(old(self)@, ops@),
            final(self).wf(),
            final(self)@[0] == old(self)@[0],
    {
        let mut i: usize = 0;
        while i < ops.len()
            invariant
                0 <= i <= ops.len(),
                self@ == apply_all(old(self)@, ops@.take(i as int)),
                self.wf(),
                old(self).wf(),
            decreases ops.len() - i,
        {
            proof {
                assert(ops@.take(i + 1).drop_last() =~= ops@.take(i as int));
                assert(ops@.take(i + 1).last() == ops@[i as int]);
            }
            match ops[i] {
                PfdChange::Remove(fd) => {
                    self.remove_fd(fd);
                },
                PfdChange::Insert(fd) => {
                    self.insert_fd(fd);
                },
            }
            i += 1;
        }
        proof {
            assert(ops@.take(i as int) =~= ops@);
            lemma_apply_all(old(self)@, ops@);
        }
    }

    /// Starts watching `fd`, unless it is watched already. Returns whether it was added.
    pub fn insert_fd(&mut self, fd: i32) -> (added: bool)
        requires
            old(self).wf(),
        ensures
            final(self)@ == insert_entry(old(self)@, fd),
            final(self).wf(),
            added == !fds_of(old(self)@).contains(fd),
    {
        proof {
            lemma_insert_entry(self@, fd);
        }
        match self.position(fd) {
            Some(i) => {
                assert(fds_of(self@)[i as int] == fd);
                false
            },
            None => {
                self.pfds.push(PollFd { fd, events: POLLIN, revents: 0 });
                true
            },
        }
    }

    /// Stops watching `fd`, unless it is the listener. Returns whether it was taken out.
    pub fn remove_fd(&mut self, fd: i32) -> (removed: bool)
        requires
            old(self).wf(),
        ensures
            final(self)@ == remove_entry(old(self)@, fd),
            final(self).wf(),
            removed == (fd != old(self)@[0].fd && fds_of(old(self)@).contains(fd)),
    {
        proof {
            lemma_remove_entry(self@, fd);
        }
        match self.position(fd) {
            Some(i) => {
                assert(fds_of(self@)[i as int] == fd);
                if i == 0 {
                    false
                } else {
                    proof {
                        let a = fds_of(self@);
                        let idx = a.index_of(fd);
                        assert(a[idx] == fd);
                        assert(idx == i);
                    }
                    self.pfds.swap_remove(i);
                    true
                }
            },
            None => false,
        }
    }

    /// Stores what a wait reported: one value per entry, in the order of `iter`.
    /// An entry beyond the end of `revents` gets no events.
    pub fn record_events(&mut self, revents: &[i16])
        ensures
            final(self)@ == with_events(old(self)@, revents@),
            old(self).wf() ==> final(self).wf(),
    {
        let mut i: usize = 0;
        while i < self.pfds.len()
            invariant
                0 <= i <= self.pfds.len(),
                self.pfds@.len() == old(self)@.len(),
                forall|k: int| 0 <= k < i ==> self.pfds@[k] == with_events(old(self)@, revents@)[k],
                forall|k: int| i <= k < self.pfds@.len() ==> self.pfds@[k] == old(self)@[k],
            decreases self.pfds.len() - i,
        {
            let entry = self.pfds[i];
            let reported: i16 = if i < revents.len() {
                revents[i]
            } else {
                0
            };
            self.pfds.set(i, PollFd { fd: entry.fd, events: entry.events, revents: reported });
            i += 1;
        }
        proof {
            assert(self@ =~= with_events(old(self)@, revents@));
            assert(fds_of(self@) =~= fds_of(old(self)@));
        }
    }
}

impl Registry for Pfds {
    /// The listener's entry comes first and no descriptor is watched twice.
    open spec fn wf(&self) -> bool {
        entries_wf(self@)
    }

    open spec fn listener(&self) -> i32 {
        self@[0].fd
    }

    open spec fn descriptors(&self) -> Seq<i32> {
        fds_of(self@)
    }

    /// The list grows as needed: every descriptor has room.
    open spec fn admits(&self, fd: i32) -> bool {
        true
    }

    open spec fn ready_set(&self) -> Set<i32> {
        ready_fds(self@)
    }

    proof fn lemma_registry(&self) {
        assert(fds_of(self@)[0] == self@[0].fd);
        assert forall|fd: i32| self.ready_set().contains(fd) implies self.descriptors().contains(
            fd,
        ) by {
            let i = choose|i: int|
                0 <= i < self@.len() && self@[i].fd == fd && is_ready(self@[i].revents);
            assert(fds_of(self@)[i] == fd);
        }
    }

    fn listener_fd(&self) -> (fd: i32) {
        self.pfds[0].fd
    }

    fn contains(&self, fd: i32) -> (found: bool) {
        match self.position(fd) {
            Some(i) => {
                assert(fds_of(self@)[i as int] == fd);
                true
            },
            None => false,
        }
    }

    fn insert(&mut self, fd: i32) -> (added: bool)
        ensures
            final(self)@ == insert_entry(old(self)@, fd),
    {
        proof {
            lemma_insert_entry(self@, fd);
        }
        self.insert_fd(fd)
    }

    fn remove(&mut self, fd: i32) -> (removed: bool)
        ensures
            final(self)@ == remove_entry(old(self)@, fd),
    {
        proof {
            lemma_remove_entry(self@, fd);
        }
        self.remove_fd(fd)
    }

    fn iter_all(&self) -> (all: Vec<i32>) {
        let mut out: Vec<i32> = Vec::with_capacity(self.pfds.len());
        let mut i: usize = 0;
        while i < self.pfds.len()
            invariant
                0 <= i <= self.pfds.len(),
                out@ == fds_of(self@).take(i as int),
            decreases self.pfds.len() - i,
        {
            out.push(self.pfds[i].fd);
            assert(fds_of(self@).take(i + 1) =~= fds_of(self@).take(i as int).push(
                self@[i as int].fd,
            ));
            i += 1;
        }
        assert(fds_of(self@).take(i as int) =~= fds_of(self@));
        out
    }

    fn iter_excluding(&self, source: i32) -> (dests: Vec<i32>) {
        let listener = self.pfds[0].fd;
        let mut out: Vec<i32> = Vec::new();
        let mut i: usize = 0;
        while i < self.pfds.len()
            invariant
                0 <= i <= self.pfds.len(),
                listener == self@[0].fd,
                out@ == excluding(fds_of(self@).take(i as int), listener, source),
            decreases self.pfds.len() - i,
        {
            let fd = self.pfds[i].fd;
            proof {
                let next = fds_of(self@).take(i + 1);
                assert(next.drop_last() =~= fds_of(self@).take(i as int));
                assert(next.last() == fd);
            }
            if fd != listener && fd != source {
                out.push(fd);
            }
            i += 1;
        }
        assert(fds_of(self@).take(i as int) =~= fds_of(self@));
        out
    }

    fn ready(&self) -> (ready: Vec<i32>) {
        let mut out: Vec<i32> = Vec::new();
        let mut i: usize = 0;
        while i < self.pfds.len()
            invariant
                0 <= i <= self.pfds.len(),
                ascending(out@),
                forall|fd: i32|
                    out@.contains(fd) <==> exists|k: int|
                        0 <= k < i && self@[k].fd == fd && is_ready(self@[k].revents),
            decreases self.pfds.len() - i,
        {
            let entry = self.pfds[i];
            let ghost before = out@;
            if reports_ready(entry.revents) {
                insert_ascending(&mut out, entry.fd);
            }
            proof {
                assert forall|fd: i32|
                    out@.contains(fd) <==> exists|k: int|
                        0 <= k < i + 1 && self@[k].fd == fd && is_ready(
                            self@[k].revents,
                        ) by {
                    if out@.contains(fd) {
                        if before.contains(fd) {
                            let k = choose|k: int|
                                0 <= k < i && self@[k].fd == fd && is_ready(self@[k].revents);
                            assert(0 <= k < i + 1 && self@[k].fd == fd && is_ready(
                                self@[k].revents,
                            ));
                        } else {
                            assert(self@[i as int].fd == fd && is_ready(self@[i as int].revents));
                        }
                    }
                    if exists|k: int|
                        0 <= k < i + 1 && self@[k].fd == fd && is_ready(self@[k].revents) {
                        let k = choose|k: int|
                            0 <= k < i + 1 && self@[k].fd == fd && is_ready(self@[k].revents);
                        if k < i {
                            assert(before.contains(fd));
                        }
                    }
                }
            }
            i += 1;
        }
        out
    }
}

} // verus!
