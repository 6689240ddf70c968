//! The interface that both multiplexer strategies offer to the broadcast loop.

use vstd::prelude::*;

verus! {

/// `s` holds its descriptors in strictly ascending numeric order.
pub open spec fn ascending(s: Seq<i32>) -> bool {
    forall|i: int, j: int| 0 <= i < j < s.len() ==> s[i] < s[j]
}

/// A strictly ascending sequence holds nothing twice.
pub proof fn lemma_ascending_no_duplicates(s: Seq<i32>)
    requires
        ascending(s),
    ensures
        s.no_duplicates(),
{
    assert forall|i: int, j: int| 0 <= i < s.len() && 0 <= j < s.len() && i != j implies s[i]
        != s[j] by {
        if i < j {
            assert(s[i] < s[j]);
        } else {
            assert(s[j] < s[i]);
        }
    }
}

/// Two strictly ascending sequences with the same elements are the same
/// sequence: the order in which ready descriptors are handled is determined
/// by which descriptors are ready.
pub proof fn lemma_ascending_unique(a: Seq<i32>, b: Seq<i32>)
    requires
        ascending(a),
        ascending(b),
        forall|x: i32| #![trigger a.contains(x)] #![trigger b.contains(x)] a.contains(x) <==> b.contains(x),
    ensures
        a == b,
    decreases a.len(),
{
    if a.len() == 0 {
        if b.len() > 0 {
            assert(b.contains(b[0]));
            assert(a.contains(b[0]));
        }
        assert(a =~= b);
    } else {
        let x = a[a.len() - 1];
        assert(a.contains(x));
        assert(b.contains(x));
        let k = choose|k: int| 0 <= k < b.len() && b[k] == x;
        if k < b.len() - 1 {
            let y = b[b.len() - 1];
            assert(b.contains(y));
            assert(a.contains(y));
            let m = choose|m: int| 0 <= m < a.len() && a[m] == y;
            assert(a[m] <= x);
            assert(b[k] < y);
        }
        let a0 = a.drop_last();
        let b0 = b.drop_last();
        assert forall|z: i32| a0.contains(z) <==> b0.contains(z) by {
            if a0.contains(z) {
                let i = choose|i: int| 0 <= i < a0.len() && a0[i] == z;
                assert(a[i] == z);
                assert(a.contains(z));
                let j = choose|j: int| 0 <= j < b.len() && b[j] == z;
                assert(z < x);
                assert(b0[j] == z);
            }
            if b0.contains(z) {
                let i = choose|i: int| 0 <= i < b0.len() && b0[i] == z;
                assert(b[i] == z);
                assert(b.contains(z));
                let j = choose|j: int| 0 <= j < a.len() && a[j] == z;
                assert(z < x);
                assert(a0[j] == z);
            }
        }
        lemma_ascending_unique(a0, b0);
        assert(a =~= a0.push(x));
        assert(b =~= b0.push(x));
    }
}

/// Puts `fd` into the strictly ascending `list` at its place. A descriptor that
/// the list already holds is not added again.
pub fn insert_ascending(list: &mut Vec<i32>, fd: i32)
    requires
        ascending(old(list)@),
    ensures
        ascending(final(list)@),
        forall|x: i32|
            #![trigger final(list)@.contains(x)]
            #![trigger old(list)@.contains(x)]
            final(list)@.contains(x) <==> (old(list)@.contains(x) || x == fd),
        final(list)@.len() == old(list)@.len() + (if old(list)@.contains(fd) { 0int } else { 1int }),
{
    let mut i: usize = 0;
    while i < list.len() && list[i] < fd
        invariant
            list@ == old(list)@,
            0 <= i <= list.len(),
            forall|k: int| 0 <= k < i ==> list@[k] < fd,
        decreases list.len() - i,
    {
        i += 1;
    }
    if i < list.len() && list[i] == fd {
        assert(list@.contains(fd));
        return ;
    }
    proof {
        if old(list)@.contains(fd) {
            let k = choose|k: int| 0 <= k < old(list)@.len() && old(list)@[k] == fd;
            if k >= i {
                assert(old(list)@[i as int] <= old(list)@[k]) by {
                    if (i as int) < k {
                        assert(old(list)@[i as int] < old(list)@[k]);
                    }
                }
            }
            assert(false);
        }
    }
    list.insert(i, fd);
    proof {
        let a = old(list)@;
        let b = list@;
        assert(b == a.insert(i as int, fd));
        assert forall|p: int, q: int| 0 <= p < q < b.len() implies b[p] < b[q] by {
            if q < i {
                assert(b[p] == a[p] && b[q] == a[q]);
            } else if q == i {
                assert(b[p] == a[p]);
            } else if p < i {
                assert(b[p] == a[p] && b[q] == a[q - 1]);
                if i < a.len() {
                    assert(a[i as int] <= a[q - 1]) by {
                        if (i as int) < q - 1 {
                            assert(a[i as int] < a[q - 1]);
                        }
                    }
                }
            } else if p == i {
                assert(b[q] == a[q - 1]);
                assert(a[i as int] <= a[q - 1]) by {
                    if (i as int) < q - 1 {
                        assert(a[i as int] < a[q - 1]);
                    }
                }
            } else {
                assert(b[p] == a[p - 1] && b[q] == a[q - 1]);
            }
        }
        assert forall|x: i32| b.contains(x) <==> (a.contains(x) || x == fd) by {
            if b.contains(x) {
                let k = choose|k: int| 0 <= k < b.len() && b[k] == x;
                if k < i {
                    assert(a[k] == x);
                } else if k > i {
                    assert(a[k - 1] == x);
                }
            }
            if a.contains(x) {
                let k = choose|k: int| 0 <= k < a.len() && a[k] == x;
                if k < i {
                    assert(b[k] == x);
                } else {
                    assert(b[k + 1] == x);
                }
            }
            if x == fd {
                assert(b[i as int] == x);
            }
        }
    }
}

/// The descriptors of `fds`, in their order, without `listener` and without `source`:
/// the destinations of a message that `source` sent.
pub open spec fn excluding(fds: Seq<i32>, listener: i32, source: i32) -> Seq<i32>
    decreases fds.len(),
{
    if fds.len() == 0 {
        Seq::empty()
    } else {
        let rest = excluding(fds.drop_last(), listener, source);
        if fds.last() != listener && fds.last() != source {
            rest.push(fds.last())
        } else {
            rest
        }
    }
}

/// What `excluding` keeps: every descriptor of `fds` but the listener and the
/// source, nothing else, nothing twice where `fds` holds nothing twice, and in
/// ascending order where `fds` is.
pub proof fn lemma_excluding(fds: Seq<i32>, listener: i32, source: i32)
    ensures
        forall|x: i32|
            #![trigger excluding(fds, listener, source).contains(x)]
            #![trigger fds.contains(x)]
            excluding(fds, listener, source).contains(x) <==> (fds.contains(x) && x != listener && x
                != source),
        excluding(fds, listener, source).len() <= fds.len(),
        fds.no_duplicates() ==> excluding(fds, listener, source).no_duplicates(),
        ascending(fds) ==> ascending(excluding(fds, listener, source)),
    decreases fds.len(),
{
    let out = excluding(fds, listener, source);
    if fds.len() > 0 {
        let head = fds.drop_last();
        let rest = excluding(head, listener, source);
        let last = fds.last();
        lemma_excluding(head, listener, source);
        assert forall|x: i32| out.contains(x) <==> (fds.contains(x) && x != listener && x
            != source) by {
            if out.contains(x) {
                let k = choose|k: int| 0 <= k < out.len() && out[k] == x;
                if k < rest.len() {
                    assert(rest[k] == x);
                    assert(rest.contains(x));
                    let m = choose|m: int| 0 <= m < head.len() && head[m] == x;
                    assert(fds[m] == x);
                } else {
                    assert(x == last);
                    assert(fds[fds.len() - 1] == x);
                }
            }
            if fds.contains(x) && x != listener && x != source {
                let m = choose|m: int| 0 <= m < fds.len() && fds[m] == x;
                if m < head.len() {
                    assert(head[m] == x);
                    assert(head.contains(x));
                    let k = choose|k: int| 0 <= k < rest.len() && rest[k] == x;
                    assert(out[k] == x);
                } else {
                    assert(out[out.len() - 1] == x);
                }
            }
        }
        if fds.no_duplicates() {
            assert(head.no_duplicates());
            assert forall|i: int, j: int| 0 <= i < out.len() && 0 <= j < out.len() && i
                != j implies out[i] != out[j] by {
                if i >= rest.len() || j >= rest.len() {
                    let k = if i >= rest.len() { j } else { i };
                    assert(rest[k] == out[k]);
                    assert(rest.contains(rest[k]));
                    let m = choose|m: int| 0 <= m < head.len() && head[m] == rest[k];
                    assert(fds[m] != fds[fds.len() - 1]);
                }
            }
        }
        if ascending(fds) {
            assert(ascending(head));
            assert forall|i: int, j: int| 0 <= i < j < out.len() implies out[i] < out[j] by {
                if j >= rest.len() {
                    assert(rest[i] == out[i]);
                    assert(rest.contains(rest[i]));
                    let m = choose|m: int| 0 <= m < head.len() && head[m] == rest[i];
                    assert(fds[m] < fds[fds.len() - 1]);
                }
            }
        }
    }
}

/// What the broadcast loop asks of a multiplexer strategy: the listener, the
/// open client connections, and which of them the last wait reported.
pub trait Registry: Sized {
    /// The invariant of the registry.
    spec fn wf(&self) -> bool;

    /// The listening descriptor, which is a member for the registry's whole life.
    spec fn listener(&self) -> i32;

    /// Every registered descriptor, the listener included, in the order in
    /// which the registry hands them out.
    spec fn descriptors(&self) -> Seq<i32>;

    /// Whether the strategy has room for `fd`.
    spec fn admits(&self, fd: i32) -> bool;

    /// The descriptors that the last wait reported as readable or hung up.
    spec fn ready_set(&self) -> Set<i32>;

    /// No descriptor is registered twice, the listener is registered, and
    /// only registered descriptors are ready.
    proof fn lemma_registry(&self)
        requires
            self.wf(),
        ensures
            self.descriptors().no_duplicates(),
            self.descriptors().contains(self.listener()),
            self.admits(self.listener()),
            forall|fd: i32| #[trigger]
                self.ready_set().contains(fd) ==> self.descriptors().contains(fd),
    ;

    /// The listening descriptor.
    fn listener_fd(&self) -> (fd: i32)
        requires
            self.wf(),
        ensures
            fd == self.listener(),
    ;

    /// Whether `fd` is registered.
    fn contains(&self, fd: i32) -> (found: bool)
        requires
            self.wf(),
        ensures
            found == self.descriptors().contains(fd),
    ;

    /// Registers `fd`. Returns whether it was new.
    fn insert(&mut self, fd: i32) -> (added: bool)
        requires
            old(self).wf(),
            old(self).admits(fd),
        ensures
            final(self).wf(),
            final(self).listener() == old(self).listener(),
            added == !old(self).descriptors().contains(fd),
            forall|x: i32|
                #![trigger final(self).descriptors().contains(x)]
                #![trigger old(self).descriptors().contains(x)]
                final(self).descriptors().contains(x) <==> (old(self).descriptors().contains(x) || x
                    == fd),
            forall|x: i32| #[trigger] old(self).admits(x) ==> final(self).admits(x),
    ;

    /// Takes `fd` out, unless it is the listener. Returns whether it was taken out.
    fn remove(&mut self, fd: i32) -> (removed: bool)
        requires
            old(self).wf(),
        ensures
            final(self).wf(),
            final(self).listener() == old(self).listener(),
            removed == (fd != old(self).listener() && old(self).descriptors().contains(fd)),
            forall|x: i32|
                #![trigger final(self).descriptors().contains(x)]
                #![trigger old(self).descriptors().contains(x)]
                final(self).descriptors().contains(x) <==> (old(self).descriptors().contains(x) && (
                x != fd || fd == old(self).listener())),
            forall|x: i32| #[trigger] old(self).admits(x) ==> final(self).admits(x),
    ;

    /// Every registered descriptor, the listener included.
    fn iter_all(&self) -> (all: Vec<i32>)
        requires
            self.wf(),
        ensures
            all@ == self.descriptors(),
    ;

    /// The destinations of a message from `source`: every registered
    /// descriptor but the listener and `source` itself.
    fn iter_excluding(&self, source: i32) -> (dests: Vec<i32>)
        requires
            self.wf(),
        ensures
            dests@ == excluding(self.descriptors(), self.listener(), source),
    ;

    /// The ready descriptors in ascending numeric order.
    fn ready(&self) -> (ready: Vec<i32>)
        requires
            self.wf(),
        ensures
            ascending(ready@),
            forall|fd: i32|
                #![trigger ready@.contains(fd)]
                #![trigger self.ready_set().contains(fd)]
                ready@.contains(fd) <==> self.ready_set().contains(fd),
    ;
}

} // verus!
