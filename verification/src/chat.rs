//! The broadcast loop: which outside work comes next, and what happens to the
//! registry when that work is done.
//!
//! The loop is a state machine. The program around it performs the request
//! that the machine hands out (a wait, an accept, a read), reports the outcome
//! as an event, and carries out the effect that the machine answers with (a
//! broadcast, a close). The machine itself does no input or output.

use crate::registry::{ascending, excluding, lemma_excluding, Registry};
use crate::timeout::Timeout;
use vstd::prelude::*;

verus! {

/// The size of the buffer that one read fills: no message chunk is longer.
pub const RECV_MESSAGE_SIZE: usize = 256;

/// The outside work that the loop is waiting for.
#[derive(Clone, Copy, Debug, PartialEq, Eq, Structural)]
pub enum Request {
    /// Wait until a registered descriptor is ready.
    Wait { timeout: Timeout },
    /// Accept one pending connection on the listener.
    Accept { listener: i32 },
    /// Read one chunk of at most `capacity` bytes from `source`.
    Receive { source: i32, capacity: usize },
}

/// What became of a request.
#[derive(Debug)]
pub enum Event {
    /// The wait returned and the registry holds what it reported.
    Woken,
    /// The wait itself failed, with this error number.
    WaitFailed(i32),
    /// The accept returned this descriptor. A negative value is a failed accept.
    Accepted(i32),
    /// The accept failed.
    AcceptFailed,
    /// The read returned these bytes. No bytes at all mean that the peer hung up.
    Received(Vec<u8>),
    /// The read failed.
    ReadFailed,
}

/// What the program has to carry out before it turns to the next request.
#[derive(Debug)]
pub enum Effect {
    /// Nothing.
    Nothing,
    /// Give the server up: the wait failed with this error number, which is
    /// the fault of no single connection.
    Abort { errno: i32 },
    /// Close the descriptor: it has left the registry.
    Close { fd: i32 },
    /// Send `payload` to each of `destinations`. A send that fails is skipped.
    Broadcast { source: i32, destinations: Vec<i32>, payload: Vec<u8> },
}

/// The answer to an event.
#[derive(Debug)]
pub struct Step {
    /// What to carry out now.
    pub effect: Effect,
    /// What to do next.
    pub request: Request,
}

/// What an event means in a given state.
pub enum Transition {
    /// The event answers no outstanding request: nothing changes.
    Ignore,
    /// The wait failed: the server cannot go on.
    Abort(i32),
    /// A wait returned: a new pass over the ready descriptors begins.
    BeginPass,
    /// A connection was accepted: the descriptor is registered.
    Admit(i32),
    /// An accept failed: the listener is passed over.
    Skip,
    /// A client sent bytes: they go to everyone else.
    Relay(i32),
    /// A client hung up or its read failed: it is evicted.
    Evict(i32),
}

/// The request that is outstanding when `pending` is what is left of the
/// current pass: a wait when nothing is left, else an accept or a read on
/// the first descriptor.
pub open spec fn request_for(pending: Seq<i32>, listener: i32) -> Request {
    if pending.len() == 0 {
        Request::Wait { timeout: Timeout::Indefinite }
    } else if pending[0] == listener {
        Request::Accept { listener }
    } else {
        Request::Receive { source: pending[0], capacity: RECV_MESSAGE_SIZE }
    }
}

/// What `event` means when `pending` is what is left of the current pass.
pub open spec fn classify(pending: Seq<i32>, listener: i32, event: Event) -> Transition {
    if pending.len() == 0 {
        match event {
            Event::Woken => Transition::BeginPass,
            Event::WaitFailed(errno) => Transition::Abort(errno),
            _ => Transition::Ignore,
        }
    } else if pending[0] == listener {
        match event {
            Event::Accepted(fd) => if fd >= 0 {
                Transition::Admit(fd)
            } else {
                Transition::Skip
            },
            Event::AcceptFailed => Transition::Skip,
            _ => Transition::Ignore,
        }
    } else {
        match event {
            Event::Received(data) => if data@.len() > 0 {
                Transition::Relay(pending[0])
            } else {
                Transition::Evict(pending[0])
            },
            Event::ReadFailed => Transition::Evict(pending[0]),
            _ => Transition::Ignore,
        }
    }
}

/// The state of the broadcast loop: idle, about to wait, when nothing is
/// pending; else in the middle of a pass over the ready descriptors.
pub struct ChatBroadcastLoop {
    ready: Vec<i32>,
    next: usize,
}

impl ChatBroadcastLoop {
    /// The ready descriptors that the current pass has not handled yet.
    pub closed spec fn pending(&self) -> Seq<i32> {
        if self.next <= self.ready@.len() {
            self.ready@.skip(self.next as int)
        } else {
            Seq::empty()
        }
    }

    /// The invariant: what is pending is in ascending order and registered.
    pub open spec fn wf<R: Registry>(&self, registry: &R) -> bool {
        &&& ascending(self.pending())
        &&& forall|fd: i32| #[trigger]
            self.pending().contains(fd) ==> registry.descriptors().contains(fd)
    }

    /// The loop before its first wait.
    pub fn new() -> (state: Self)
        ensures
            state.pending() == Seq::<i32>::empty(),
    {
        let state = ChatBroadcastLoop { ready: Vec::new(), next: 0 };
        assert(state.pending() =~= Seq::<i32>::empty());
        state
    }

    /// Whether the loop is about to wait.
    pub fn is_idle(&self) -> (idle: bool)
        ensures
            idle == (self.pending().len() == 0),
    {
        self.next >= self.ready.len()
    }

    /// The outstanding request.
    pub fn request(&self, listener: i32) -> (request: Request)
        ensures
            request == request_for(self.pending(), listener),
    {
        if self.next >= self.ready.len() {
            Request::Wait { timeout: Timeout::Indefinite }
        } else if self.ready[self.next] == listener {
            Request::Accept { listener }
        } else {
            Request::Receive { source: self.ready[self.next], capacity: RECV_MESSAGE_SIZE }
        }
    }

    /// Takes the outcome of the outstanding request, changes the registry
    /// accordingly, and answers with the effect to carry out and the next
    /// request.
    ///
    /// A descriptor that an accept returned must have room in the registry.
    pub fn step<R: Registry>(&mut self, registry: &mut R, event: Event) -> (step: Step)
        requires
            old(registry).wf(),
            old(self).wf(old(registry)),
            classify(old(self).pending(), old(registry).listener(), event) matches Transition::Admit(
                fd,
            ) ==> old(registry).admits(fd),
        ensures
            final(registry).wf(),
            final(self).wf(final(registry)),
            final(registry).listener() == old(registry).listener(),
            step.request == request_for(final(self).pending(), old(registry).listener()),
            forall|fd: i32|
                #![trigger final(registry).descriptors().contains(fd)]
                final(registry).descriptors().contains(fd) && !old(registry).descriptors().contains(
                    fd,
                ) ==> classify(old(self).pending(), old(registry).listener(), event)
                    == Transition::Admit(fd),
            match classify(old(self).pending(), old(registry).listener(), event) {
                Transition::Ignore => {
                    &&& step.effect is Nothing
                    &&& *final(registry) == *old(registry)
                    &&& final(self).pending() == old(self).pending()
                },
                Transition::Abort(errno) => {
                    &&& step.effect matches Effect::Abort { errno: reported }
                    &&& reported == errno
                    &&& *final(registry) == *old(registry)
                    &&& final(self).pending() == old(self).pending()
                },
                Transition::BeginPass => {
                    &&& step.effect is Nothing
                    &&& *final(registry) == *old(registry)
                    &&& forall|fd: i32|
                        #![trigger final(self).pending().contains(fd)]
                        #![trigger old(registry).ready_set().contains(fd)]
                        final(self).pending().contains(fd) <==> old(registry).ready_set().contains(
                            fd,
                        )
                },
                Transition::Admit(fd) => {
                    &&& step.effect is Nothing
                    &&& forall|x: i32|
                        #![trigger final(registry).descriptors().contains(x)]
                        #![trigger old(registry).descriptors().contains(x)]
                        final(registry).descriptors().contains(x) <==> (
                        old(registry).descriptors().contains(x) || x == fd)
                    &&& final(self).pending() == old(self).pending().skip(1)
                    &&& !old(registry).descriptors().contains(fd)
                        ==> !final(self).pending().contains(fd)
                },
                Transition::Skip => {
                    &&& step.effect is Nothing
                    &&& *final(registry) == *old(registry)
                    &&& final(self).pending() == old(self).pending().skip(1)
                },
                Transition::Relay(source) => {
                    &&& step.effect matches Effect::Broadcast { source: from, destinations, payload }
                    &&& from == source
                    &&& source != old(registry).listener()
                    &&& old(registry).descriptors().contains(source)
                    &&& destinations@ == excluding(
                        old(registry).descriptors(),
                        old(registry).listener(),
                        source,
                    )
                    &&& event matches Event::Received(data)
                    &&& payload@ == data@
                    &&& *final(registry) == *old(registry)
                    &&& final(self).pending() == old(self).pending().skip(1)
                },
                Transition::Evict(source) => {
                    &&& step.effect matches Effect::Close { fd }
                    &&& fd == source
                    &&& source != old(registry).listener()
                    &&& old(registry).descriptors().contains(source)
                    &&& !final(registry).descriptors().contains(source)
                    &&& !final(self).pending().contains(source)
                    &&& forall|x: i32|
                        #![trigger final(registry).descriptors().contains(x)]
                        #![trigger old(registry).descriptors().contains(x)]
                        final(registry).descriptors().contains(x) <==> (
                        old(registry).descriptors().contains(x) && x != source)
                    &&& final(self).pending() == old(self).pending().skip(1)
                },
            },
    {
        let listener = registry.listener_fd();
        let ghost before = self.pending();
        proof {
            registry.lemma_registry();
        }
        let mut effect = Effect::Nothing;
        if self.next >= self.ready.len() {
            match event {
                Event::Woken => {
                    self.ready = registry.ready();
                    self.next = 0;
                    assert(self.pending() =~= self.ready@);
                },
                Event::WaitFailed(errno) => {
                    effect = Effect::Abort { errno };
                },
                _ => {},
            }
        } else {
            let head = self.ready[self.next];
            assert(before[0] == head);
            assert(before.contains(head));
            assert(before.skip(1) =~= self.ready@.skip(self.next + 1));
            proof {
                assert forall|x: i32| #[trigger] before.skip(1).contains(x) implies before.contains(
                    x,
                ) && x != head by {
                    let k = choose|k: int| 0 <= k < before.skip(1).len() && before.skip(1)[k] == x;
                    assert(before[k + 1] == x);
                    assert(before[0] < before[k + 1]);
                }
                assert(ascending(before.skip(1)));
            }
            if head == listener {
                match event {
                    Event::Accepted(fd) => {
                        if fd >= 0 {
                            registry.insert(fd);
                        }
                        self.next = self.next + 1;
                    },
                    Event::AcceptFailed => {
                        self.next = self.next + 1;
                    },
                    _ => {},
                }
            } else {
                match event {
                    Event::Received(data) => {
                        if data.len() > 0 {
                            let destinations = registry.iter_excluding(head);
                            effect = Effect::Broadcast { source: head, destinations, payload: data };
                        } else {
                            registry.remove(head);
                            effect = Effect::Close { fd: head };
                        }
                        self.next = self.next + 1;
                    },
                    Event::ReadFailed => {
                        registry.remove(head);
                        effect = Effect::Close { fd: head };
                        self.next = self.next + 1;
                    },
                    _ => {},
                }
            }
        }
        let request = self.request(listener);
        Step { effect, request }
    }
}

/// A message goes to every registered client but its sender, to each of
/// them once, and never to the listener.
pub proof fn lemma_broadcast_destinations<R: Registry>(registry: &R, source: i32)
    requires
        registry.wf(),
    ensures
        ({
            let destinations = excluding(registry.descriptors(), registry.listener(), source);
            &&& !destinations.contains(registry.listener())
            &&& !destinations.contains(source)
            &&& destinations.no_duplicates()
            &&& forall|fd: i32|
                #![trigger destinations.contains(fd)]
                #![trigger registry.descriptors().contains(fd)]
                destinations.contains(fd) <==> (registry.descriptors().contains(fd) && fd
                    != registry.listener() && fd != source)
        }),
{
    registry.lemma_registry();
    lemma_excluding(registry.descriptors(), registry.listener(), source);
}

/// A descriptor that is not registered, such as a client that was evicted,
/// is left alone: it is not pending in the current pass, no read is asked
/// for on it, and no message goes to it, whoever sends.
pub proof fn lemma_unregistered_is_left_alone<R: Registry>(
    state: &ChatBroadcastLoop,
    registry: &R,
    fd: i32,
)
    requires
        registry.wf(),
        state.wf(registry),
        !registry.descriptors().contains(fd),
    ensures
        !state.pending().contains(fd),
        !(request_for(state.pending(), registry.listener()) matches Request::Receive {
            source,
            capacity,
        } && source == fd),
        forall|source: i32|
            !(#[trigger] excluding(registry.descriptors(), registry.listener(), source)).contains(
                fd,
            ),
{
    let pending = state.pending();
    if pending.len() > 0 {
        assert(pending.contains(pending[0]));
    }
    assert forall|source: i32|
        !(#[trigger] excluding(registry.descriptors(), registry.listener(), source)).contains(
            fd,
        ) by {
        lemma_excluding(registry.descriptors(), registry.listener(), source);
    }
}

/// A read is asked for only on a registered client, never on the listener,
/// and an accept only on the listener.
pub proof fn lemma_request_names_member<R: Registry>(state: &ChatBroadcastLoop, registry: &R)
    requires
        registry.wf(),
        state.wf(registry),
    ensures
        match request_for(state.pending(), registry.listener()) {
            Request::Wait { timeout } => state.pending().len() == 0 && timeout is Indefinite,
            Request::Accept { listener } => listener == registry.listener(),
            Request::Receive { source, capacity } => {
                &&& registry.descriptors().contains(source)
                &&& source != registry.listener()
                &&& capacity == RECV_MESSAGE_SIZE
            },
        },
{
    let pending = state.pending();
    if pending.len() > 0 {
        assert(pending.contains(pending[0]));
    }
}

} // verus!
