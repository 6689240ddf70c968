use bjrs::chat::{ChatBroadcastLoop, Effect, Event, Request, Step, RECV_MESSAGE_SIZE};
use bjrs::fdmask::FdMask;
use bjrs::pollserver::{Pfds, POLLHUP, POLLIN};
use bjrs::registry::Registry;
use bjrs::selectserver::FdSet;
use bjrs::timeout::Timeout;

const WAIT: Request = Request::Wait { timeout: Timeout::Indefinite };

fn mark_ready_poll(pfds: &mut Pfds, ready: &[i32]) {
    let revents: Vec<i16> =
        pfds.iter().iter().map(|e| if ready.contains(&e.fd) { POLLIN } else { 0 }).collect();
    pfds.record_events(&revents);
}

fn mark_ready_select(fds: &mut FdSet, ready: &[i32]) {
    let working = fds.as_mut();
    let mut result = FdMask::zero();
    for fd in ready {
        if working.is_set(*fd) {
            result.set(*fd);
        }
    }
    *working = result;
}

fn assert_nothing(step: &Step) {
    assert!(matches!(step.effect, Effect::Nothing));
}

fn assert_broadcast(step: &Step, from: i32, to: &[i32], bytes: &[u8]) {
    match &step.effect {
        Effect::Broadcast { source, destinations, payload } => {
            assert_eq!(*source, from);
            let mut got = destinations.clone();
            got.sort();
            assert_eq!(got, to.to_vec());
            assert_eq!(payload.as_slice(), bytes);
        }
        other => panic!("expected a broadcast, got {:?}", other),
    }
}

fn assert_close(step: &Step, closed: i32) {
    match &step.effect {
        Effect::Close { fd } => assert_eq!(*fd, closed),
        other => panic!("expected a close, got {:?}", other),
    }
}

fn connect<R: Registry>(
    chat: &mut ChatBroadcastLoop,
    registry: &mut R,
    mark: fn(&mut R, &[i32]),
    listener: i32,
    client: i32,
) {
    assert_eq!(chat.request(listener), WAIT);
    mark(registry, &[listener]);
    let step = chat.step(registry, Event::Woken);
    assert_nothing(&step);
    assert_eq!(step.request, Request::Accept { listener });
    let step = chat.step(registry, Event::Accepted(client));
    assert_nothing(&step);
    assert_eq!(step.request, WAIT);
    assert!(registry.contains(client));
}

fn scenario_three_clients<R: Registry>(mut registry: R, mark: fn(&mut R, &[i32])) {
    let listener = registry.listener_fd();
    let (a, b, c) = (listener + 1, listener + 2, listener + 3);
    let mut chat = ChatBroadcastLoop::new();
    for client in [a, b, c] {
        connect(&mut chat, &mut registry, mark, listener, client);
    }

    mark(&mut registry, &[a]);
    let step = chat.step(&mut registry, Event::Woken);
    assert_nothing(&step);
    assert_eq!(step.request, Request::Receive { source: a, capacity: 256 });
    let step = chat.step(&mut registry, Event::Received(b"hi".to_vec()));
    assert_broadcast(&step, a, &[b, c], b"hi");
    assert_eq!(step.request, WAIT);

    mark(&mut registry, &[b]);
    let step = chat.step(&mut registry, Event::Woken);
    assert_eq!(step.request, Request::Receive { source: b, capacity: 256 });
    let step = chat.step(&mut registry, Event::Received(Vec::new()));
    assert_close(&step, b);
    assert_eq!(step.request, WAIT);
    assert!(!registry.contains(b));
    let mut left = registry.iter_all();
    left.sort();
    assert_eq!(left, vec![listener, a, c]);

    mark(&mut registry, &[a]);
    chat.step(&mut registry, Event::Woken);
    let step = chat.step(&mut registry, Event::Received(b"again".to_vec()));
    assert_broadcast(&step, a, &[c], b"again");
    assert_eq!(step.request, WAIT);
}

#[test]
fn idle_server_waits_without_timeout() {
    let mut pfds = Pfds::new(3);
    let mut chat = ChatBroadcastLoop::new();
    assert!(chat.is_idle());
    assert_eq!(chat.request(3), WAIT);
    mark_ready_poll(&mut pfds, &[]);
    let step = chat.step(&mut pfds, Event::Woken);
    assert_nothing(&step);
    assert_eq!(step.request, WAIT);
    assert!(chat.is_idle());
    assert_eq!(Timeout::Indefinite.as_poll_millis(), -1);
    assert_eq!(Timeout::Indefinite.as_timeval(), None);
}

#[test]
fn idle_select_server_waits_without_timeout() {
    let mut fds = FdSet::new(3);
    let mut chat = ChatBroadcastLoop::new();
    assert_eq!(chat.request(3), WAIT);
    mark_ready_select(&mut fds, &[]);
    let step = chat.step(&mut fds, Event::Woken);
    assert_nothing(&step);
    assert_eq!(step.request, WAIT);
}

#[test]
fn message_reaches_everyone_but_the_sender_poll() {
    scenario_three_clients(Pfds::new(3), mark_ready_poll);
}

#[test]
fn message_reaches_everyone_but_the_sender_select() {
    scenario_three_clients(FdSet::new(3), mark_ready_select);
}

#[test]
fn five_clients_are_accepted_before_any_is_read() {
    let mut pfds = Pfds::new(3);
    let mut chat = ChatBroadcastLoop::new();
    for client in 4..9 {
        mark_ready_poll(&mut pfds, &[3]);
        let step = chat.step(&mut pfds, Event::Woken);
        assert_eq!(step.request, Request::Accept { listener: 3 });
        let step = chat.step(&mut pfds, Event::Accepted(client));
        assert_nothing(&step);
        assert_eq!(step.request, WAIT);
    }
    assert_eq!(pfds.iter_all(), vec![3, 4, 5, 6, 7, 8]);
    assert!(chat.is_idle());
}

#[test]
fn accepted_client_is_not_read_in_the_same_pass() {
    let mut fds = FdSet::new(3);
    let mut chat = ChatBroadcastLoop::new();
    connect(&mut chat, &mut fds, mark_ready_select, 3, 6);
    mark_ready_select(&mut fds, &[3, 6]);
    let step = chat.step(&mut fds, Event::Woken);
    assert_eq!(step.request, Request::Accept { listener: 3 });
    let step = chat.step(&mut fds, Event::Accepted(4));
    assert_eq!(step.request, Request::Receive { source: 6, capacity: RECV_MESSAGE_SIZE });
    let step = chat.step(&mut fds, Event::Received(vec![1, 2, 3]));
    assert_broadcast(&step, 6, &[4], &[1, 2, 3]);
    assert_eq!(step.request, WAIT);
}

#[test]
fn ready_descriptors_are_handled_in_ascending_order() {
    let mut pfds = Pfds::new(5);
    let mut chat = ChatBroadcastLoop::new();
    for client in [9, 2, 7] {
        connect(&mut chat, &mut pfds, mark_ready_poll, 5, client);
    }
    mark_ready_poll(&mut pfds, &[9, 5, 2, 7]);
    let step = chat.step(&mut pfds, Event::Woken);
    assert_eq!(step.request, Request::Receive { source: 2, capacity: 256 });
    let step = chat.step(&mut pfds, Event::Received(vec![b'x']));
    assert_broadcast(&step, 2, &[7, 9], b"x");
    assert_eq!(step.request, Request::Accept { listener: 5 });
    let step = chat.step(&mut pfds, Event::AcceptFailed);
    assert_nothing(&step);
    assert_eq!(step.request, Request::Receive { source: 7, capacity: 256 });
    let step = chat.step(&mut pfds, Event::ReadFailed);
    assert_close(&step, 7);
    assert_eq!(step.request, Request::Receive { source: 9, capacity: 256 });
    let step = chat.step(&mut pfds, Event::Received(vec![b'y']));
    assert_broadcast(&step, 9, &[2], b"y");
    assert_eq!(step.request, WAIT);
    assert!(chat.is_idle());
}

#[test]
fn failed_accept_registers_nothing() {
    let mut pfds = Pfds::new(3);
    let mut chat = ChatBroadcastLoop::new();
    mark_ready_poll(&mut pfds, &[3]);
    chat.step(&mut pfds, Event::Woken);
    let step = chat.step(&mut pfds, Event::Accepted(-1));
    assert_nothing(&step);
    assert_eq!(step.request, WAIT);
    assert_eq!(pfds.iter_all(), vec![3]);
    mark_ready_poll(&mut pfds, &[3]);
    chat.step(&mut pfds, Event::Woken);
    let step = chat.step(&mut pfds, Event::AcceptFailed);
    assert_nothing(&step);
    assert_eq!(step.request, WAIT);
    assert_eq!(pfds.iter_all(), vec![3]);
}

#[test]
fn hung_up_client_is_evicted() {
    let mut pfds = Pfds::new(3);
    let mut chat = ChatBroadcastLoop::new();
    connect(&mut chat, &mut pfds, mark_ready_poll, 3, 4);
    connect(&mut chat, &mut pfds, mark_ready_poll, 3, 5);
    let revents: Vec<i16> =
        pfds.iter().iter().map(|e| if e.fd == 4 { POLLHUP } else { 0 }).collect();
    pfds.record_events(&revents);
    let step = chat.step(&mut pfds, Event::Woken);
    assert_eq!(step.request, Request::Receive { source: 4, capacity: 256 });
    let step = chat.step(&mut pfds, Event::Received(vec![]));
    assert_close(&step, 4);
    assert!(!pfds.contains(4));
    mark_ready_poll(&mut pfds, &[4, 5]);
    let step = chat.step(&mut pfds, Event::Woken);
    assert_eq!(step.request, Request::Receive { source: 5, capacity: 256 });
    let step = chat.step(&mut pfds, Event::Received(vec![7; 256]));
    assert_broadcast(&step, 5, &[], &[7; 256]);
}

#[test]
fn event_that_answers_nothing_is_ignored() {
    let mut pfds = Pfds::new(3);
    let mut chat = ChatBroadcastLoop::new();
    let step = chat.step(&mut pfds, Event::Accepted(9));
    assert_nothing(&step);
    assert_eq!(step.request, WAIT);
    assert_eq!(pfds.iter_all(), vec![3]);
    let step = chat.step(&mut pfds, Event::Received(vec![1]));
    assert_nothing(&step);
    let step = chat.step(&mut pfds, Event::ReadFailed);
    assert_nothing(&step);

    connect(&mut chat, &mut pfds, mark_ready_poll, 3, 4);
    mark_ready_poll(&mut pfds, &[3, 4]);
    let step = chat.step(&mut pfds, Event::Woken);
    assert_eq!(step.request, Request::Accept { listener: 3 });
    let step = chat.step(&mut pfds, Event::Received(vec![1]));
    assert_nothing(&step);
    assert_eq!(step.request, Request::Accept { listener: 3 });
    let step = chat.step(&mut pfds, Event::Woken);
    assert_eq!(step.request, Request::Accept { listener: 3 });
    let step = chat.step(&mut pfds, Event::AcceptFailed);
    assert_eq!(step.request, Request::Receive { source: 4, capacity: 256 });
    let step = chat.step(&mut pfds, Event::Accepted(8));
    assert_nothing(&step);
    assert_eq!(step.request, Request::Receive { source: 4, capacity: 256 });
    assert_eq!(pfds.iter_all(), vec![3, 4]);
}

#[test]
fn listener_is_never_a_destination() {
    let mut fds = FdSet::new(5);
    let mut chat = ChatBroadcastLoop::new();
    for client in [1, 2, 8] {
        connect(&mut chat, &mut fds, mark_ready_select, 5, client);
    }
    for source in [1, 2, 8] {
        mark_ready_select(&mut fds, &[source]);
        chat.step(&mut fds, Event::Woken);
        let step = chat.step(&mut fds, Event::Received(vec![0]));
        match step.effect {
            Effect::Broadcast { destinations, .. } => {
                assert!(!destinations.contains(&5));
                assert!(!destinations.contains(&source));
                assert_eq!(destinations.len(), 2);
            }
            other => panic!("expected a broadcast, got {:?}", other),
        }
    }
}
