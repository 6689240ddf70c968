use bjrs::addr::{try_into_ip_addr, IpAddr, AF_INET, AF_INET6};
use bjrs::cli::{Cli, DgramCommand, Example, StreamCommand, SyscallCommand, TechniquesCommand};
use bjrs::setup::{
    Attach, Plan, Reuse, SetupError, SetupEvent, SetupRequest, SetupState, BACKLOG,
};
use bjrs::timeout::Timeout;

fn run_plan(plan: &Plan, events: &[SetupEvent]) -> SetupState {
    let mut state = SetupState::start();
    for event in events {
        assert!(state.fits(plan));
        state = state.advance(plan, *event);
    }
    assert!(state.fits(plan));
    state
}

fn run(events: &[SetupEvent]) -> SetupState {
    run_plan(&Plan::listener(), events)
}

#[test]
fn setup_binds_the_first_candidate() {
    let mut state = SetupState::start();
    assert_eq!(state.request(&Plan::listener()), SetupRequest::Resolve);
    assert_eq!(state.outcome(), None);
    state = state.advance(&Plan::listener(), SetupEvent::Resolved(2));
    assert_eq!(state.request(&Plan::listener()), SetupRequest::Socket { candidate: 0 });
    state = state.advance(&Plan::listener(), SetupEvent::Succeeded(3));
    assert_eq!(state.request(&Plan::listener()), SetupRequest::ReuseAddr { fd: 3 });
    state = state.advance(&Plan::listener(), SetupEvent::Succeeded(0));
    assert_eq!(state.request(&Plan::listener()), SetupRequest::Bind { fd: 3, candidate: 0 });
    state = state.advance(&Plan::listener(), SetupEvent::Succeeded(0));
    assert_eq!(state.request(&Plan::listener()), SetupRequest::Listen { fd: 3, backlog: 10 });
    assert_eq!(BACKLOG, 10);
    assert_eq!(state.outcome(), None);
    state = state.advance(&Plan::listener(), SetupEvent::Succeeded(0));
    assert_eq!(state, SetupState::Ready { fd: 3 });
    assert_eq!(state.request(&Plan::listener()), SetupRequest::Finish);
    assert_eq!(state.outcome(), Some(Ok(3)));
}

#[test]
fn setup_moves_on_to_the_next_candidate() {
    let state = run(&[
        SetupEvent::Resolved(3),
        SetupEvent::CallFailed(97),
        SetupEvent::Succeeded(4),
        SetupEvent::CallFailed(22),
    ]);
    assert_eq!(state, SetupState::Creating { candidate: 2, count: 3 });
    let state = state.advance(&Plan::listener(), SetupEvent::Succeeded(5)).advance(&Plan::listener(), SetupEvent::Succeeded(0));
    assert_eq!(state.request(&Plan::listener()), SetupRequest::Bind { fd: 5, candidate: 2 });
    let state = state.advance(&Plan::listener(), SetupEvent::Succeeded(0)).advance(&Plan::listener(), SetupEvent::Succeeded(0));
    assert_eq!(state.outcome(), Some(Ok(5)));
}

#[test]
fn setup_fails_when_the_resolver_fails() {
    let state = run(&[SetupEvent::ResolveFailed(-2)]);
    assert_eq!(state.outcome(), Some(Err(SetupError::Getaddrinfo(-2))));
    assert_eq!(state.request(&Plan::listener()), SetupRequest::Finish);
}

#[test]
fn setup_fails_with_the_stage_of_the_last_candidate() {
    let state = run(&[SetupEvent::Resolved(1), SetupEvent::CallFailed(24)]);
    assert_eq!(state.outcome(), Some(Err(SetupError::Socket(24))));

    let state =
        run(&[SetupEvent::Resolved(1), SetupEvent::Succeeded(3), SetupEvent::CallFailed(92)]);
    assert_eq!(state.outcome(), Some(Err(SetupError::Setsockopt(92))));

    let state = run(&[
        SetupEvent::Resolved(2),
        SetupEvent::CallFailed(24),
        SetupEvent::Succeeded(3),
        SetupEvent::Succeeded(0),
        SetupEvent::CallFailed(98),
    ]);
    assert_eq!(state.outcome(), Some(Err(SetupError::Bind { fd: 3, errno: 98 })));

    let state = run(&[
        SetupEvent::Resolved(1),
        SetupEvent::Succeeded(3),
        SetupEvent::Succeeded(0),
        SetupEvent::Succeeded(0),
        SetupEvent::CallFailed(98),
    ]);
    assert_eq!(state.outcome(), Some(Err(SetupError::Listen { fd: 3, errno: 98 })));
}

#[test]
fn setup_without_candidates_asks_for_a_listen_that_fails() {
    let state = run(&[SetupEvent::Resolved(0)]);
    assert_eq!(state.request(&Plan::listener()), SetupRequest::Listen { fd: -1, backlog: 10 });
    let state = state.advance(&Plan::listener(), SetupEvent::CallFailed(9));
    assert_eq!(state.outcome(), Some(Err(SetupError::Listen { fd: -1, errno: 9 })));
}

#[test]
fn setup_ignores_events_that_answer_nothing() {
    let state = run(&[SetupEvent::Succeeded(3)]);
    assert_eq!(state, SetupState::Resolving);
    let state = run(&[SetupEvent::Resolved(2), SetupEvent::Resolved(5)]);
    assert_eq!(state, SetupState::Creating { candidate: 0, count: 2 });
    let done = SetupState::Ready { fd: 3 };
    assert_eq!(done.advance(&Plan::listener(), SetupEvent::CallFailed(1)), done);
    let failed = SetupState::Failed(SetupError::Socket(1));
    assert_eq!(failed.advance(&Plan::listener(), SetupEvent::Succeeded(1)), failed);
}

#[test]
fn peer_address_of_an_ipv4_socket() {
    assert_eq!(try_into_ip_addr(AF_INET, &[127, 0, 0, 1]), Some(IpAddr::V4(0x7f00_0001)));
    assert_eq!(
        try_into_ip_addr(AF_INET, &[192, 168, 1, 255, 9, 9]),
        Some(IpAddr::V4(0xc0a8_01ff))
    );
    assert_eq!(try_into_ip_addr(AF_INET, &[255, 255, 255, 255]), Some(IpAddr::V4(u32::MAX)));
    assert_eq!(try_into_ip_addr(AF_INET, &[10, 0, 0]), None);
}

#[test]
fn peer_address_of_an_ipv6_socket() {
    let mut raw = [0u8; 16];
    raw[15] = 1;
    assert_eq!(try_into_ip_addr(AF_INET6, &raw), Some(IpAddr::V6(1)));
    raw[0] = 0x20;
    raw[1] = 0x01;
    raw[2] = 0x0d;
    raw[3] = 0xb8;
    assert_eq!(
        try_into_ip_addr(AF_INET6, &raw),
        Some(IpAddr::V6(0x2001_0db8_0000_0000_0000_0000_0000_0001))
    );
    assert_eq!(try_into_ip_addr(AF_INET6, &[0xff; 16]), Some(IpAddr::V6(u128::MAX)));
    assert_eq!(try_into_ip_addr(AF_INET6, &[0; 15]), None);
    assert_eq!(try_into_ip_addr(AF_INET6, &[127, 0, 0, 1]), None);
}

#[test]
fn peer_address_of_another_family() {
    assert_eq!(try_into_ip_addr(1, &[127, 0, 0, 1]), None);
    assert_eq!(try_into_ip_addr(0, &[0; 16]), None);
    assert_eq!((AF_INET, AF_INET6), (2, 10));
}

#[test]
fn timeout_as_poll_millis() {
    assert_eq!(Timeout::Indefinite.as_poll_millis(), -1);
    assert_eq!(Timeout::Millis(0).as_poll_millis(), 0);
    assert_eq!(Timeout::Millis(2500).as_poll_millis(), 2500);
    assert_eq!(Timeout::Millis(i32::MAX as u32).as_poll_millis(), i32::MAX);
    assert_eq!(Timeout::Millis(u32::MAX).as_poll_millis(), i32::MAX);
}

#[test]
fn timeout_as_timeval() {
    assert_eq!(Timeout::Indefinite.as_timeval(), None);
    assert_eq!(Timeout::Millis(2500).as_timeval(), Some((2, 500_000)));
    assert_eq!(Timeout::Millis(0).as_timeval(), Some((0, 0)));
    assert_eq!(Timeout::Millis(999).as_timeval(), Some((0, 999_000)));
    assert_eq!(Timeout::Millis(u32::MAX).as_timeval(), Some((4_294_967, 295_000)));
}

#[test]
fn command_line_names_its_example() {
    let cli = Cli::new(Example::Techniques { cmd: TechniquesCommand::Pollserver });
    assert_eq!(cli.into_example(), Example::Techniques { cmd: TechniquesCommand::Pollserver });
    let cli = Cli::new(Example::Stream { cmd: StreamCommand::Client });
    assert_eq!(cli.into_example(), Example::Stream { cmd: StreamCommand::Client });
    let cli = Cli::new(Example::Dgram { cmd: DgramCommand::Server });
    assert_eq!(cli.clone().into_example(), Example::Dgram { cmd: DgramCommand::Server });
    let cli = Cli::new(Example::Syscall { cmd: SyscallCommand::Bind { reuse_port: true } });
    assert_ne!(
        cli.into_example(),
        Example::Syscall { cmd: SyscallCommand::Bind { reuse_port: false } }
    );
}

#[test]
fn listener_plan_reuses_binds_and_listens() {
    assert_eq!(
        Plan::listener(),
        Plan { reuse: Reuse::OrNextCandidate, attach: Attach::Bind, listen: true }
    );
}

#[test]
fn plan_that_insists_on_reuse_fails_at_once() {
    let plan = Plan { reuse: Reuse::OrFail, attach: Attach::Bind, listen: true };
    let state = run_plan(
        &plan,
        &[SetupEvent::Resolved(3), SetupEvent::Succeeded(4), SetupEvent::CallFailed(92)],
    );
    assert_eq!(state.outcome(), Some(Err(SetupError::Setsockopt(92))));
    let state = run_plan(
        &plan,
        &[SetupEvent::Resolved(3), SetupEvent::Succeeded(4), SetupEvent::Succeeded(0)],
    );
    assert_eq!(state.request(&plan), SetupRequest::Bind { fd: 4, candidate: 0 });
    let state = state.advance(&plan, SetupEvent::CallFailed(98));
    assert_eq!(state, SetupState::Creating { candidate: 1, count: 3 });
}

#[test]
fn plan_that_connects_is_ready_once_connected() {
    let plan = Plan { reuse: Reuse::Leave, attach: Attach::Connect, listen: false };
    let state = run_plan(&plan, &[SetupEvent::Resolved(2), SetupEvent::Succeeded(4)]);
    assert_eq!(state.request(&plan), SetupRequest::Connect { fd: 4, candidate: 0 });
    let state = state.advance(&plan, SetupEvent::CallFailed(111));
    assert_eq!(state.request(&plan), SetupRequest::Socket { candidate: 1 });
    let state = state.advance(&plan, SetupEvent::Succeeded(5));
    assert_eq!(state.request(&plan), SetupRequest::Connect { fd: 5, candidate: 1 });
    let failed = state.advance(&plan, SetupEvent::CallFailed(111));
    assert_eq!(failed.outcome(), Some(Err(SetupError::Connect { fd: 5, errno: 111 })));
    let ready = state.advance(&plan, SetupEvent::Succeeded(0));
    assert_eq!(ready.outcome(), Some(Ok(5)));
    assert_eq!(ready.request(&plan), SetupRequest::Finish);
}

#[test]
fn plan_that_binds_without_listening() {
    let plan = Plan { reuse: Reuse::Leave, attach: Attach::Bind, listen: false };
    let state = run_plan(&plan, &[SetupEvent::Resolved(1), SetupEvent::Succeeded(4)]);
    assert_eq!(state.request(&plan), SetupRequest::Bind { fd: 4, candidate: 0 });
    assert_eq!(state.advance(&plan, SetupEvent::Succeeded(0)).outcome(), Some(Ok(4)));
    assert_eq!(
        state.advance(&plan, SetupEvent::CallFailed(98)).outcome(),
        Some(Err(SetupError::Bind { fd: 4, errno: 98 }))
    );
}

#[test]
fn plan_that_only_creates_a_socket() {
    let plan = Plan { reuse: Reuse::Leave, attach: Attach::Nothing, listen: false };
    let state = run_plan(
        &plan,
        &[SetupEvent::Resolved(2), SetupEvent::CallFailed(97), SetupEvent::Succeeded(6)],
    );
    assert_eq!(state.outcome(), Some(Ok(6)));
    let state = run_plan(&plan, &[SetupEvent::Resolved(0)]);
    assert_eq!(state.outcome(), Some(Ok(-1)));
}

#[test]
fn state_that_the_plan_does_not_know_does_not_fit() {
    let plan = Plan { reuse: Reuse::Leave, attach: Attach::Nothing, listen: false };
    assert!(!SetupState::Configuring { candidate: 0, count: 1, fd: 3 }.fits(&plan));
    assert!(!SetupState::Attaching { candidate: 0, count: 1, fd: 3 }.fits(&plan));
    assert!(!SetupState::Listening { fd: 3 }.fits(&plan));
    assert!(!SetupState::Creating { candidate: 1, count: 1 }.fits(&plan));
    assert!(SetupState::Creating { candidate: 0, count: 1 }.fits(&plan));
    assert!(SetupState::Listening { fd: 3 }.fits(&Plan::listener()));
    assert!(SetupState::Ready { fd: 3 }.fits(&plan));
}
