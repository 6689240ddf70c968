//! Setting up a socket: which call comes next, which candidate address is
//! tried, and when the setup has failed for good.
//!
//! The resolver yields a list of candidate addresses. For each in turn a
//! socket is created and, as the plan says, address reuse is switched on and
//! the socket is bound or connected. A candidate that fails is given up for
//! the next one; only the failure of the last candidate ends the setup. The
//! socket of the first candidate that gets through is put into the listening
//! state where the plan asks for it.
//!
//! The setup of the chat servers' listener is the plan `Plan::listener()`:
//! create, switch address reuse on, bind, and listen with a backlog of 10.

use vstd::prelude::*;

verus! {

/// The number of pending connections that a listener queues.
pub const BACKLOG: i32 = 10;

/// What is done about address reuse once a candidate has its socket.
#[derive(Clone, Copy, Debug, PartialEq, Eq, Structural)]
pub enum Reuse {
    /// Nothing: the option is left alone.
    Leave,
    /// It is switched on; a failure gives the candidate up for the next one.
    OrNextCandidate,
    /// It is switched on; a failure ends the setup.
    OrFail,
}

/// What the socket of a candidate is attached to.
#[derive(Clone, Copy, Debug, PartialEq, Eq, Structural)]
pub enum Attach {
    /// Nothing: the socket is used as it is.
    Nothing,
    /// It is bound to the candidate's address.
    Bind,
    /// It is connected to the candidate's address.
    Connect,
}

/// The calls that a setup makes for each candidate, and whether it ends with
/// a listen.
#[derive(Clone, Copy, Debug, PartialEq, Eq, Structural)]
pub struct Plan {
    /// What is done about address reuse.
    pub reuse: Reuse,
    /// What the socket is attached to.
    pub attach: Attach,
    /// Whether the socket is put into the listening state.
    pub listen: bool,
}

/// Why the setup failed, with the error number of the call that failed.
#[derive(Clone, Copy, Debug, PartialEq, Eq, Structural)]
pub enum SetupError {
    /// The resolver failed with this code.
    Getaddrinfo(i32),
    /// No socket could be created for the last candidate.
    Socket(i32),
    /// Address reuse could not be switched on.
    Setsockopt(i32),
    /// The socket of the last candidate could not be bound.
    Bind { fd: i32, errno: i32 },
    /// The socket of the last candidate could not be connected.
    Connect { fd: i32, errno: i32 },
    /// The socket could not be put into the listening state.
    Listen { fd: i32, errno: i32 },
}

/// Where the setup stands.
#[derive(Clone, Copy, Debug, PartialEq, Eq, Structural)]
pub enum SetupState {
    /// The resolver has been asked for the candidates.
    Resolving,
    /// A socket is being created for a candidate, one of `count`.
    Creating { candidate: usize, count: usize },
    /// Address reuse is being switched on for the candidate's socket.
    Configuring { candidate: usize, count: usize, fd: i32 },
    /// The candidate's socket is being bound or connected.
    Attaching { candidate: usize, count: usize, fd: i32 },
    /// The socket is being put into the listening state.
    Listening { fd: i32 },
    /// The socket is set up.
    Ready { fd: i32 },
    /// The setup has failed.
    Failed(SetupError),
}

/// The call that the setup is waiting for.
#[derive(Clone, Copy, Debug, PartialEq, Eq, Structural)]
pub enum SetupRequest {
    /// Resolve the address and the port into candidates.
    Resolve,
    /// Create a socket of the candidate's family and type.
    Socket { candidate: usize },
    /// Switch address reuse on for the socket.
    ReuseAddr { fd: i32 },
    /// Bind the socket to the candidate's address.
    Bind { fd: i32, candidate: usize },
    /// Connect the socket to the candidate's address.
    Connect { fd: i32, candidate: usize },
    /// Put the socket into the listening state.
    Listen { fd: i32, backlog: i32 },
    /// Nothing more: the setup is over.
    Finish,
}

/// What became of a call.
#[derive(Clone, Copy, Debug, PartialEq, Eq, Structural)]
pub enum SetupEvent {
    /// The resolver found this many candidates.
    Resolved(usize),
    /// The resolver failed with this code.
    ResolveFailed(i32),
    /// The call succeeded. For a socket that was created the value is its descriptor.
    Succeeded(i32),
    /// The call failed with this error number.
    CallFailed(i32),
}

/// The plan of the chat servers' listener: address reuse is switched on, the
/// socket is bound, and it listens.
pub open spec fn listener_plan() -> Plan {
    Plan { reuse: Reuse::OrNextCandidate, attach: Attach::Bind, listen: true }
}

/// The state once the candidate's socket `fd` is attached as the plan says.
/// With no candidate at all there is no socket, and `fd` is -1.
pub open spec fn attached(plan: Plan, fd: i32) -> SetupState {
    if plan.listen {
        SetupState::Listening { fd }
    } else {
        SetupState::Ready { fd }
    }
}

/// The state once address reuse is dealt with for the candidate's socket.
pub open spec fn configured(plan: Plan, candidate: usize, count: usize, fd: i32) -> SetupState {
    if plan.attach is Nothing {
        attached(plan, fd)
    } else {
        SetupState::Attaching { candidate, count, fd }
    }
}

/// The state once the candidate has its socket.
pub open spec fn created(plan: Plan, candidate: usize, count: usize, fd: i32) -> SetupState {
    if plan.reuse is Leave {
        configured(plan, candidate, count, fd)
    } else {
        SetupState::Configuring { candidate, count, fd }
    }
}

/// The state after the candidate has failed with `error`: the next candidate
/// if there is one, else the failure.
pub open spec fn give_up_candidate(candidate: usize, count: usize, error: SetupError)
    -> SetupState {
    if candidate + 1 < count {
        SetupState::Creating { candidate: (candidate + 1) as usize, count }
    } else {
        SetupState::Failed(error)
    }
}

/// The failure of an attach: of a connect where the plan connects, else of a bind.
pub open spec fn attach_error(plan: Plan, fd: i32, errno: i32) -> SetupError {
    if plan.attach is Connect {
        SetupError::Connect { fd, errno }
    } else {
        SetupError::Bind { fd, errno }
    }
}

/// The state that follows `state` when `event` comes in. An event that does
/// not answer the outstanding call changes nothing.
pub open spec fn next_state(plan: Plan, state: SetupState, event: SetupEvent) -> SetupState {
    match (state, event) {
        (SetupState::Resolving, SetupEvent::Resolved(count)) => if count == 0 {
            attached(plan, -1i32)
        } else {
            SetupState::Creating { candidate: 0, count }
        },
        (SetupState::Resolving, SetupEvent::ResolveFailed(code)) => SetupState::Failed(
            SetupError::Getaddrinfo(code),
        ),
        (SetupState::Creating { candidate, count }, SetupEvent::Succeeded(fd)) => created(
            plan,
            candidate,
            count,
            fd,
        ),
        (SetupState::Creating { candidate, count }, SetupEvent::CallFailed(errno)) => {
            give_up_candidate(candidate, count, SetupError::Socket(errno))
        },
        (SetupState::Configuring { candidate, count, fd }, SetupEvent::Succeeded(_)) => configured(
            plan,
            candidate,
            count,
            fd,
        ),
        (SetupState::Configuring { candidate, count, fd }, SetupEvent::CallFailed(errno)) => {
            if plan.reuse is OrFail {
                SetupState::Failed(SetupError::Setsockopt(errno))
            } else {
                give_up_candidate(candidate, count, SetupError::Setsockopt(errno))
            }
        },
        (SetupState::Attaching { candidate, count, fd }, SetupEvent::Succeeded(_)) => attached(
            plan,
            fd,
        ),
        (SetupState::Attaching { candidate, count, fd }, SetupEvent::CallFailed(errno)) => {
            give_up_candidate(candidate, count, attach_error(plan, fd, errno))
        },
        (SetupState::Listening { fd }, SetupEvent::Succeeded(_)) => SetupState::Ready { fd },
        (SetupState::Listening { fd }, SetupEvent::CallFailed(errno)) => SetupState::Failed(
            SetupError::Listen { fd, errno },
        ),
        _ => state,
    }
}

/// The call that is outstanding in `state`.
pub open spec fn request_of(plan: Plan, state: SetupState) -> SetupRequest {
    match state {
        SetupState::Resolving => SetupRequest::Resolve,
        SetupState::Creating { candidate, count } => SetupRequest::Socket { candidate },
        SetupState::Configuring { candidate, count, fd } => SetupRequest::ReuseAddr { fd },
        SetupState::Attaching { candidate, count, fd } => if plan.attach is Connect {
            SetupRequest::Connect { fd, candidate }
        } else {
            SetupRequest::Bind { fd, candidate }
        },
        SetupState::Listening { fd } => SetupRequest::Listen { fd, backlog: BACKLOG },
        SetupState::Ready { fd } => SetupRequest::Finish,
        SetupState::Failed(_) => SetupRequest::Finish,
    }
}

/// Whether `state` can come up under `plan`: it works on a candidate that
/// exists, and on a call that the plan makes.
pub open spec fn state_wf(plan: Plan, state: SetupState) -> bool {
    match state {
        SetupState::Creating { candidate, count } => candidate < count,
        SetupState::Configuring { candidate, count, fd } => candidate < count && !(plan.reuse
            is Leave),
        SetupState::Attaching { candidate, count, fd } => candidate < count && !(plan.attach
            is Nothing),
        SetupState::Listening { fd } => plan.listen,
        _ => true,
    }
}

/// The candidate that `state` works on, if it works on one, with the number
/// of candidates.
pub open spec fn candidate_of(state: SetupState) -> Option<(usize, usize)> {
    match state {
        SetupState::Creating { candidate, count } => Some((candidate, count)),
        SetupState::Configuring { candidate, count, fd } => Some((candidate, count)),
        SetupState::Attaching { candidate, count, fd } => Some((candidate, count)),
        _ => None,
    }
}

impl Plan {
    /// The plan of the chat servers' listener.
    pub fn listener() -> (plan: Self)
        ensures
            plan == listener_plan(),
    {
        Plan { reuse: Reuse::OrNextCandidate, attach: Attach::Bind, listen: true }
    }

    fn attached(&self, fd: i32) -> (next: SetupState)
        ensures
            next == attached(*self, fd),
            state_wf(*self, next),
    {
        if self.listen {
            SetupState::Listening { fd }
        } else {
            SetupState::Ready { fd }
        }
    }

    fn configured(&self, candidate: usize, count: usize, fd: i32) -> (next: SetupState)
        requires
            candidate < count,
        ensures
            next == configured(*self, candidate, count, fd),
            state_wf(*self, next),
    {
        match self.attach {
            Attach::Nothing => self.attached(fd),
            _ => SetupState::Attaching { candidate, count, fd },
        }
    }

    fn created(&self, candidate: usize, count: usize, fd: i32) -> (next: SetupState)
        requires
            candidate < count,
        ensures
            next == created(*self, candidate, count, fd),
            state_wf(*self, next),
    {
        match self.reuse {
            Reuse::Leave => self.configured(candidate, count, fd),
            _ => SetupState::Configuring { candidate, count, fd },
        }
    }

    fn attach_error(&self, fd: i32, errno: i32) -> (error: SetupError)
        ensures
            error == attach_error(*self, fd, errno),
    {
        match self.attach {
            Attach::Connect => SetupError::Connect { fd, errno },
            _ => SetupError::Bind { fd, errno },
        }
    }
}

impl SetupState {
    /// The state in which every setup starts.
    pub fn start() -> (state: Self)
        ensures
            state == SetupState::Resolving,
    {
        SetupState::Resolving
    }

    /// The call that is outstanding.
    pub fn request(&self, plan: &Plan) -> (request: SetupRequest)
        ensures
            request == request_of(*plan, *self),
    {
        match *self {
            SetupState::Resolving => SetupRequest::Resolve,
            SetupState::Creating { candidate, count } => SetupRequest::Socket { candidate },
            SetupState::Configuring { candidate, count, fd } => SetupRequest::ReuseAddr { fd },
            SetupState::Attaching { candidate, count, fd } => match plan.attach {
                Attach::Connect => SetupRequest::Connect { fd, candidate },
                _ => SetupRequest::Bind { fd, candidate },
            },
            SetupState::Listening { fd } => SetupRequest::Listen { fd, backlog: BACKLOG },
            SetupState::Ready { fd } => SetupRequest::Finish,
            SetupState::Failed(_) => SetupRequest::Finish,
        }
    }

    /// How the setup ended: the descriptor or the failure. `None` while a
    /// call is outstanding.
    pub fn outcome(&self) -> (outcome: Option<Result<i32, SetupError>>)
        ensures
            outcome == match *self {
                SetupState::Ready { fd } => Some(Ok::<i32, SetupError>(fd)),
                SetupState::Failed(error) => Some(Err::<i32, SetupError>(error)),
                _ => None,
            },
    {
        match *self {
            SetupState::Ready { fd } => Some(Ok(fd)),
            SetupState::Failed(error) => Some(Err(error)),
            _ => None,
        }
    }

    /// Whether the state can come up under the plan. Every state that
    /// `start` and `advance` yield can.
    pub fn fits(&self, plan: &Plan) -> (fits: bool)
        ensures
            fits == state_wf(*plan, *self),
    {
        match *self {
            SetupState::Creating { candidate, count } => candidate < count,
            SetupState::Configuring { candidate, count, fd } => candidate < count && match plan.reuse {
                Reuse::Leave => false,
                _ => true,
            },
            SetupState::Attaching { candidate, count, fd } => candidate < count && match plan.attach {
                Attach::Nothing => false,
                _ => true,
            },
            SetupState::Listening { fd } => plan.listen,
            _ => true,
        }
    }

    /// The state after `event`.
    pub fn advance(self, plan: &Plan, event: SetupEvent) -> (next: Self)
        requires
            state_wf(*plan, self),
        ensures
            next == next_state(*plan, self, event),
            state_wf(*plan, next),
    {
        match self {
            SetupState::Resolving => match event {
                SetupEvent::Resolved(count) => if count == 0 {
                    plan.attached(-1)
                } else {
                    SetupState::Creating { candidate: 0, count }
                },
                SetupEvent::ResolveFailed(code) => SetupState::Failed(SetupError::Getaddrinfo(code)),
                _ => self,
            },
            SetupState::Creating { candidate, count } => match event {
                SetupEvent::Succeeded(fd) => plan.created(candidate, count, fd),
                SetupEvent::CallFailed(errno) => give_up(candidate, count, SetupError::Socket(errno)),
                _ => self,
            },
            SetupState::Configuring { candidate, count, fd } => match event {
                SetupEvent::Succeeded(_) => plan.configured(candidate, count, fd),
                SetupEvent::CallFailed(errno) => match plan.reuse {
                    Reuse::OrFail => SetupState::Failed(SetupError::Setsockopt(errno)),
                    _ => give_up(candidate, count, SetupError::Setsockopt(errno)),
                },
                _ => self,
            },
            SetupState::Attaching { candidate, count, fd } => match event {
                SetupEvent::Succeeded(_) => plan.attached(fd),
                SetupEvent::CallFailed(errno) => give_up(
                    candidate,
                    count,
                    plan.attach_error(fd, errno),
                ),
                _ => self,
            },
            SetupState::Listening { fd } => match event {
                SetupEvent::Succeeded(_) => SetupState::Ready { fd },
                SetupEvent::CallFailed(errno) => SetupState::Failed(SetupError::Listen { fd, errno }),
                _ => self,
            },
            _ => self,
        }
    }
}

/// Gives the candidate up for the next one, or fails with `error` where it was the last.
fn give_up(candidate: usize, count: usize, error: SetupError) -> (next: SetupState)
    requires
        candidate < count,
    ensures
        next == give_up_candidate(candidate, count, error),
        forall|plan: Plan| state_wf(plan, next),
{
    if candidate + 1 < count {
        SetupState::Creating { candidate: candidate + 1, count }
    } else {
        SetupState::Failed(error)
    }
}

/// A candidate's failure ends the setup only where no candidate is left:
/// the setup fails on an event only if the resolver failed, if the listen
/// failed, if address reuse failed under a plan that insists on it, or if
/// the last candidate failed at one of its calls. The error names the call.
pub proof fn lemma_fails_only_when_exhausted(plan: Plan, state: SetupState, event: SetupEvent)
    requires
        state_wf(plan, state),
        !(state is Failed),
        next_state(plan, state, event) is Failed,
    ensures
        state is Resolving || state is Listening || (state is Configuring && plan.reuse is OrFail)
            || (candidate_of(state) matches Some((candidate, count)) && candidate + 1 == count),
        state is Resolving ==> next_state(plan, state, event)->Failed_0 is Getaddrinfo,
        state is Creating ==> next_state(plan, state, event)->Failed_0 is Socket,
        state is Configuring ==> next_state(plan, state, event)->Failed_0 is Setsockopt,
        state is Attaching ==> (next_state(plan, state, event)->Failed_0 is Bind) == !(plan.attach
            is Connect),
        state is Attaching ==> (next_state(plan, state, event)->Failed_0 is Connect) == (plan.attach
            is Connect),
        state is Listening ==> next_state(plan, state, event)->Failed_0 is Listen,
{
}

/// The candidates are tried in their order, none twice: an event either
/// leaves the candidate as it is or moves on to the one after it, and then
/// to its first call.
pub proof fn lemma_candidates_in_order(plan: Plan, state: SetupState, event: SetupEvent)
    requires
        state_wf(plan, state),
        candidate_of(state) is Some,
        candidate_of(next_state(plan, state, event)) is Some,
    ensures
        ({
            let (before, count) = candidate_of(state)->Some_0;
            let (after, count_after) = candidate_of(next_state(plan, state, event))->Some_0;
            &&& count_after == count
            &&& after == before || (after == before + 1 && next_state(plan, state, event)
                is Creating)
        }),
{
}

/// For the chat servers' listener the three calls of a candidate come in
/// their order, on one socket, and the listen comes on the socket that was
/// bound: a state is entered only from the state of the call before it, when
/// that call succeeded.
pub proof fn lemma_listener_stages_in_order(state: SetupState, event: SetupEvent)
    requires
        next_state(listener_plan(), state, event) != state,
    ensures
        match next_state(listener_plan(), state, event) {
            SetupState::Resolving => false,
            SetupState::Creating { candidate, count } => {
                ||| state is Resolving && event == SetupEvent::Resolved(count) && candidate == 0
                ||| candidate_of(state) == Some(((candidate - 1) as usize, count)) && candidate > 0
                    && event is CallFailed
            },
            SetupState::Configuring { candidate, count, fd } => {
                &&& state == (SetupState::Creating { candidate, count })
                &&& event == SetupEvent::Succeeded(fd)
            },
            SetupState::Attaching { candidate, count, fd } => {
                &&& state == (SetupState::Configuring { candidate, count, fd })
                &&& event is Succeeded
            },
            SetupState::Listening { fd } => {
                ||| state matches SetupState::Attaching { candidate, count, fd: bound } && bound
                    == fd && event is Succeeded
                ||| state is Resolving && event == SetupEvent::Resolved(0) && fd == -1
            },
            SetupState::Ready { fd } => state == (SetupState::Listening { fd }) && event
                is Succeeded,
            SetupState::Failed(_) => event is CallFailed || event is ResolveFailed,
        },
        request_of(listener_plan(), next_state(listener_plan(), state, event))
            matches SetupRequest::Listen { fd, backlog } ==> backlog == 10,
        request_of(listener_plan(), next_state(listener_plan(), state, event))
            matches SetupRequest::Bind { fd, candidate } ==> state matches SetupState::Configuring {
            candidate: tried,
            count,
            fd: configured,
        } && tried == candidate && configured == fd,
        !(request_of(listener_plan(), next_state(listener_plan(), state, event)) is Connect),
{
}

/// Once the setup is over, no event changes how it ended.
pub proof fn lemma_over_stays_over(plan: Plan, state: SetupState, event: SetupEvent)
    requires
        state is Ready || state is Failed,
    ensures
        next_state(plan, state, event) == state,
{
}

} // verus!
