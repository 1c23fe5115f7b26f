//! The SSH session state machine and the tunnel orchestration rules.
//!
//! A session is `Created`, becomes `Handshaken` after the protocol handshake
//! (which runs at most once), and `Authenticated` after a successful user
//! authentication; no forwarding operation is available earlier. The tunnel
//! pairs an authenticated session with a remote forward port and a local
//! target port, and its accept loop survives transient accept failures: only
//! a session-fatal error ends the sequence of accepted channels.

use vstd::prelude::*;

verus! {

/// The lifecycle states of an SSH session.
#[derive(Clone, Copy, PartialEq, Eq, Structural, Debug)]
pub enum SessionState {
    /// Fresh transport: the protocol handshake has not run.
    Created,
    /// Handshake done; the session is shareable but not yet authenticated.
    Handshaken,
    /// User authentication succeeded; forwarding operations are available.
    Authenticated,
}

/// The session's protocol state. State changes go only through the methods
/// here, so a handshake runs at most once and nothing authenticates or
/// forwards out of order.
pub struct SessionModel {
    state: SessionState,
}

/// Why a session operation was refused.
#[derive(Clone, Copy, PartialEq, Eq, Structural, Debug)]
pub enum SessionError {
    /// The server rejected the offered credentials.
    AuthRejected,
}

/// A negotiated remote port forward: the listener is bound to the port the
/// server actually granted, which may differ from the requested one when
/// port zero was requested.
pub struct ListenerModel {
    pub port: u16,
}

impl View for SessionModel {
    type V = SessionState;

    closed spec fn view(&self) -> SessionState {
        self.state
    }
}

impl SessionModel {
    /// A session over a fresh transport.
    pub fn new() -> (r: SessionModel)
        ensures
            r@ == SessionState::Created,
    {
        SessionModel { state: SessionState::Created }
    }

    /// Records the completed protocol handshake. It needs exclusive access
    /// and a fresh session, so the handshake runs at most once.
    pub fn complete_handshake(&mut self)
        requires
            old(self)@ == SessionState::Created,
        ensures
            final(self)@ == SessionState::Handshaken,
    {
        self.state = SessionState::Handshaken;
    }

    /// Records the outcome of user authentication against a handshaken
    /// session: acceptance makes the session authenticated, rejection is an
    /// error and leaves the state unchanged.
    pub fn complete_auth(&mut self, accepted: bool) -> (r: Result<(), SessionError>)
        requires
            old(self)@ == SessionState::Handshaken,
        ensures
            accepted ==> final(self)@ == SessionState::Authenticated && r == Ok::<
                (),
                SessionError,
            >(()),
            !accepted ==> final(self)@ == SessionState::Handshaken && r == Err::<
                (),
                SessionError,
            >(SessionError::AuthRejected),
    {
        if accepted {
            self.state = SessionState::Authenticated;
            Ok(())
        } else {
            Err(SessionError::AuthRejected)
        }
    }

    /// Whether the session is authenticated.
    pub fn authenticated(&self) -> (r: bool)
        ensures
            r == (self@ == SessionState::Authenticated),
    {
        match self.state {
            SessionState::Authenticated => true,
            _ => false,
        }
    }

    /// Binds a remote port forward on an authenticated session, at the port
    /// the server granted.
    pub fn open_forward_listener(&self, granted_port: u16) -> (r: ListenerModel)
        requires
            self@ == SessionState::Authenticated,
        ensures
            r.port == granted_port,
    {
        ListenerModel { port: granted_port }
    }
}

/// What one accept attempt on the forward listener produced.
#[derive(Clone, Copy, PartialEq, Eq, Structural, Debug)]
pub enum AcceptOutcome {
    /// A forwarded channel arrived.
    Accepted,
    /// This accept failed, but the session is healthy; the next accept may
    /// succeed.
    TransientError(i32),
    /// The session itself failed; no further channel can arrive.
    SessionFatal(i32),
}

/// What the tunnel's accept loop does next.
#[derive(Clone, Copy, PartialEq, Eq, Structural, Debug)]
pub enum TunnelStep {
    /// Dial the local target for the accepted channel.
    DialLocal,
    /// Log the transient failure and keep accepting.
    ContinueListening,
    /// Stop the tunnel: the session is gone.
    StopTunnel(i32),
}

/// What happens to one accepted channel after the local dial.
#[derive(Clone, Copy, PartialEq, Eq, Structural, Debug)]
pub enum DialStep {
    /// Splice the channel and the local socket in a task of its own.
    Splice,
    /// Abandon this one connection; the accept loop is unaffected.
    AbandonConnection(i32),
}

/// One accept-loop decision: an accepted channel is dialed, a transient
/// failure is survived, and only a session-fatal error stops the tunnel.
pub fn tunnel_accept_step(outcome: AcceptOutcome) -> (r: TunnelStep)
    ensures
        r == (match outcome {
            AcceptOutcome::Accepted => TunnelStep::DialLocal,
            AcceptOutcome::TransientError(_) => TunnelStep::ContinueListening,
            AcceptOutcome::SessionFatal(e) => TunnelStep::StopTunnel(e),
        }),
{
    match outcome {
        AcceptOutcome::Accepted => TunnelStep::DialLocal,
        AcceptOutcome::TransientError(_) => TunnelStep::ContinueListening,
        AcceptOutcome::SessionFatal(e) => TunnelStep::StopTunnel(e),
    }
}

/// One dial decision: a reachable local target starts the splice; an
/// unreachable one loses only this connection, never the loop.
pub fn tunnel_dial_step(dial: Result<(), i32>) -> (r: DialStep)
    ensures
        r == (match dial {
            Ok(_) => DialStep::Splice,
            Err(e) => DialStep::AbandonConnection(e),
        }),
{
    match dial {
        Ok(_) => DialStep::Splice,
        Err(e) => DialStep::AbandonConnection(e),
    }
}

/// How many channels the loop accepts before the first session-fatal error.
pub open spec fn accepted_before_fatal(outcomes: Seq<AcceptOutcome>) -> int
    decreases outcomes.len(),
{
    if outcomes.len() == 0 {
        0
    } else {
        match outcomes[0] {
            AcceptOutcome::Accepted => 1 + accepted_before_fatal(outcomes.skip(1)),
            AcceptOutcome::TransientError(_) => accepted_before_fatal(outcomes.skip(1)),
            AcceptOutcome::SessionFatal(_) => 0,
        }
    }
}

/// The error that stops the loop, if any outcome is session-fatal before the
/// sequence ends.
pub open spec fn first_fatal(outcomes: Seq<AcceptOutcome>) -> Option<i32>
    decreases outcomes.len(),
{
    if outcomes.len() == 0 {
        None
    } else {
        match outcomes[0] {
            AcceptOutcome::SessionFatal(e) => Some(e),
            _ => first_fatal(outcomes.skip(1)),
        }
    }
}

pub proof fn lemma_accepted_before_fatal_bound(outcomes: Seq<AcceptOutcome>)
    ensures
        0 <= accepted_before_fatal(outcomes) <= outcomes.len(),
    decreases outcomes.len(),
{
    if outcomes.len() > 0 {
        lemma_accepted_before_fatal_bound(outcomes.skip(1));
    }
}

/// An accept failure does not terminate subsequent accepts: the loop
/// dispatches every accepted channel that arrives before a session-fatal
/// error, however many transient failures come between them, and it stops
/// only on the first session-fatal error.
#[verifier::loop_isolation(false)]
pub fn run_accept_loop(outcomes: &Vec<AcceptOutcome>) -> (r: (usize, Option<i32>))
    ensures
        r.0 == accepted_before_fatal(outcomes@),
        r.1 == first_fatal(outcomes@),
{
    let mut dispatched: usize = 0;
    let mut i: usize = 0;
    assert(outcomes@.skip(0) =~= outcomes@);
    while i < outcomes.len()
        invariant
            0 <= i <= outcomes@.len(),
            accepted_before_fatal(outcomes@) == dispatched + accepted_before_fatal(
                outcomes@.skip(i as int),
            ),
            first_fatal(outcomes@) == first_fatal(outcomes@.skip(i as int)),
            dispatched <= i,
        decreases outcomes@.len() - i,
    {
        let ghost tail = outcomes@.skip(i as int);
        assert(tail[0] == outcomes@[i as int]);
        assert(tail.skip(1) =~= outcomes@.skip(i + 1));
        proof {
            lemma_accepted_before_fatal_bound(outcomes@.skip(i + 1));
        }
        match tunnel_accept_step(outcomes[i]) {
            TunnelStep::DialLocal => {
                dispatched += 1;
            },
            TunnelStep::ContinueListening => {},
            TunnelStep::StopTunnel(e) => {
                return (dispatched, Some(e));
            },
        }
        i += 1;
    }
    assert(outcomes@.skip(outcomes@.len() as int) =~= Seq::<AcceptOutcome>::empty());
    (dispatched, None)
}

/// A run free of session-fatal errors never stops the tunnel, whatever
/// transient failures it holds.
pub proof fn lemma_transient_failures_survived(outcomes: Seq<AcceptOutcome>)
    requires
        forall|k: int| 0 <= k < outcomes.len() ==> !(outcomes[k] is SessionFatal),
    ensures
        first_fatal(outcomes) is None,
    decreases outcomes.len(),
{
    if outcomes.len() > 0 {
        assert(forall|k: int|
            0 <= k < outcomes.skip(1).len() ==> outcomes.skip(1)[k] == outcomes[k + 1]);
        lemma_transient_failures_survived(outcomes.skip(1));
    }
}

/// A persistent tunnel: an authenticated session, the remote port the
/// forward listens on, and the local port each forwarded channel is dialed
/// to.
pub struct Tunnel {
    client_port: u16,
    server_port: u16,
    session: SessionModel,
}

impl Tunnel {
    /// The local port each forwarded channel is dialed to.
    pub closed spec fn spec_client_port(&self) -> u16 {
        self.client_port
    }

    /// The remote port the forward listens on.
    pub closed spec fn spec_server_port(&self) -> u16 {
        self.server_port
    }

    /// Pairs an authenticated session with the two ports. A session that has
    /// not completed handshake and authentication cannot form a tunnel.
    pub fn new(client_port: u16, server_port: u16, session: SessionModel) -> (r: Tunnel)
        requires
            session@ == SessionState::Authenticated,
        ensures
            r.spec_client_port() == client_port,
            r.spec_server_port() == server_port,
            r.session_authenticated(),
    {
        Tunnel { client_port, server_port, session }
    }

    /// Whether the tunnel's session is authenticated; true for every tunnel
    /// by construction.
    pub closed spec fn session_authenticated(&self) -> bool {
        self.session@ == SessionState::Authenticated
    }

    /// The local port each forwarded channel is dialed to.
    pub fn client_port(&self) -> (r: u16)
        ensures
            r == self.spec_client_port(),
    {
        self.client_port
    }

    /// The remote port the forward listens on.
    pub fn server_port(&self) -> (r: u16)
        ensures
            r == self.spec_server_port(),
    {
        self.server_port
    }

    /// Opens the remote forward listener at the port the server granted.
    pub fn start_listener(&self, granted_port: u16) -> (r: ListenerModel)
        requires
            self.session_authenticated(),
        ensures
            r.port == granted_port,
    {
        self.session.open_forward_listener(granted_port)
    }
}

} // verus!
