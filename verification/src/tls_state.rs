//! The TLS stream state machine.
//!
//! An inbound TLS stream is first `Handshaking` (it holds a pending handshake)
//! and becomes `Streaming` (it holds the encrypted stream) the first time a
//! read or write call observes handshake completion. Until then, flush and
//! close succeed immediately without sending data. The driving shell polls
//! the handshake future and feeds the observation to the step functions here,
//! which say what state to store and where to direct the I/O call.

use vstd::prelude::*;

verus! {

/// The two states of an inbound TLS stream.
#[derive(Clone, Copy, PartialEq, Eq, Structural, Debug)]
pub enum TlsState {
    /// The handshake has not been observed complete; no application data has
    /// been exchanged.
    Handshaking,
    /// The handshake completed; all operations go to the encrypted stream.
    Streaming,
}

/// One observation of the pending handshake, made when a read or write is
/// polled while handshaking.
pub enum HandshakeEvent<E> {
    /// The handshake has not finished yet.
    Pending,
    /// The handshake finished; the encrypted stream is available.
    Completed,
    /// The handshake failed.
    Failed(E),
}

/// Where a polled read or write is directed.
pub enum TlsIoAction<E> {
    /// Suspend until the handshake makes progress.
    Suspend,
    /// Serve the operation from the encrypted stream.
    DelegateToStream,
    /// Fail the operation with this handshake error.
    ReturnError(E),
}

/// What a flush or close does.
#[derive(Clone, Copy, PartialEq, Eq, Structural, Debug)]
pub enum TlsFlushAction {
    /// Succeed immediately: no application data has been exchanged yet.
    NoopSuccess,
    /// Forward to the encrypted stream.
    DelegateToStream,
}

/// The state after one handshake observation: `Streaming` is absorbing, and
/// `Handshaking` leaves only on a completed handshake.
pub open spec fn tls_next_state<E>(state: TlsState, ev: HandshakeEvent<E>) -> TlsState {
    match state {
        TlsState::Streaming => TlsState::Streaming,
        TlsState::Handshaking => match ev {
            HandshakeEvent::Completed => TlsState::Streaming,
            _ => TlsState::Handshaking,
        },
    }
}

/// One read/write poll: while handshaking, a pending handshake suspends, a
/// failure is returned (the state is kept, as the operation may be polled
/// again), and completion transitions to `Streaming` and serves the
/// operation from the encrypted stream; once streaming, every operation is
/// served from the encrypted stream.
pub fn tls_data_step<E>(state: TlsState, ev: HandshakeEvent<E>) -> (r: (TlsState, TlsIoAction<E>))
    ensures
        r.0 == tls_next_state(state, ev),
        match state {
            TlsState::Streaming => r.1 == TlsIoAction::<E>::DelegateToStream,
            TlsState::Handshaking => match ev {
                HandshakeEvent::Pending => r.1 == TlsIoAction::<E>::Suspend,
                HandshakeEvent::Completed => r.1 == TlsIoAction::<E>::DelegateToStream,
                HandshakeEvent::Failed(e) => r.1 == TlsIoAction::ReturnError(e),
            },
        },
{
    match state {
        TlsState::Streaming => (TlsState::Streaming, TlsIoAction::DelegateToStream),
        TlsState::Handshaking => match ev {
            HandshakeEvent::Pending => (TlsState::Handshaking, TlsIoAction::Suspend),
            HandshakeEvent::Completed => (TlsState::Streaming, TlsIoAction::DelegateToStream),
            HandshakeEvent::Failed(e) => (TlsState::Handshaking, TlsIoAction::ReturnError(e)),
        },
    }
}

/// One flush or close: a no-op success while handshaking (nothing has been
/// sent, so there is nothing to flush), a delegation once streaming. The
/// state never changes.
pub fn tls_flush_step(state: TlsState) -> (r: TlsFlushAction)
    ensures
        r == (match state {
            TlsState::Handshaking => TlsFlushAction::NoopSuccess,
            TlsState::Streaming => TlsFlushAction::DelegateToStream,
        }),
{
    match state {
        TlsState::Handshaking => TlsFlushAction::NoopSuccess,
        TlsState::Streaming => TlsFlushAction::DelegateToStream,
    }
}

/// The state after a sequence of handshake observations.
pub open spec fn tls_state_after<E>(init: TlsState, evs: Seq<HandshakeEvent<E>>) -> TlsState
    decreases evs.len(),
{
    if evs.len() == 0 {
        init
    } else {
        tls_state_after(tls_next_state(init, evs[0]), evs.skip(1))
    }
}

/// The stream transitions from `Handshaking` to `Streaming` exactly once:
/// `Streaming` is absorbing, and a run from `Handshaking` reaches `Streaming`
/// precisely when some observation completed the handshake.
pub proof fn lemma_tls_transitions_once<E>(evs: Seq<HandshakeEvent<E>>)
    ensures
        tls_state_after(TlsState::Streaming, evs) == TlsState::Streaming,
        tls_state_after(TlsState::Handshaking, evs) == TlsState::Streaming <==> exists|i: int|
            0 <= i < evs.len() && evs[i] is Completed,
    decreases evs.len(),
{
    if evs.len() > 0 {
        lemma_tls_transitions_once::<E>(evs.skip(1));
        if evs[0] is Completed {
            assert(tls_state_after(TlsState::Handshaking, evs) == TlsState::Streaming);
        } else {
            assert(tls_state_after(TlsState::Handshaking, evs) == tls_state_after(
                TlsState::Handshaking,
                evs.skip(1),
            ));
            if tls_state_after(TlsState::Handshaking, evs) == TlsState::Streaming {
                let j = choose|j: int|
                    0 <= j < evs.skip(1).len() && evs.skip(1)[j] is Completed;
                assert(evs[j + 1] is Completed);
            }
            if exists|i: int| 0 <= i < evs.len() && evs[i] is Completed {
                let i = choose|i: int| 0 <= i < evs.len() && evs[i] is Completed;
                assert(evs.skip(1)[i - 1] is Completed);
            }
        }
    }
}

/// No read or write is served by the encrypted path before the handshake has
/// been observed complete: while no observation so far completed it, the
/// stream is still `Handshaking`, where only a `Completed` observation makes
/// `tls_data_step` delegate to the encrypted stream, and where flush and
/// close are no-ops that succeed without sending data.
pub proof fn lemma_no_data_before_handshake<E>(evs: Seq<HandshakeEvent<E>>)
    requires
        forall|j: int| 0 <= j < evs.len() ==> !(evs[j] is Completed),
    ensures
        tls_state_after(TlsState::Handshaking, evs) == TlsState::Handshaking,
    decreases evs.len(),
{
    if evs.len() > 0 {
        assert(forall|j: int|
            0 <= j < evs.skip(1).len() ==> evs.skip(1)[j] == evs[j + 1]);
        lemma_no_data_before_handshake::<E>(evs.skip(1));
    }
}

} // verus!
