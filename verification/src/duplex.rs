//! The duplex copy: bidirectional byte splicing between two streams.
//!
//! Two independent copy loops run concurrently, one per direction. Each
//! direction forwards bytes unmodified and in order until its source reaches
//! end-of-stream or errors. The whole splice succeeds only when both
//! directions reach a clean end-of-stream; the first error terminates the
//! other direction's loop as well.

use vstd::prelude::*;

verus! {

/// One read observation on a stream: a chunk of bytes, a clean end of
/// stream, or an I/O error carried as its raw error code.
pub enum CopyEvent {
    Data(Vec<u8>),
    Eof,
    Fail(i32),
}

/// How one copy direction stands.
#[derive(Clone, Copy, PartialEq, Eq, Structural, Debug)]
pub enum DirOutcome {
    /// The source has more to give; the direction keeps copying.
    StillOpen,
    /// The source ended cleanly.
    CleanEof,
    /// The source (or sink) failed with this error code.
    Error(i32),
}

/// The bytes one direction forwards: every data chunk before the first
/// terminal observation, concatenated in order.
pub open spec fn copied_bytes(evs: Seq<CopyEvent>) -> Seq<u8>
    decreases evs.len(),
{
    if evs.len() == 0 {
        Seq::empty()
    } else {
        match evs[0] {
            CopyEvent::Data(d) => d@ + copied_bytes(evs.skip(1)),
            _ => Seq::empty(),
        }
    }
}

/// How a direction ends for a sequence of read observations: the first
/// terminal observation decides; with none, the direction is still open.
pub open spec fn direction_outcome(evs: Seq<CopyEvent>) -> DirOutcome
    decreases evs.len(),
{
    if evs.len() == 0 {
        DirOutcome::StillOpen
    } else {
        match evs[0] {
            CopyEvent::Data(_) => direction_outcome(evs.skip(1)),
            CopyEvent::Eof => DirOutcome::CleanEof,
            CopyEvent::Fail(e) => DirOutcome::Error(e),
        }
    }
}

/// Runs one copy direction over its read observations. It terminates on the
/// first end-of-stream or error, and the bytes it forwarded are exactly the
/// bytes that flowed before that point: none dropped, none reordered, none
/// changed.
#[verifier::loop_isolation(false)]
pub fn copy_direction(events: Vec<CopyEvent>) -> (r: (Vec<u8>, DirOutcome))
    ensures
        r.0@ == copied_bytes(events@),
        r.1 == direction_outcome(events@),
{
    let ghost orig = events@;
    let mut rest = events;
    let mut out: Vec<u8> = Vec::new();
    assert(out@ + copied_bytes(rest@) =~= copied_bytes(orig));
    while rest.len() > 0
        invariant
            copied_bytes(orig) == out@ + copied_bytes(rest@),
            direction_outcome(orig) == direction_outcome(rest@),
        decreases rest@.len(),
    {
        let ghost prev = rest@;
        let ev = rest.remove(0);
        proof {
            assert(rest@ =~= prev.skip(1));
        }
        match ev {
            CopyEvent::Data(d) => {
                let ghost out_before = out@;
                let ghost dv = d@;
                let mut chunk = d;
                out.append(&mut chunk);
                assert(copied_bytes(prev) == dv + copied_bytes(rest@));
                assert(out@ + copied_bytes(rest@) =~= out_before + copied_bytes(prev));
            },
            CopyEvent::Eof => {
                assert(copied_bytes(prev) =~= Seq::<u8>::empty());
                assert(out@ + copied_bytes(prev) =~= out@);
                return (out, DirOutcome::CleanEof);
            },
            CopyEvent::Fail(e) => {
                assert(copied_bytes(prev) =~= Seq::<u8>::empty());
                assert(out@ + copied_bytes(prev) =~= out@);
                return (out, DirOutcome::Error(e));
            },
        }
    }
    assert(copied_bytes(rest@) =~= Seq::<u8>::empty());
    assert(out@ + copied_bytes(rest@) =~= out@);
    (out, DirOutcome::StillOpen)
}

/// The result of the whole splice, from the two directions' outcomes:
/// success only when both directions reached a clean end of stream;
/// otherwise the error that terminated the splice, taking the first
/// direction's error when both failed.
pub fn duplex_result(a: DirOutcome, b: DirOutcome) -> (r: Result<(), i32>)
    requires
        !(a is StillOpen),
        !(b is StillOpen),
    ensures
        match a {
            DirOutcome::Error(e) => r == Err::<(), i32>(e),
            _ => match b {
                DirOutcome::Error(e) => r == Err::<(), i32>(e),
                _ => r == Ok::<(), i32>(()),
            },
        },
{
    match a {
        DirOutcome::Error(e) => Err(e),
        _ => match b {
            DirOutcome::Error(e) => Err(e),
            _ => Ok(()),
        },
    }
}

/// What one direction's loop does next, given its own standing, its peer
/// direction's standing, and a fresh read observation.
pub enum SpliceAction {
    /// Forward this chunk to the sink, unmodified.
    Forward(Vec<u8>),
    /// Stop copying: this direction is finished or its peer has failed.
    Halt,
}

/// One step of one direction of the splice: a direction that is finished, or
/// whose peer has failed, halts; otherwise a data chunk is forwarded
/// unchanged, a clean end of stream finishes the direction, and an error
/// fails it (which makes the peer halt on its next step).
pub fn splice_step(own: DirOutcome, peer: DirOutcome, ev: CopyEvent) -> (r: (
    DirOutcome,
    SpliceAction,
))
    ensures
        !(own is StillOpen) ==> r == (own, SpliceAction::Halt),
        (own is StillOpen && peer is Error) ==> r == (own, SpliceAction::Halt),
        (own is StillOpen && !(peer is Error)) ==> match ev {
            CopyEvent::Data(d) => r.0 == own && r.1 == SpliceAction::Forward(d),
            CopyEvent::Eof => r == (DirOutcome::CleanEof, SpliceAction::Halt),
            CopyEvent::Fail(e) => r == (DirOutcome::Error(e), SpliceAction::Halt),
        },
{
    match own {
        DirOutcome::StillOpen => {
            if let DirOutcome::Error(_) = peer {
                (own, SpliceAction::Halt)
            } else {
                match ev {
                    CopyEvent::Data(d) => (own, SpliceAction::Forward(d)),
                    CopyEvent::Eof => (DirOutcome::CleanEof, SpliceAction::Halt),
                    CopyEvent::Fail(e) => (DirOutcome::Error(e), SpliceAction::Halt),
                }
            }
        },
        _ => (own, SpliceAction::Halt),
    }
}

} // verus!
