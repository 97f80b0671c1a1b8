//! The per-connection audio ingest state machine.
//!
//! The connection loop lives outside the library: it hands each event to
//! `Registry::ingest`, performs the action it gets back, and reports how that
//! went as the next event. Between events the session's status may change
//! through a closure request, which the next event observes.
use vstd::prelude::*;
use crate::session::{Registry, Status, after_closure_request, evolves, valid_step, with_progress};

verus! {

/// Where a connection stands.
#[derive(Clone, Copy, Debug, PartialEq, Eq, Structural)]
pub enum Phase {
    /// Frames are accepted and appended.
    Streaming,
    /// The recording is being finalized; no frame is accepted any more.
    Finalizing,
    /// Nothing more happens on this connection.
    Done,
}

/// What the connection loop observed.
pub enum Event {
    /// An audio frame arrived.
    Frame(Vec<u8>),
    /// Something arrived that is not an audio frame.
    Malformed,
    /// The peer ended the stream.
    PeerClosed,
    /// Writing or finalizing the recording failed.
    WriteFailed,
    /// The recording was finalized and flushed.
    Finalized,
    /// Nothing arrived within the poll interval.
    Tick,
}

/// What the connection loop must do next.
pub enum Action {
    /// Append these bytes to the recording.
    Append(Vec<u8>),
    /// Finalize the recording: put `wav::wav_header` of the session's sample
    /// rate and byte count in front of the samples and flush, then report
    /// `Finalized` or `WriteFailed`.
    Finalize,
    /// Nothing to do; wait for the next event.
    Ignore,
    /// Close the connection.
    Stop,
}

/// The state of one connection: the session it feeds and its phase.
pub struct Ingest {
    pub session: u64,
    pub phase: Phase,
}

/// Phase and session status after event `e`, from phase `p` and status `s`.
pub open spec fn next_state(p: Phase, s: Status, e: Event) -> (Phase, Status) {
    if p is Done {
        (Phase::Done, s)
    } else if e is WriteFailed {
        (Phase::Done, if s.is_terminal() { s } else { Status::Errored })
    } else if s.is_terminal() {
        (Phase::Done, s)
    } else if p is Finalizing {
        if e is Finalized { (Phase::Done, Status::Closed) } else { (Phase::Finalizing, s) }
    } else if s is ClosingRequested {
        (Phase::Finalizing, s)
    } else {
        match e {
            Event::Frame(_) => (Phase::Streaming, Status::Recording),
            Event::Malformed => (Phase::Done, Status::Errored),
            Event::PeerClosed => (Phase::Finalizing, s),
            _ => (Phase::Streaming, s),
        }
    }
}

/// The action that answers event `e` in phase `p` with status `s`.
pub open spec fn next_action(p: Phase, s: Status, e: Event) -> Action {
    if p is Done || e is WriteFailed || s.is_terminal() {
        Action::Stop
    } else if p is Finalizing {
        if e is Finalized { Action::Stop } else { Action::Ignore }
    } else if s is ClosingRequested {
        Action::Finalize
    } else {
        match e {
            Event::Frame(b) => Action::Append(b),
            Event::Malformed => Action::Stop,
            Event::PeerClosed => Action::Finalize,
            _ => Action::Ignore,
        }
    }
}

/// Number of bytes an action appends.
pub open spec fn appended_len(a: Action) -> nat {
    match a {
        Action::Append(b) => b@.len(),
        _ => 0,
    }
}

pub open spec fn saturating_add(x: u64, y: nat) -> u64 {
    if x + y > u64::MAX { u64::MAX } else { (x + y) as u64 }
}

proof fn lemma_next_state_valid(p: Phase, s: Status, e: Event)
    ensures
        valid_step(s, next_state(p, s, e).1),
{
}

impl Ingest {
    /// A connection that feeds session `session`.
    pub fn new(session: u64) -> (r: Ingest)
        ensures
            r.session == session,
            r.phase == Phase::Streaming,
    {
        Ingest { session, phase: Phase::Streaming }
    }
}

impl Registry {
    /// Handles one event of connection `ing`: moves its phase and its
    /// session's status as `next_state` says, counts an appended frame in the
    /// session's progress (saturating), and returns `next_action`. A
    /// connection whose session is unknown stops.
    pub fn ingest(&mut self, ing: &mut Ingest, ev: Event) -> (a: Action)
        requires
            old(self).wf(),
        ensures
            final(self).wf(),
            final(self).dir() == old(self).dir(),
            final(ing).session == old(ing).session,
            evolves(old(self)@, final(self)@),
            !old(self).contains(old(ing).session) ==> {
                &&& final(self)@ == old(self)@
                &&& final(ing).phase == Phase::Done
                &&& a is Stop
            },
            old(self).contains(old(ing).session) ==> {
                let id = old(ing).session;
                let s = old(self).session(id);
                let (p2, st2) = next_state(old(ing).phase, s.status, ev);
                &&& final(ing).phase == p2
                &&& a == next_action(old(ing).phase, s.status, ev)
                &&& final(self)@ == old(self)@.update(
                    id as int,
                    with_progress(
                        s,
                        st2,
                        if a is Append { saturating_add(s.frames, 1) } else { s.frames },
                        if a is Append { saturating_add(s.bytes, appended_len(a)) } else { s.bytes },
                    ),
                )
            },
    {
        proof {
            self.lemma_view();
        }
        let id = ing.session;
        let n = self.sessions.len();
        if id >= n as u64 {
            ing.phase = Phase::Done;
            assert(evolves(old(self)@, self@));
            return Action::Stop;
        }
        let ghost e0 = ev;
        let i = id as usize;
        let s = self.sessions[i].status;
        let frames = self.sessions[i].frames;
        let bytes = self.sessions[i].bytes;
        let p = ing.phase;
        let terminal = s == Status::Closed || s == Status::Errored;
        let (p2, st2, a) = if p == Phase::Done {
            (Phase::Done, s, Action::Stop)
        } else if matches!(ev, Event::WriteFailed) {
            (Phase::Done, if terminal { s } else { Status::Errored }, Action::Stop)
        } else if terminal {
            (Phase::Done, s, Action::Stop)
        } else if p == Phase::Finalizing {
            if matches!(ev, Event::Finalized) {
                (Phase::Done, Status::Closed, Action::Stop)
            } else {
                (Phase::Finalizing, s, Action::Ignore)
            }
        } else if s == Status::ClosingRequested {
            (Phase::Finalizing, s, Action::Finalize)
        } else {
            match ev {
                Event::Frame(b) => (Phase::Streaming, Status::Recording, Action::Append(b)),
                Event::Malformed => (Phase::Done, Status::Errored, Action::Stop),
                Event::PeerClosed => (Phase::Finalizing, s, Action::Finalize),
                _ => (Phase::Streaming, s, Action::Ignore),
            }
        };
        let (f2, b2) = match &a {
            Action::Append(b) => {
                let f2 = if frames < u64::MAX { frames + 1 } else { u64::MAX };
                let len = b.len() as u64;
                let b2 = if bytes <= u64::MAX - len { bytes + len } else { u64::MAX };
                (f2, b2)
            }
            _ => (frames, bytes),
        };
        proof {
            lemma_next_state_valid(p, s, e0);
        }
        self.set_progress(id, st2, f2, b2);
        ing.phase = p2;
        a
    }
}


/// A closure request on a recording session is honoured within two events:
/// the next event that is not a write failure (a frame, for instance) turns
/// the connection to finalizing, and the report that finalizing succeeded
/// closes the session. Further closure requests in between change nothing.
pub proof fn lemma_closure_liveness(s: Status, e1: Event, e2: Event)
    requires
        s is Recording || s is Connecting,
        !(e1 is WriteFailed),
        e2 is Finalized,
    ensures
        ({
            let c = after_closure_request(s);
            let (p1, s1) = next_state(Phase::Streaming, c, e1);
            &&& c is ClosingRequested
            &&& next_action(Phase::Streaming, c, e1) is Finalize
            &&& p1 is Finalizing
            &&& after_closure_request(s1) == s1
            &&& next_state(p1, s1, e2) == (Phase::Done, Status::Closed)
        }),
{
}

} // verus!
