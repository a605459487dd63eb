//! Per-connection session state machine.
//!
//! A session consumes inbound frames one at a time.  A non-empty binary
//! frame is an audio chunk: the session hands its payload out to be staged
//! and submitted to the inference engine, and appends the engine's reply
//! line to its transcript.  An empty binary frame is the end-of-stream
//! sentinel: the session answers with the whole transcript, joined by the
//! line separator, and stops.  Pings are answered with pongs, close frames
//! and transport failures end the session without a reply, and any other
//! frame is ignored.

use vstd::prelude::*;
use crate::lines::{joined, trimmed, join_lines, trim_line};

verus! {

/// One inbound frame, reduced to what the session reacts to.
#[derive(Debug, PartialEq, Eq)]
pub enum Frame {
    /// A binary frame; a non-empty payload is one audio chunk, an empty
    /// payload is the end-of-stream sentinel.
    Binary(Vec<u8>),
    /// A liveness probe.
    Ping,
    /// Abrupt termination by the peer.
    Close,
    /// Any other frame kind; ignored.
    Other,
}

/// Specification form of a frame.
pub enum FrameV {
    Binary(Seq<u8>),
    Ping,
    Close,
    Other,
}

impl View for Frame {
    type V = FrameV;

    open spec fn view(&self) -> FrameV {
        match self {
            Frame::Binary(data) => FrameV::Binary(data@),
            Frame::Ping => FrameV::Ping,
            Frame::Close => FrameV::Close,
            Frame::Other => FrameV::Other,
        }
    }
}

/// What the caller must do next after feeding a frame to the session.
#[derive(Debug, PartialEq, Eq)]
pub enum Step {
    /// Stage this chunk payload to a file, submit the file name to the
    /// engine, and hand the reply line back to the session.
    Submit(Vec<u8>),
    /// Send this text back to the peer as the one reply frame, then stop.
    Reply(String),
    /// Answer the ping with a pong.
    Pong,
    /// Nothing to do.
    Ignore,
}

/// Specification form of a step.
pub enum StepV {
    Submit(Seq<u8>),
    Reply(Seq<char>),
    Pong,
    Ignore,
}

impl View for Step {
    type V = StepV;

    open spec fn view(&self) -> StepV {
        match self {
            Step::Submit(data) => StepV::Submit(data@),
            Step::Reply(text) => StepV::Reply(text@),
            Step::Pong => StepV::Pong,
            Step::Ignore => StepV::Ignore,
        }
    }
}

/// Where a session stands in its lifecycle.
#[derive(Debug, Clone, Copy, PartialEq, Eq, Structural)]
pub enum SessionState {
    /// Just upgraded; the transcript is empty.
    Open,
    /// At least one chunk has been transcribed.
    Active,
    /// A chunk has been handed out and its reply line is still owed.
    Awaiting,
    /// End of stream reached and the transcript sent; terminal.
    Flushed,
    /// Ended by a close frame or a failure, without a reply; terminal.
    Closed,
}

/// Specification form of a session: its lifecycle state and the transcript
/// lines accumulated so far, in arrival order.
pub struct SessionV {
    pub state: SessionState,
    pub transcript: Seq<Seq<char>>,
}

/// Whether the session still reads frames.
pub open spec fn is_live(s: SessionState) -> bool {
    s == SessionState::Open || s == SessionState::Active
}

/// The transition taken on one inbound frame: the next session and the step
/// owed to the caller.  Frames arriving once the session no longer reads
/// (terminal, or between a chunk and its reply) change nothing.
pub open spec fn step_frame(s: SessionV, f: FrameV) -> (SessionV, StepV) {
    if is_live(s.state) {
        match f {
            FrameV::Binary(payload) => if payload.len() > 0 {
                (
                    SessionV { state: SessionState::Awaiting, transcript: s.transcript },
                    StepV::Submit(payload),
                )
            } else {
                (
                    SessionV { state: SessionState::Flushed, transcript: s.transcript },
                    StepV::Reply(joined(s.transcript)),
                )
            },
            FrameV::Ping => (s, StepV::Pong),
            FrameV::Close => (
                SessionV { state: SessionState::Closed, transcript: s.transcript },
                StepV::Ignore,
            ),
            FrameV::Other => (s, StepV::Ignore),
        }
    } else {
        (s, StepV::Ignore)
    }
}

/// The transition taken when the engine's reply line for the outstanding
/// chunk arrives: the line, trimmed of its terminator, is appended to the
/// transcript.  A line arriving when no chunk is outstanding changes
/// nothing.
pub open spec fn step_reply(s: SessionV, line: Seq<char>) -> SessionV {
    if s.state == SessionState::Awaiting {
        SessionV { state: SessionState::Active, transcript: s.transcript.push(trimmed(line)) }
    } else {
        s
    }
}

/// The transition taken on a failure anywhere in the session: staging,
/// engine traffic or transport.  The session ends without a reply; a
/// session that already sent its reply stays flushed.
pub open spec fn step_failure(s: SessionV) -> SessionV {
    if s.state == SessionState::Flushed {
        s
    } else {
        SessionV { state: SessionState::Closed, transcript: s.transcript }
    }
}

/// One connection's session: its lifecycle state and the transcript built
/// from the engine's reply lines, in chunk-arrival order.
pub struct Session {
    state: SessionState,
    transcript: Vec<String>,
}

impl View for Session {
    type V = SessionV;

    closed spec fn view(&self) -> SessionV {
        SessionV { state: self.state, transcript: self.transcript.deep_view() }
    }
}

impl Session {
    /// A fresh session for a newly upgraded connection: open, with an empty
    /// transcript.
    pub fn new() -> (s: Session)
        ensures
            s@.state == SessionState::Open,
            s@.transcript == Seq::<Seq<char>>::empty(),
    {
        let s = Session { state: SessionState::Open, transcript: Vec::new() };
        proof {
            assert(s@.transcript =~= Seq::<Seq<char>>::empty());
        }
        s
    }

    /// Consumes one inbound frame and returns the step the caller owes:
    /// exactly the transition of `step_frame`.
    pub fn on_frame(&mut self, frame: Frame) -> (step: Step)
        ensures
            final(self)@ == step_frame(old(self)@, frame@).0,
            step@ == step_frame(old(self)@, frame@).1,
    {
        let live = match self.state {
            SessionState::Open => true,
            SessionState::Active => true,
            _ => false,
        };
        if !live {
            return Step::Ignore;
        }
        match frame {
            Frame::Binary(payload) => {
                if payload.len() > 0 {
                    self.state = SessionState::Awaiting;
                    Step::Submit(payload)
                } else {
                    self.state = SessionState::Flushed;
                    Step::Reply(join_lines(&self.transcript))
                }
            },
            Frame::Ping => Step::Pong,
            Frame::Close => {
                self.state = SessionState::Closed;
                Step::Ignore
            },
            Frame::Other => Step::Ignore,
        }
    }

    /// Consumes the engine's reply line for the outstanding chunk: exactly
    /// the transition of `step_reply`.
    pub fn on_reply_line(&mut self, line: &str)
        ensures
            final(self)@ == step_reply(old(self)@, line@),
    {
        let ghost pre = self@;
        let awaiting = match self.state {
            SessionState::Awaiting => true,
            _ => false,
        };
        if awaiting {
            self.state = SessionState::Active;
            let t = trim_line(line);
            self.transcript.push(t);
            proof {
                assert(self@.transcript =~= pre.transcript.push(trimmed(line@)));
            }
        }
    }

    /// Records a failure of staging, engine traffic or transport: exactly
    /// the transition of `step_failure`.
    pub fn on_failure(&mut self)
        ensures
            final(self)@ == step_failure(old(self)@),
    {
        let flushed = match self.state {
            SessionState::Flushed => true,
            _ => false,
        };
        if !flushed {
            self.state = SessionState::Closed;
        }
    }

    /// Whether the session has ended, by reply or without one; a terminal
    /// session reads no further frames.
    pub fn is_terminal(&self) -> (r: bool)
        ensures
            r == (self@.state == SessionState::Flushed || self@.state == SessionState::Closed),
    {
        match self.state {
            SessionState::Flushed => true,
            SessionState::Closed => true,
            _ => false,
        }
    }

    /// The lifecycle state.
    pub fn state(&self) -> (r: SessionState)
        ensures
            r == self@.state,
    {
        self.state
    }

    /// The transcript lines accumulated so far, in chunk-arrival order.
    pub fn transcript(&self) -> (r: &Vec<String>)
        ensures
            r.deep_view() == self@.transcript,
    {
        &self.transcript
    }
}

/// All engine reply lines, each trimmed of its line terminator.
pub open spec fn trimmed_all(replies: Seq<Seq<char>>) -> Seq<Seq<char>> {
    replies.map_values(|l: Seq<char>| trimmed(l))
}

/// The session reached from `s` after submitting the given chunks in order,
/// each answered by the matching engine reply line.
pub open spec fn run_chunks(s: SessionV, chunks: Seq<Seq<u8>>, replies: Seq<Seq<char>>) -> SessionV
    decreases chunks.len(),
{
    if chunks.len() == 0 {
        s
    } else {
        let after_frame = step_frame(s, FrameV::Binary(chunks[0])).0;
        let after_reply = step_reply(after_frame, replies[0]);
        run_chunks(
            after_reply,
            chunks.subrange(1, chunks.len() as int),
            replies.subrange(1, replies.len() as int),
        )
    }
}

/// Submitting non-empty chunks keeps the session live and appends exactly
/// the trimmed reply lines, in order, to the transcript.
pub proof fn lemma_run_chunks(s: SessionV, chunks: Seq<Seq<u8>>, replies: Seq<Seq<char>>)
    requires
        is_live(s.state),
        chunks.len() == replies.len(),
        forall|i: int| 0 <= i < chunks.len() ==> (#[trigger] chunks[i]).len() > 0,
    ensures
        is_live(run_chunks(s, chunks, replies).state),
        run_chunks(s, chunks, replies).transcript == s.transcript + trimmed_all(replies),
    decreases chunks.len(),
{
    if chunks.len() == 0 {
        assert(run_chunks(s, chunks, replies).transcript =~= s.transcript + trimmed_all(replies));
    } else {
        let after_frame = step_frame(s, FrameV::Binary(chunks[0])).0;
        let after_reply = step_reply(after_frame, replies[0]);
        let chunks_rest = chunks.subrange(1, chunks.len() as int);
        let replies_rest = replies.subrange(1, replies.len() as int);
        assert(chunks[0].len() > 0);
        assert(after_reply.state == SessionState::Active);
        assert(after_reply.transcript == s.transcript.push(trimmed(replies[0])));
        assert forall|i: int| 0 <= i < chunks_rest.len() implies (#[trigger] chunks_rest[i]).len()
            > 0 by {
            assert(chunks_rest[i] == chunks[i + 1]);
        }
        lemma_run_chunks(after_reply, chunks_rest, replies_rest);
        assert(run_chunks(s, chunks, replies).transcript =~= s.transcript + trimmed_all(replies));
    }
}

/// For any sequence of non-empty chunks followed by the end-of-stream
/// sentinel on one connection, the final reply text is exactly the engine's
/// per-chunk reply lines, trimmed of their terminators, joined in
/// submission order.
pub proof fn lemma_stream_reply(chunks: Seq<Seq<u8>>, replies: Seq<Seq<char>>)
    requires
        chunks.len() == replies.len(),
        forall|i: int| 0 <= i < chunks.len() ==> (#[trigger] chunks[i]).len() > 0,
    ensures
        ({
            let start = SessionV { state: SessionState::Open, transcript: Seq::empty() };
            let ended = step_frame(run_chunks(start, chunks, replies), FrameV::Binary(Seq::empty()));
            &&& ended.0.state == SessionState::Flushed
            &&& ended.1 == StepV::Reply(joined(trimmed_all(replies)))
        }),
{
    let start = SessionV { state: SessionState::Open, transcript: Seq::empty() };
    lemma_run_chunks(start, chunks, replies);
    assert(run_chunks(start, chunks, replies).transcript =~= trimmed_all(replies));
}

/// A ping on a live connection is answered with a pong and leaves the
/// session, its state and its transcript alike, unchanged.
pub proof fn lemma_ping_leaves_session(s: SessionV)
    requires
        is_live(s.state),
    ensures
        step_frame(s, FrameV::Ping) == (s, StepV::Pong),
{
}

/// A close frame ends a live session without any reply: the session goes
/// closed and no step is owed for the close frame itself.
pub proof fn lemma_close_yields_no_reply(s: SessionV)
    requires
        is_live(s.state),
    ensures
        step_frame(s, FrameV::Close).0 == (SessionV {
            state: SessionState::Closed,
            transcript: s.transcript,
        }),
        step_frame(s, FrameV::Close).1 == StepV::Ignore,
{
}

/// A closed session is final: whatever arrives, no step is ever owed again
/// and nothing changes, so a transcript gathered before a close frame is
/// discarded for good.
pub proof fn lemma_closed_is_final(s: SessionV)
    requires
        s.state == SessionState::Closed,
    ensures
        forall|f: FrameV| #[trigger] step_frame(s, f) == (s, StepV::Ignore),
        forall|line: Seq<char>| #[trigger] step_reply(s, line) == s,
{
}

} // verus!
