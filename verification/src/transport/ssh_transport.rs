//! Outgoing queues and incoming bytes of the transport, without its I/O.
//!
//! The tasks that own the pipe perform what the functions here decide: the
//! writer writes what [`TransportSender::next_step`] hands it, the reader
//! hands every read to [`receive_step`].

use std::collections::VecDeque;

use vstd::prelude::*;

use crate::transport::laws;
use crate::transport::multiplexer;
use crate::transport::multiplexer::{
    Frame, IncomingMessage, MultiplexerError, Receiver, StreamParser,
};

verus! {

/// Size of the buffer that one read fills.
pub const READ_BUF_SIZE: usize = 64 * 1024;

/// Capacity of the bounded frame queue — provides backpressure for low-priority traffic.
/// Must be small to prevent frame accumulation: at 60 fps each extra slot adds ~16 ms
/// of end-to-end latency.  A depth of 2 allows one frame in-flight (being written to
/// the pipe) while the next one is queued.
pub const FRAME_QUEUE_DEPTH: usize = 2;

/// Capacity of the incoming message channel. Must be small to prevent frame
/// accumulation: at 60 fps, each extra slot adds ~16 ms of display latency.
/// A depth of 2 allows one frame in-flight while another is being processed.
pub const INCOMING_QUEUE_DEPTH: usize = 2;

/// Errors of the transport.
#[derive(Debug)]
pub enum TransportError {
    /// Reading or writing failed; the text says how.
    Io(String),
    /// The peer sent what the parser refuses.
    Multiplexer(MultiplexerError),
    /// The connection is gone.
    Disconnected,
}

impl TransportError {
    /// Text of the error.
    pub open spec fn spec_message(self) -> Seq<char> {
        match self {
            TransportError::Io(what) => "I/O error: "@ + what@,
            TransportError::Multiplexer(e) => "multiplexer error: "@ + e.spec_message(),
            TransportError::Disconnected => "transport disconnected"@,
        }
    }

    /// Human-readable message.
    pub fn message(&self) -> (r: String)
        ensures
            r@ == self.spec_message(),
    {
        match self {
            TransportError::Io(what) => {
                let mut r = String::from_str("I/O error: ");
                r.append(what.as_str());
                r
            },
            TransportError::Multiplexer(e) => {
                let mut r = String::from_str("multiplexer error: ");
                r.append(e.message().as_str());
                r
            },
            TransportError::Disconnected => String::from_str("transport disconnected"),
        }
    }
}

/// Priority class of an outgoing message, highest first.
#[derive(Debug, Clone, Copy, PartialEq, Eq, Structural)]
pub enum Priority {
    /// Input events: unbounded, always sent first.
    Input,
    /// Anchor frames: unbounded, sent second.
    Anchor,
    /// Regular frames: bounded, dropped under backpressure.
    Frame,
}

/// What waits to be written, by class, in the order of arrival.
#[verifier::ext_equal]
pub struct Queues {
    pub input: Seq<Seq<u8>>,
    pub anchor: Seq<Seq<u8>>,
    pub frame: Seq<Seq<u8>>,
    /// Whether more can be accepted.
    pub open: bool,
}

impl Queues {
    /// Nothing waits, and messages are accepted.
    pub open spec fn fresh() -> Queues {
        Queues { input: Seq::empty(), anchor: Seq::empty(), frame: Seq::empty(), open: true }
    }

    /// The queue of one class.
    pub open spec fn of(self, p: Priority) -> Seq<Seq<u8>> {
        match p {
            Priority::Input => self.input,
            Priority::Anchor => self.anchor,
            Priority::Frame => self.frame,
        }
    }

    /// The queues with the one of a class replaced.
    pub open spec fn with(self, p: Priority, q: Seq<Seq<u8>>) -> Queues {
        match p {
            Priority::Input => Queues { input: q, ..self },
            Priority::Anchor => Queues { anchor: q, ..self },
            Priority::Frame => Queues { frame: q, ..self },
        }
    }

    /// Whether a message of a class is accepted: any as long as the transport
    /// is open, but a frame only if a slot is free.
    pub open spec fn accepts(self, p: Priority) -> bool {
        self.open && (p == Priority::Frame ==> self.frame.len() < FRAME_QUEUE_DEPTH)
    }

    /// State after a message is handed over.
    pub open spec fn sent(self, p: Priority, data: Seq<u8>) -> Queues {
        if self.accepts(p) {
            self.with(p, self.of(p).push(data))
        } else {
            self
        }
    }

    /// State once no sender is left.
    pub open spec fn finished(self) -> Queues {
        Queues { open: false, ..self }
    }

    /// State once writing failed.
    pub open spec fn aborted(self) -> Queues {
        Queues { open: false, ..Queues::fresh() }
    }

    /// The class whose turn it is: the highest one that has anything waiting.
    pub open spec fn turn(self) -> Option<Priority> {
        if self.input.len() > 0 {
            Some(Priority::Input)
        } else if self.anchor.len() > 0 {
            Some(Priority::Anchor)
        } else if self.frame.len() > 0 {
            Some(Priority::Frame)
        } else {
            None
        }
    }

    /// State after the message whose turn it is was taken.
    pub open spec fn taken(self) -> Queues {
        match self.turn() {
            Some(p) => self.with(p, self.of(p).drop_first()),
            None => self,
        }
    }
}

/// What the writer does next.
pub enum WriterStep {
    /// Write these bytes and flush, so that they reach the pipe at once.
    Write(Vec<u8>),
    /// Wait until something is sent.
    Wait,
    /// Nothing waits and nothing will come: report the disconnect and end.
    Stop,
}

/// Whether this is what the writer does next.
pub open spec fn is_next(q: Queues, r: WriterStep) -> bool {
    match q.turn() {
        Some(p) => r matches WriterStep::Write(data) && data@ == q.of(p)[0],
        None => if q.open {
            r is Wait
        } else {
            r is Stop
        },
    }
}

/// Outgoing queues.
///
/// Three priority levels:
/// - `send_input`  → input events: unbounded, never blocked, always sent first.
/// - `send_anchor` → anchor frames: unbounded, never blocked, sent second.
/// - `try_send_frame` → regular frame chunks: bounded (`FRAME_QUEUE_DEPTH`),
///   returns `false` under backpressure so the caller can drop the chunk.
pub struct TransportSender {
    input: VecDeque<Vec<u8>>,
    anchor: VecDeque<Vec<u8>>,
    frame: VecDeque<Vec<u8>>,
    open: bool,
}

/// The contents of queued messages.
pub open spec fn contents(q: Seq<Vec<u8>>) -> Seq<Seq<u8>> {
    q.map_values(|m: Vec<u8>| m@)
}

proof fn lemma_contents_push(q: Seq<Vec<u8>>, m: Vec<u8>)
    ensures
        contents(q.push(m)) == contents(q).push(m@),
{
    assert(contents(q.push(m)) =~= contents(q).push(m@));
}

proof fn lemma_contents_drop_first(q: Seq<Vec<u8>>)
    requires
        q.len() > 0,
    ensures
        contents(q.subrange(1, q.len() as int)) == contents(q).drop_first(),
        contents(q)[0] == q[0]@,
{
    assert(contents(q.subrange(1, q.len() as int)) =~= contents(q).drop_first());
}

impl View for TransportSender {
    type V = Queues;

    closed spec fn view(&self) -> Queues {
        Queues {
            input: contents(self.input@),
            anchor: contents(self.anchor@),
            frame: contents(self.frame@),
            open: self.open,
        }
    }
}

impl TransportSender {
    /// Empty queues of an open transport.
    pub fn new() -> (r: TransportSender)
        ensures
            r@ == Queues::fresh(),
    {
        let r = TransportSender {
            input: VecDeque::new(),
            anchor: VecDeque::new(),
            frame: VecDeque::new(),
            open: true,
        };
        assert(r@ =~= Queues::fresh());
        r
    }

    /// Send an input event. Always succeeds unless the transport is shut down.
    pub fn send_input(&mut self, data: Vec<u8>) -> (r: bool)
        ensures
            r == old(self)@.open,
            r == old(self)@.accepts(Priority::Input),
            final(self)@ == old(self)@.sent(Priority::Input, data@),
    {
        if !self.open {
            return false;
        }
        proof {
            lemma_contents_push(self.input@, data);
        }
        self.input.push_back(data);
        true
    }

    /// Send an anchor frame. Always succeeds unless the transport is shut down.
    pub fn send_anchor(&mut self, data: Vec<u8>) -> (r: bool)
        ensures
            r == old(self)@.open,
            r == old(self)@.accepts(Priority::Anchor),
            final(self)@ == old(self)@.sent(Priority::Anchor, data@),
    {
        if !self.open {
            return false;
        }
        proof {
            lemma_contents_push(self.anchor@, data);
        }
        self.anchor.push_back(data);
        true
    }

    /// Enqueue a regular frame chunk. Returns `false` if the queue is full (caller drops it).
    pub fn try_send_frame(&mut self, data: Vec<u8>) -> (r: bool)
        ensures
            r == old(self)@.accepts(Priority::Frame),
            final(self)@ == old(self)@.sent(Priority::Frame, data@),
    {
        if !self.open || self.frame.len() >= FRAME_QUEUE_DEPTH {
            return false;
        }
        proof {
            lemma_contents_push(self.frame@, data);
        }
        self.frame.push_back(data);
        true
    }

    /// Number of frame slots currently occupied.
    pub fn frame_queue_len(&self) -> (r: usize)
        ensures
            r == self@.frame.len(),
    {
        self.frame.len()
    }

    /// No sender is left: nothing more is accepted, what waits is still written.
    pub fn finish(&mut self)
        ensures
            final(self)@ == old(self)@.finished(),
    {
        self.open = false;
    }

    /// Writing failed: nothing more is accepted, what waits is dropped.
    pub fn abort(&mut self)
        ensures
            final(self)@ == old(self)@.aborted(),
    {
        self.input = VecDeque::new();
        self.anchor = VecDeque::new();
        self.frame = VecDeque::new();
        self.open = false;
        assert(self@ =~= (Queues { open: false, ..Queues::fresh() }));
    }

    /// What the writer does next: input before anchors before frames, each in
    /// the order of arrival.
    pub fn next_step(&mut self) -> (r: WriterStep)
        ensures
            final(self)@ == old(self)@.taken(),
            is_next(old(self)@, r),
    {
        let ghost before = *self;
        proof {
            if before.input@.len() > 0 {
                lemma_contents_drop_first(before.input@);
            }
            if before.anchor@.len() > 0 {
                lemma_contents_drop_first(before.anchor@);
            }
            if before.frame@.len() > 0 {
                lemma_contents_drop_first(before.frame@);
            }
        }
        if let Some(data) = self.input.pop_front() {
            return WriterStep::Write(data);
        }
        if let Some(data) = self.anchor.pop_front() {
            return WriterStep::Write(data);
        }
        if let Some(data) = self.frame.pop_front() {
            return WriterStep::Write(data);
        }
        if self.open {
            WriterStep::Wait
        } else {
            WriterStep::Stop
        }
    }
}

/// What one read leads to.
#[verifier::ext_equal]
pub struct Reading {
    /// The messages to deliver, or none when the loop ends.
    pub delivered: Option<Seq<Frame>>,
    /// The receiver afterwards.
    pub state: Receiver,
}

/// What one read leads to that filled the front of `buf` with so many bytes, or failed.
pub open spec fn reading(before: Receiver, filled: Option<usize>, buf: Seq<u8>) -> Reading {
    match filled {
        None => Reading { delivered: None, state: before },
        Some(n) => {
            let outcome = multiplexer::feed(before, buf.subrange(0, n as int));
            if n == 0 {
                Reading { delivered: None, state: before }
            } else if outcome.error is Some {
                Reading { delivered: None, state: outcome.state }
            } else {
                Reading { delivered: Some(outcome.messages), state: outcome.state }
            }
        },
    }
}

/// What one read led to. `filled` is the number of bytes read into the front
/// of `buf` (0 at the end of the stream), or `None` if reading failed.
///
/// Returns the messages to deliver, or `None` when the loop ends and the
/// disconnect is reported: at the end of the stream, on a failed read, and
/// when the parser refuses what was read.
pub fn receive_step(parser: &mut StreamParser, filled: Option<usize>, buf: &[u8]) -> (r: Option<
    Vec<IncomingMessage>,
>)
    requires
        filled matches Some(n) ==> n <= buf@.len() && old(parser)@.has_room(n as nat),
    ensures
        filled is None || filled == Some(0usize) ==> *final(parser) == *old(parser),
        final(parser)@ == reading(old(parser)@, filled, buf@).state,
        match r {
            Some(ms) => reading(old(parser)@, filled, buf@).delivered == Some(
                multiplexer::messages_view(ms@),
            ),
            None => reading(old(parser)@, filled, buf@).delivered is None,
        },
{
    match filled {
        None => None,
        Some(n) => {
            if n == 0 {
                return None;
            }
            match parser.push(vstd::slice::slice_subrange(buf, 0, n)) {
                Ok(ms) => Some(ms),
                Err(_) => None,
            }
        },
    }
}

/// One thing that happens to the outgoing queues.
pub enum QueueEvent {
    /// A message is handed over.
    Send { class: Priority, data: Seq<u8> },
    /// The writer takes the message whose turn it is.
    Take,
}

/// Queues after a sequence of events.
pub open spec fn queues_after(events: Seq<QueueEvent>) -> Queues
    decreases events.len(),
{
    if events.len() == 0 {
        Queues::fresh()
    } else {
        let before = queues_after(events.drop_last());
        match events.last() {
            QueueEvent::Send { class, data } => before.sent(class, data),
            QueueEvent::Take => before.taken(),
        }
    }
}

/// Messages of one class that were accepted, in order.
pub open spec fn accepted(events: Seq<QueueEvent>, p: Priority) -> Seq<Seq<u8>>
    decreases events.len(),
{
    if events.len() == 0 {
        Seq::empty()
    } else {
        let before = accepted(events.drop_last(), p);
        match events.last() {
            QueueEvent::Send { class, data } => if class == p && queues_after(
                events.drop_last(),
            ).accepts(p) {
                before.push(data)
            } else {
                before
            },
            QueueEvent::Take => before,
        }
    }
}

/// Messages of one class that the writer took, in order.
pub open spec fn written(events: Seq<QueueEvent>, p: Priority) -> Seq<Seq<u8>>
    decreases events.len(),
{
    if events.len() == 0 {
        Seq::empty()
    } else {
        let before = written(events.drop_last(), p);
        let queues = queues_after(events.drop_last());
        match events.last() {
            QueueEvent::Send { .. } => before,
            QueueEvent::Take => if queues.turn() == Some(p) {
                before.push(queues.of(p)[0])
            } else {
                before
            },
        }
    }
}

/// Whatever happens, a class loses nothing, repeats nothing and keeps its
/// order: what was accepted is what was written, followed by what waits. At
/// most `FRAME_QUEUE_DEPTH` frames wait, and input and anchors are always
/// accepted.
pub proof fn law_nothing_is_lost_or_reordered(events: Seq<QueueEvent>, p: Priority)
    ensures
        accepted(events, p) == written(events, p) + queues_after(events).of(p),
        queues_after(events).frame.len() <= FRAME_QUEUE_DEPTH,
        queues_after(events).accepts(Priority::Input),
        queues_after(events).accepts(Priority::Anchor),
    decreases events.len(),
{
    if events.len() > 0 {
        law_nothing_is_lost_or_reordered(events.drop_last(), p);
        let before = queues_after(events.drop_last());
        let w = written(events.drop_last(), p);
        match events.last() {
            QueueEvent::Send { class, data } => {
                assert((w + before.of(p)).push(data) =~= w + before.of(p).push(data));
            },
            QueueEvent::Take => {
                if before.turn() == Some(p) {
                    assert(w + before.of(p) =~= w.push(before.of(p)[0]) + before.of(p).drop_first());
                }
            },
        }
    } else {
        assert(accepted(events, p) =~= written(events, p) + queues_after(events).of(p));
    }
}

/// Nothing of a lower class is written while something of a higher one waits.
pub proof fn law_higher_priority_goes_first(q: Queues)
    ensures
        q.turn() == Some(Priority::Anchor) ==> q.input.len() == 0,
        q.turn() == Some(Priority::Frame) ==> q.input.len() == 0 && q.anchor.len() == 0,
        q.turn() is None ==> q.input.len() == 0 && q.anchor.len() == 0 && q.frame.len() == 0,
        q.taken().input.len() + q.taken().anchor.len() + q.taken().frame.len() + if q.turn() is Some {
            1int
        } else {
            0
        } == q.input.len() + q.anchor.len() + q.frame.len(),
{
}

/// As long as the transport is open, input and anchors are always accepted, and a frame
/// exactly while fewer than two wait; afterwards nothing is. What is accepted waits
/// behind what came before it in its class, and the other classes are left alone. What is
/// not accepted changes nothing.
pub proof fn law_only_frames_are_held_back(q: Queues, p: Priority, other: Priority, data: Seq<u8>)
    ensures
        q.accepts(p) <==> q.open && (p == Priority::Frame ==> q.frame.len() < 2),
        q.accepts(p) ==> q.sent(p, data).of(p) == q.of(p).push(data),
        !q.accepts(p) ==> q.sent(p, data) == q,
        other != p ==> q.sent(p, data).of(other) == q.of(other),
        q.sent(p, data).open == q.open,
{
}

/// The writer takes the oldest message of the highest class in which one waits, and
/// leaves the others where they are.
pub proof fn law_oldest_of_the_highest_class_is_taken(q: Queues, p: Priority)
    ensures
        q.input.len() > 0 ==> q.turn() == Some(Priority::Input),
        q.input.len() == 0 && q.anchor.len() > 0 ==> q.turn() == Some(Priority::Anchor),
        q.input.len() == 0 && q.anchor.len() == 0 && q.frame.len() > 0 ==> q.turn() == Some(
            Priority::Frame,
        ),
        q.turn() == Some(p) ==> q.of(p) == seq![q.of(p)[0]] + q.taken().of(p),
        q.turn() != Some(p) ==> q.taken().of(p) == q.of(p),
        q.taken().open == q.open,
{
    if q.turn() == Some(p) {
        assert(q.of(p) =~= seq![q.of(p)[0]] + q.taken().of(p));
    }
}

/// Messages that are sent arrive through reads, wherever these cut the bytes: two reads
/// that fill the front of their buffers with the bytes of whole messages deliver exactly
/// those, in order, and leave nothing. A read that fills nothing or fails ends the loop.
pub proof fn law_reads_deliver_what_was_sent(
    frames: Seq<Frame>,
    first: Seq<u8>,
    n: usize,
    second: Seq<u8>,
    m: usize,
)
    requires
        laws::all_acceptable(frames),
        forall|i: int| 0 <= i < frames.len() ==> (#[trigger] frames[i]).is_last(),
        0 < n <= first.len(),
        0 < m <= second.len(),
        first.subrange(0, n as int) + second.subrange(0, m as int) == multiplexer::frames_wire(
            frames,
        ),
    ensures
        ({
            let start = Receiver { buf: Seq::empty(), partial: Map::empty() };
            let one = reading(start, Some(n), first);
            let two = reading(one.state, Some(m), second);
            &&& one.delivered is Some
            &&& two.delivered is Some
            &&& one.delivered->0 + two.delivered->0 == frames
            &&& two.state == start
            &&& reading(start, None, first).delivered is None
            &&& reading(start, Some(0), first).delivered is None
        }),
{
    let start = Receiver { buf: Seq::empty(), partial: Map::empty() };
    let a = first.subrange(0, n as int);
    let b = second.subrange(0, m as int);
    laws::law_whole_messages_arrive_in_order(frames);
    laws::law_pieces_do_not_matter(start, a, b);
}

/// The writer stops only where nothing waits and nothing will come, and waits only where
/// nothing waits but something may come. Otherwise it writes a message that waits: one of
/// input where there is one, else an anchor, else a frame, and the oldest.
pub proof fn law_writer_stops_only_when_done(q: Queues, r: WriterStep)
    requires
        is_next(q, r),
    ensures
        ({
            let idle = q.input.len() == 0 && q.anchor.len() == 0 && q.frame.len() == 0;
            match r {
                WriterStep::Stop => idle && !q.open,
                WriterStep::Wait => idle && q.open,
                WriterStep::Write(data) => data@ == if q.input.len() > 0 {
                    q.input[0]
                } else if q.anchor.len() > 0 {
                    q.anchor[0]
                } else {
                    q.frame[0]
                } && !idle,
            }
        }),
{
}

/// Once no sender is left nothing more is accepted, but all that waits is still written;
/// once writing failed, nothing is.
pub proof fn law_closing_keeps_or_drops_what_waits(q: Queues, p: Priority)
    ensures
        !q.finished().accepts(p),
        q.finished().of(p) == q.of(p),
        !q.aborted().accepts(p),
        q.aborted().of(p) == Seq::<Seq<u8>>::empty(),
{
}

} // verus!
