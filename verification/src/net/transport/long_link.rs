//! The engine of one long link, as a state machine.
//!
//! The engine owns the codec, the bytes received and not yet decoded, and
//! the queue of identify payloads. It does no input or output itself: the
//! loop that owns the socket hands it one event at a time and carries out
//! the actions that come back, in their order.

use super::read_buffer::{as_slice, bytes_held, with_capacity};
use crate::buffer::{lemma_written_at_end, AutoBuffer, Seek};
use bytes::BytesMut;
use crate::codec::long_link::{
    frame_bytes, lemma_decode_encoded, lemma_decode_with_rest, CmdId, Codec, DecodeStatus, Decoded,
    DefaultCodec, TaskId, DEFAULT_HEADER_LEN, IDENTIFY_CHECKER_TASK_ID,
};
use vstd::prelude::*;

verus! {

/// How many requests of the façade may wait for the engine.
pub const REQUEST_QUEUE_SIZE: usize = 100;

/// How many reports of the engine may wait for the façade.
pub const RESPONSE_QUEUE_SIZE: usize = 100;

/// How many shutdown signals may wait for the engine: one ends the link.
pub const SHUTDOWN_QUEUE_SIZE: usize = 1;

/// How many bytes one read may bring: the room of a read buffer, and the
/// room that is made in the receive buffer before the bytes of a read are
/// appended.
pub const MAX_READ_SIZE: usize = 64 * 1024;

/// What the façade asks of the engine.
#[derive(Debug)]
pub enum LongLinkRequest {
    /// Queue this identify payload, to be sent under this command id.
    Checkidentify((AutoBuffer, CmdId)),
    /// The identity was accepted: drop what is queued.
    NoCheckidentify,
}

/// The lifecycle of a link: the state that the engine is in, and the event
/// by which it reports that it entered it.
#[derive(Debug, Clone, Copy, PartialEq, Eq, Structural)]
pub enum LongLinkResponse {
    /// Not started; as a response, that there is none.
    Idle,
    Connecting,
    Connected,
    Disconnected,
    ConnectFail,
    Checkidentify,
}

/// One decoded message.
#[derive(Debug)]
pub struct Frame {
    pub cmd_id: CmdId,
    pub task_id: TaskId,
    pub body: AutoBuffer,
}

/// What happened outside the engine.
#[derive(Debug)]
pub enum LongLinkEvent {
    /// The loop begins.
    Start,
    /// The socket is connected.
    ConnectDone,
    /// The socket could not be connected.
    ConnectFailed,
    /// The shutdown signal came.
    Shutdown,
    /// The façade sent a request.
    Request(LongLinkRequest),
    /// A read filled this buffer. It holds no bytes where the peer has
    /// closed the stream.
    Received(BytesMut),
    /// A read failed.
    ReadFailed,
    /// The socket can take bytes.
    Writable,
    /// The bytes last handed out were written.
    Written,
    /// The bytes last handed out could not be written.
    WriteFailed,
}

/// What the loop is to do for the engine.
#[derive(Debug)]
pub enum LongLinkAction {
    /// Connect the socket to the endpoint.
    Connect,
    /// Report this lifecycle event to the façade.
    Report(LongLinkResponse),
    /// Hand this frame, decoded during the identify exchange, to the façade
    /// for its verdict.
    Identify(Frame),
    /// Hand this frame, decoded on the connected link, upward.
    Deliver(Frame),
    /// Write these bytes to the socket.
    Send(AutoBuffer),
    /// Leave the loop.
    Stop,
}

/// Where the events of a live link come from.
#[derive(Debug, Clone, Copy, PartialEq, Eq, Structural)]
pub enum EventSource {
    /// The shutdown signal.
    Shutdown,
    /// The requests of the façade.
    Request,
    /// The socket, for bytes to read.
    Readable,
    /// The socket, for room to write.
    Writable,
}

/// A decoded message as plain values.
pub struct FrameView {
    pub cmd_id: CmdId,
    pub task_id: TaskId,
    pub body: Seq<u8>,
}

/// A request as plain values.
pub enum RequestView {
    Checkidentify(Seq<u8>, CmdId),
    NoCheckidentify,
}

/// An event as plain values.
pub enum EventView {
    Start,
    ConnectDone,
    ConnectFailed,
    Shutdown,
    Request(RequestView),
    Received(Seq<u8>),
    ReadFailed,
    Writable,
    Written,
    WriteFailed,
}

/// An action as plain values.
pub enum ActionView {
    Connect,
    Report(LongLinkResponse),
    Identify(FrameView),
    Deliver(FrameView),
    Send(Seq<u8>),
    Stop,
}

/// The engine as plain values.
pub struct LinkModel {
    /// The lifecycle state.
    pub state: LongLinkResponse,
    /// The identify payloads that wait to be sent, oldest first, each with
    /// its command id.
    pub queue: Seq<(Seq<u8>, CmdId)>,
    /// The bytes received and not yet decoded.
    pub pending: Seq<u8>,
    /// Whether the head of the queue was handed out and its write is not
    /// yet answered.
    pub writing: bool,
}

/// What a run of decoding leaves: the frames found, oldest first, the bytes
/// behind them, and whether a violation stopped the run.
pub struct Drained {
    pub frames: Seq<FrameView>,
    pub rest: Seq<u8>,
    pub failed: bool,
}

impl View for Frame {
    type V = FrameView;

    open spec fn view(&self) -> FrameView {
        FrameView { cmd_id: self.cmd_id, task_id: self.task_id, body: self.body@ }
    }
}

impl View for LongLinkRequest {
    type V = RequestView;

    open spec fn view(&self) -> RequestView {
        match self {
            LongLinkRequest::Checkidentify(entry) => RequestView::Checkidentify(entry.0@, entry.1),
            LongLinkRequest::NoCheckidentify => RequestView::NoCheckidentify,
        }
    }
}

impl View for LongLinkEvent {
    type V = EventView;

    open spec fn view(&self) -> EventView {
        match self {
            LongLinkEvent::Start => EventView::Start,
            LongLinkEvent::ConnectDone => EventView::ConnectDone,
            LongLinkEvent::ConnectFailed => EventView::ConnectFailed,
            LongLinkEvent::Shutdown => EventView::Shutdown,
            LongLinkEvent::Request(request) => EventView::Request(request@),
            LongLinkEvent::Received(buffer) => EventView::Received(bytes_held(*buffer)),
            LongLinkEvent::ReadFailed => EventView::ReadFailed,
            LongLinkEvent::Writable => EventView::Writable,
            LongLinkEvent::Written => EventView::Written,
            LongLinkEvent::WriteFailed => EventView::WriteFailed,
        }
    }
}

impl View for LongLinkAction {
    type V = ActionView;

    open spec fn view(&self) -> ActionView {
        match self {
            LongLinkAction::Connect => ActionView::Connect,
            LongLinkAction::Report(response) => ActionView::Report(*response),
            LongLinkAction::Identify(frame) => ActionView::Identify(frame@),
            LongLinkAction::Deliver(frame) => ActionView::Deliver(frame@),
            LongLinkAction::Send(bytes) => ActionView::Send(bytes@),
            LongLinkAction::Stop => ActionView::Stop,
        }
    }
}

/// The actions of a list as plain values.
pub open spec fn action_views(actions: Seq<LongLinkAction>) -> Seq<ActionView> {
    Seq::new(actions.len(), |i: int| actions[i]@)
}

/// The entries of a queue as plain values.
pub open spec fn queue_views(queue: Seq<(AutoBuffer, CmdId)>) -> Seq<(Seq<u8>, CmdId)> {
    Seq::new(queue.len(), |i: int| (queue[i].0@, queue[i].1))
}

/// Whether the link is connected and its loop runs.
pub open spec fn is_live(state: LongLinkResponse) -> bool {
    state == LongLinkResponse::Checkidentify || state == LongLinkResponse::Connected
}

/// Whether the link has ended.
pub open spec fn is_terminal(state: LongLinkResponse) -> bool {
    state == LongLinkResponse::Disconnected || state == LongLinkResponse::ConnectFail
}

/// The sources that the loop of a link waits on, in the order in which it
/// looks at them. A link that is not live waits on none. On a live link the
/// shutdown signal comes before all others, so that it ends the link before
/// another read or write is made; then come the requests and the reads, and
/// last the writes, which are waited for only while there is an identify
/// payload to hand out.
pub open spec fn wait_order(m: LinkModel) -> Seq<EventSource> {
    if !is_live(m.state) {
        Seq::empty()
    } else if m.queue.len() > 0 && !m.writing {
        seq![
            EventSource::Shutdown,
            EventSource::Request,
            EventSource::Readable,
            EventSource::Writable,
        ]
    } else {
        seq![EventSource::Shutdown, EventSource::Request, EventSource::Readable]
    }
}

/// The engine before its loop begins.
pub open spec fn initial_model() -> LinkModel {
    LinkModel {
        state: LongLinkResponse::Idle,
        queue: Seq::empty(),
        pending: Seq::empty(),
        writing: false,
    }
}

/// The frame at the front of `input`, where the codec finds one that lies
/// within `input`.
pub open spec fn front_frame<C: Codec>(codec: C, input: Seq<u8>) -> Option<FrameView> {
    match codec.spec_decode(input) {
        Decoded::Frame { cmd_id, task_id, body } => if DEFAULT_HEADER_LEN + body.len()
            <= input.len() {
            Some(FrameView { cmd_id, task_id, body })
        } else {
            None
        },
        _ => None,
    }
}

/// Decoding `input` frame by frame from the front, until the codec finds no
/// further whole frame or a violation.
pub open spec fn drain<C: Codec>(codec: C, input: Seq<u8>) -> Drained
    decreases input.len(),
{
    match front_frame(codec, input) {
        Some(frame) => {
            let next = drain(codec, input.skip(DEFAULT_HEADER_LEN + frame.body.len()));
            Drained { frames: seq![frame] + next.frames, rest: next.rest, failed: next.failed }
        },
        None => Drained {
            frames: Seq::empty(),
            rest: input,
            failed: codec.spec_decode(input) is Fail,
        },
    }
}

/// How a frame is surfaced: for a verdict while the identify exchange runs,
/// upward once the link is connected.
pub open spec fn surfaced(state: LongLinkResponse, frame: FrameView) -> ActionView {
    if state == LongLinkResponse::Checkidentify {
        ActionView::Identify(frame)
    } else {
        ActionView::Deliver(frame)
    }
}

/// The frames of a run of decoding, each surfaced.
pub open spec fn surfaced_all(state: LongLinkResponse, frames: Seq<FrameView>) -> Seq<ActionView> {
    Seq::new(frames.len(), |i: int| surfaced(state, frames[i]))
}

/// The end of a link: it is reported as disconnected, once, and the loop
/// stops. What is queued or pending stays unsent and undecoded.
pub open spec fn disconnected(m: LinkModel) -> (LinkModel, Seq<ActionView>) {
    (
        LinkModel { state: LongLinkResponse::Disconnected, ..m },
        seq![ActionView::Report(LongLinkResponse::Disconnected), ActionView::Stop],
    )
}

/// A live link after a read returned `bytes`: they are appended to what is
/// pending, every whole frame is decoded and surfaced in wire order, and a
/// violation ends the link behind the frames that precede it. A read that
/// returns no bytes tells that the peer has closed the stream, and ends the
/// link.
pub open spec fn received<C: Codec>(codec: C, m: LinkModel, bytes: Seq<u8>) -> (
    LinkModel,
    Seq<ActionView>,
) {
    if bytes.len() == 0 {
        disconnected(m)
    } else {
        let run = drain(codec, m.pending + bytes);
        let frames = surfaced_all(m.state, run.frames);
        if run.failed {
            (
                LinkModel { state: LongLinkResponse::Disconnected, pending: run.rest, ..m },
                frames + disconnected(m).1,
            )
        } else {
            (LinkModel { pending: run.rest, ..m }, frames)
        }
    }
}

/// A live link when the socket can take bytes: the head of the queue is
/// encoded under the identify task id and handed out, unless the queue is
/// empty or the head was handed out already.
pub open spec fn writable<C: Codec>(codec: C, m: LinkModel) -> (LinkModel, Seq<ActionView>) {
    if m.queue.len() > 0 && !m.writing {
        (
            LinkModel { writing: true, ..m },
            seq![
                ActionView::Send(
                    codec.spec_encode(
                        m.queue[0].1,
                        IDENTIFY_CHECKER_TASK_ID,
                        m.queue[0].0,
                        Seq::empty(),
                    ),
                ),
            ],
        )
    } else {
        (m, Seq::empty())
    }
}

/// A live link after a write succeeded: the entry that was handed out leaves
/// the queue.
pub open spec fn written(m: LinkModel) -> (LinkModel, Seq<ActionView>) {
    if m.writing && m.queue.len() > 0 {
        (LinkModel { queue: m.queue.skip(1), writing: false, ..m }, Seq::empty())
    } else {
        (LinkModel { writing: false, ..m }, Seq::empty())
    }
}

/// A live link after a request of the façade: an identify payload joins the
/// queue at its end; an accepted identity empties the queue and makes the
/// link connected.
pub open spec fn requested(m: LinkModel, request: RequestView) -> (LinkModel, Seq<ActionView>) {
    match request {
        RequestView::Checkidentify(payload, cmd_id) => (
            LinkModel { queue: m.queue.push((payload, cmd_id)), ..m },
            Seq::empty(),
        ),
        RequestView::NoCheckidentify => (
            LinkModel {
                state: LongLinkResponse::Connected,
                queue: Seq::empty(),
                writing: false,
                ..m
            },
            seq![ActionView::Report(LongLinkResponse::Connected)],
        ),
    }
}

/// What an event of the loop brings about: `outcome` on a live link, nothing
/// on any other.
pub open spec fn on_live(m: LinkModel, outcome: (LinkModel, Seq<ActionView>)) -> (
    LinkModel,
    Seq<ActionView>,
) {
    if is_live(m.state) {
        outcome
    } else {
        (m, Seq::empty())
    }
}

/// The transition of the engine: the state after `event` and the actions to
/// carry out, in their order.
///
/// A link that has ended ignores every event. The shutdown signal ends a
/// link from any other state. `Start` and the two outcomes of connecting
/// count only in the states that expect them; every other event counts only
/// on a live link, where a failed read or write ends the link.
pub open spec fn step<C: Codec>(codec: C, m: LinkModel, event: EventView) -> (
    LinkModel,
    Seq<ActionView>,
) {
    if is_terminal(m.state) {
        (m, Seq::empty())
    } else {
        match event {
            EventView::Shutdown => disconnected(m),
            EventView::Start => if m.state == LongLinkResponse::Idle {
                (
                    LinkModel { state: LongLinkResponse::Connecting, ..m },
                    seq![ActionView::Report(LongLinkResponse::Connecting), ActionView::Connect],
                )
            } else {
                (m, Seq::empty())
            },
            EventView::ConnectDone => if m.state == LongLinkResponse::Connecting {
                (
                    LinkModel { state: LongLinkResponse::Checkidentify, ..m },
                    seq![ActionView::Report(LongLinkResponse::Checkidentify)],
                )
            } else {
                (m, Seq::empty())
            },
            EventView::ConnectFailed => if m.state == LongLinkResponse::Connecting {
                (
                    LinkModel { state: LongLinkResponse::ConnectFail, ..m },
                    seq![ActionView::Report(LongLinkResponse::ConnectFail), ActionView::Stop],
                )
            } else {
                (m, Seq::empty())
            },
            EventView::Request(request) => on_live(m, requested(m, request)),
            EventView::Received(bytes) => on_live(m, received(codec, m, bytes)),
            EventView::ReadFailed => on_live(m, disconnected(m)),
            EventView::Writable => on_live(m, writable(codec, m)),
            EventView::Written => on_live(m, written(m)),
            EventView::WriteFailed => on_live(m, disconnected(m)),
        }
    }
}

/// The engine after a sequence of events, with all actions that it asked
/// for on the way, in their order.
pub open spec fn steps<C: Codec>(codec: C, m: LinkModel, events: Seq<EventView>) -> (
    LinkModel,
    Seq<ActionView>,
)
    decreases events.len(),
{
    if events.len() == 0 {
        (m, Seq::empty())
    } else {
        let first = step(codec, m, events[0]);
        let rest = steps(codec, first.0, events.skip(1));
        (rest.0, first.1 + rest.1)
    }
}

/// The bytes of `frames` on the wire of protocol version `version`, one
/// frame after the other.
pub open spec fn wire(version: u32, frames: Seq<FrameView>) -> Seq<u8>
    decreases frames.len(),
{
    if frames.len() == 0 {
        Seq::empty()
    } else {
        frame_bytes(version, frames[0].cmd_id, frames[0].task_id, frames[0].body) + wire(
            version,
            frames.skip(1),
        )
    }
}

/// The requests that queue `entries` one after the other.
pub open spec fn queueing(entries: Seq<(Seq<u8>, CmdId)>) -> Seq<EventView> {
    Seq::new(
        entries.len(),
        |i: int| EventView::Request(RequestView::Checkidentify(entries[i].0, entries[i].1)),
    )
}

/// So many times in a row: the socket can take bytes, and the bytes handed
/// out were written.
pub open spec fn write_rounds(rounds: nat) -> Seq<EventView> {
    Seq::new(
        2 * rounds,
        |i: int|
            if i % 2 == 0 {
                EventView::Writable
            } else {
                EventView::Written
            },
    )
}

/// The identify frames of `entries`, each handed out, in their order.
pub open spec fn sends<C: Codec>(codec: C, entries: Seq<(Seq<u8>, CmdId)>) -> Seq<ActionView> {
    Seq::new(
        entries.len(),
        |i: int|
            ActionView::Send(
                codec.spec_encode(
                    entries[i].1,
                    IDENTIFY_CHECKER_TASK_ID,
                    entries[i].0,
                    Seq::empty(),
                ),
            ),
    )
}

/// The engine of one long link.
pub struct LongLink<C: Codec> {
    codec: C,
    state: LongLinkResponse,
    writing: bool,
    recv_buffer: AutoBuffer,
    identify_buffers: Vec<(AutoBuffer, CmdId)>,
}

impl<C: Codec> View for LongLink<C> {
    type V = LinkModel;

    closed spec fn view(&self) -> LinkModel {
        LinkModel {
            state: self.state,
            queue: queue_views(self.identify_buffers@),
            pending: self.recv_buffer@,
            writing: self.writing,
        }
    }
}

impl<C: Codec> LongLink<C> {
    /// The codec that the engine encodes and decodes with.
    pub closed spec fn codec(&self) -> C {
        self.codec
    }

    /// An engine that has not started.
    pub fn new(codec: C) -> (link: Self)
        ensures
            link@ == initial_model(),
            link.codec() == codec,
    {
        let link = LongLink {
            codec,
            state: LongLinkResponse::Idle,
            writing: false,
            recv_buffer: AutoBuffer::new(crate::buffer::DEFAULT_UNIT_SIZE),
            identify_buffers: Vec::new(),
        };
        assert(queue_views(link.identify_buffers@) =~= Seq::empty());
        link
    }

    /// The lifecycle state.
    pub fn state(&self) -> (state: LongLinkResponse)
        ensures
            state == self@.state,
    {
        self.state
    }

    /// An empty buffer for the next read, with room for `MAX_READ_SIZE`
    /// bytes.
    pub fn read_buffer(&self) -> (buffer: BytesMut)
        ensures
            bytes_held(buffer) == Seq::<u8>::empty(),
    {
        with_capacity(MAX_READ_SIZE)
    }

    /// The sources to wait on for the next event, in the order in which to
    /// look at them.
    pub fn wait_order(&self) -> (sources: Vec<EventSource>)
        ensures
            sources@ == wait_order(self@),
            is_live(self@.state) ==> sources@[0] == EventSource::Shutdown,
    {
        let mut sources: Vec<EventSource> = Vec::new();
        if self.is_live() {
            sources.push(EventSource::Shutdown);
            sources.push(EventSource::Request);
            sources.push(EventSource::Readable);
            if self.wants_write() {
                sources.push(EventSource::Writable);
            }
        }
        assert(sources@ =~= wait_order(self@));
        sources
    }

    /// Whether the engine has bytes to hand out when the socket can take
    /// them.
    pub fn wants_write(&self) -> (wanted: bool)
        ensures
            wanted == (is_live(self@.state) && self@.queue.len() > 0 && !self@.writing),
    {
        self.is_live() && self.identify_buffers.len() > 0 && !self.writing
    }

    /// Takes one event and returns the actions to carry out, in their
    /// order.
    pub fn step(&mut self, event: LongLinkEvent) -> (actions: Vec<LongLinkAction>)
        ensures
            (final(self)@, action_views(actions@)) == step(
                old(self).codec(),
                old(self)@,
                event@,
            ),
            final(self).codec() == old(self).codec(),
    {
        if self.is_terminal() {
            return Self::no_action();
        }
        match event {
            LongLinkEvent::Shutdown => self.disconnect(),
            LongLinkEvent::Start => {
                if self.state == LongLinkResponse::Idle {
                    self.state = LongLinkResponse::Connecting;
                    let mut actions: Vec<LongLinkAction> = Vec::new();
                    actions.push(LongLinkAction::Report(LongLinkResponse::Connecting));
                    actions.push(LongLinkAction::Connect);
                    assert(action_views(actions@) =~= seq![
                        ActionView::Report(LongLinkResponse::Connecting),
                        ActionView::Connect,
                    ]);
                    actions
                } else {
                    Self::no_action()
                }
            },
            LongLinkEvent::ConnectDone => {
                if self.state == LongLinkResponse::Connecting {
                    self.state = LongLinkResponse::Checkidentify;
                    let mut actions: Vec<LongLinkAction> = Vec::new();
                    actions.push(LongLinkAction::Report(LongLinkResponse::Checkidentify));
                    assert(action_views(actions@) =~= seq![
                        ActionView::Report(LongLinkResponse::Checkidentify),
                    ]);
                    actions
                } else {
                    Self::no_action()
                }
            },
            LongLinkEvent::ConnectFailed => {
                if self.state == LongLinkResponse::Connecting {
                    self.state = LongLinkResponse::ConnectFail;
                    let mut actions: Vec<LongLinkAction> = Vec::new();
                    actions.push(LongLinkAction::Report(LongLinkResponse::ConnectFail));
                    actions.push(LongLinkAction::Stop);
                    assert(action_views(actions@) =~= seq![
                        ActionView::Report(LongLinkResponse::ConnectFail),
                        ActionView::Stop,
                    ]);
                    actions
                } else {
                    Self::no_action()
                }
            },
            LongLinkEvent::Request(request) => {
                if self.is_live() {
                    self.do_request(request)
                } else {
                    Self::no_action()
                }
            },
            LongLinkEvent::Received(buffer) => {
                if self.is_live() {
                    self.do_read(as_slice(&buffer))
                } else {
                    Self::no_action()
                }
            },
            LongLinkEvent::Writable => {
                if self.is_live() {
                    self.do_write()
                } else {
                    Self::no_action()
                }
            },
            LongLinkEvent::Written => {
                if self.is_live() {
                    self.do_written()
                } else {
                    Self::no_action()
                }
            },
            LongLinkEvent::ReadFailed => {
                if self.is_live() {
                    self.disconnect()
                } else {
                    Self::no_action()
                }
            },
            LongLinkEvent::WriteFailed => {
                if self.is_live() {
                    self.disconnect()
                } else {
                    Self::no_action()
                }
            },
        }
    }

    /// Takes a request of the façade on a live link.
    fn do_request(&mut self, request: LongLinkRequest) -> (actions: Vec<LongLinkAction>)
        requires
            is_live(old(self)@.state),
        ensures
            (final(self)@, action_views(actions@)) == requested(old(self)@, request@),
            final(self).codec() == old(self).codec(),
    {
        match request {
            LongLinkRequest::Checkidentify(entry) => {
                let ghost payload = entry.0@;
                let ghost cmd_id = entry.1;
                self.identify_buffers.push(entry);
                assert(queue_views(self.identify_buffers@) =~= queue_views(
                    old(self).identify_buffers@,
                ).push((payload, cmd_id)));
                Self::no_action()
            },
            LongLinkRequest::NoCheckidentify => {
                self.identify_buffers.clear();
                self.writing = false;
                self.state = LongLinkResponse::Connected;
                let mut actions: Vec<LongLinkAction> = Vec::new();
                actions.push(LongLinkAction::Report(LongLinkResponse::Connected));
                assert(queue_views(self.identify_buffers@) =~= Seq::empty());
                assert(action_views(actions@) =~= seq![
                    ActionView::Report(LongLinkResponse::Connected),
                ]);
                actions
            },
        }
    }

    /// Takes the bytes that a read returned on a live link.
    fn do_read(&mut self, bytes: &[u8]) -> (actions: Vec<LongLinkAction>)
        requires
            is_live(old(self)@.state),
        ensures
            (final(self)@, action_views(actions@)) == received(
                old(self).codec(),
                old(self)@,
                bytes@,
            ),
            final(self).codec() == old(self).codec(),
    {
        if bytes.len() == 0 {
            return self.disconnect();
        }
        self.recv_buffer.seek(0, Seek::End);
        self.recv_buffer.add_capacity(MAX_READ_SIZE);
        self.recv_buffer.write(bytes);
        let ghost input = self.recv_buffer@;
        let ghost run = drain(self.codec, input);
        let mut actions: Vec<LongLinkAction> = Vec::new();
        let mut failed = false;
        let mut more = true;
        while more
            invariant
                self.codec == old(self).codec,
                self@.state == old(self)@.state,
                self@.writing == old(self)@.writing,
                self@.queue == old(self)@.queue,
                run == drain(self.codec, input),
                more ==> !failed,
                !more ==> drain(self.codec, self.recv_buffer@).frames.len() == 0,
                !more ==> failed == drain(self.codec, self.recv_buffer@).failed,
                run.frames == surfaced_frames(actions@) + drain(
                    self.codec,
                    self.recv_buffer@,
                ).frames,
                run.rest == drain(self.codec, self.recv_buffer@).rest,
                run.failed == drain(self.codec, self.recv_buffer@).failed,
                action_views(actions@) == surfaced_all(self.state, surfaced_frames(actions@)),
            decreases self.recv_buffer@.len() + (if more { 1int } else { 0int }),
        {
            let ghost so_far = actions@;
            let (status, frame) = self.try_decode();
            match frame {
                Some(frame) => {
                    let ghost found = frame@;
                    let action = if self.state == LongLinkResponse::Checkidentify {
                        LongLinkAction::Identify(frame)
                    } else {
                        LongLinkAction::Deliver(frame)
                    };
                    actions.push(action);
                    proof {
                        assert(actions@[so_far.len() as int]@ == surfaced(self.state, found));
                        assert forall|i: int| 0 <= i < so_far.len() implies actions@[i]@
                            == surfaced(self.state, surfaced_frames(actions@)[i]) by {
                            assert(actions@[i] == so_far[i]);
                            assert(action_views(so_far)[i] == surfaced_all(
                                self.state,
                                surfaced_frames(so_far),
                            )[i]);
                        }
                        assert(surfaced_frames(actions@) =~= surfaced_frames(so_far).push(found));
                        assert(surfaced_frames(so_far).push(found) + drain(
                            self.codec,
                            self.recv_buffer@,
                        ).frames =~= surfaced_frames(so_far) + (seq![found] + drain(
                            self.codec,
                            self.recv_buffer@,
                        ).frames));
                        assert(action_views(actions@) =~= surfaced_all(
                            self.state,
                            surfaced_frames(actions@),
                        ));
                    }
                },
                None => {
                    more = false;
                    failed = status == DecodeStatus::Fail;
                },
            }
        }
        proof {
            assert(run.frames =~= surfaced_frames(actions@));
        }
        if failed {
            let ghost frames = action_views(actions@);
            self.state = LongLinkResponse::Disconnected;
            actions.push(LongLinkAction::Report(LongLinkResponse::Disconnected));
            actions.push(LongLinkAction::Stop);
            assert(action_views(actions@) =~= frames + seq![
                ActionView::Report(LongLinkResponse::Disconnected),
                ActionView::Stop,
            ]);
        }
        actions
    }

    /// Hands out the head of the identify queue when the socket can take
    /// bytes on a live link.
    fn do_write(&mut self) -> (actions: Vec<LongLinkAction>)
        requires
            is_live(old(self)@.state),
        ensures
            (final(self)@, action_views(actions@)) == writable(old(self).codec(), old(self)@),
            final(self).codec() == old(self).codec(),
    {
        if self.identify_buffers.len() > 0 && !self.writing {
            self.do_write_identify()
        } else {
            Self::no_action()
        }
    }

    /// Encodes the head of the identify queue under the identify task id
    /// and hands the frame out. The entry stays queued until its write is
    /// answered.
    fn do_write_identify(&mut self) -> (actions: Vec<LongLinkAction>)
        requires
            old(self)@.queue.len() > 0,
            !old(self)@.writing,
        ensures
            (final(self)@, action_views(actions@)) == writable(old(self).codec(), old(self)@),
            final(self).codec() == old(self).codec(),
    {
        let mut out_buffer = AutoBuffer::new(crate::buffer::DEFAULT_UNIT_SIZE);
        let extend_buffer = AutoBuffer::new(crate::buffer::DEFAULT_UNIT_SIZE);
        let ghost frame = self.codec.spec_encode(
            self.identify_buffers@[0].1,
            IDENTIFY_CHECKER_TASK_ID,
            self.identify_buffers@[0].0@,
            Seq::empty(),
        );
        self.codec.encode(
            self.identify_buffers[0].1,
            IDENTIFY_CHECKER_TASK_ID,
            &self.identify_buffers[0].0,
            &extend_buffer,
            &mut out_buffer,
        );
        proof {
            lemma_written_at_end(Seq::<u8>::empty(), frame);
        }
        self.writing = true;
        let mut actions: Vec<LongLinkAction> = Vec::new();
        actions.push(LongLinkAction::Send(out_buffer));
        assert(action_views(actions@) =~= seq![ActionView::Send(frame)]);
        actions
    }

    /// Takes the news that the bytes last handed out were written, on a
    /// live link.
    fn do_written(&mut self) -> (actions: Vec<LongLinkAction>)
        requires
            is_live(old(self)@.state),
        ensures
            (final(self)@, action_views(actions@)) == written(old(self)@),
            final(self).codec() == old(self).codec(),
    {
        if self.writing && self.identify_buffers.len() > 0 {
            let _ = self.identify_buffers.remove(0);
            assert(queue_views(self.identify_buffers@) =~= queue_views(
                old(self).identify_buffers@,
            ).skip(1));
        }
        self.writing = false;
        Self::no_action()
    }

    /// Decodes the frame at the front of the pending bytes, where a whole
    /// one stands there, and drops its bytes from them. Returns the codec's
    /// status, with the frame where there is one.
    fn try_decode(&mut self) -> (res: (DecodeStatus, Option<Frame>))
        ensures
            final(self).codec() == old(self).codec(),
            final(self)@.state == old(self)@.state,
            final(self)@.queue == old(self)@.queue,
            final(self)@.writing == old(self)@.writing,
            match front_frame(old(self).codec(), old(self)@.pending) {
                Some(frame) => {
                    &&& res.0 == DecodeStatus::Success
                    &&& res.1 matches Some(found)
                    &&& found@ == frame
                    &&& final(self)@.pending == old(self)@.pending.skip(
                        DEFAULT_HEADER_LEN + frame.body.len(),
                    )
                },
                None => {
                    &&& res.1 is None
                    &&& final(self)@.pending == old(self)@.pending
                    &&& res.0 == DecodeStatus::Fail <==> old(self).codec().spec_decode(
                        old(self)@.pending,
                    ) is Fail
                },
            },
    {
        let mut body_buffer = AutoBuffer::new(crate::buffer::DEFAULT_UNIT_SIZE);
        let mut extend_buffer = AutoBuffer::new(crate::buffer::DEFAULT_UNIT_SIZE);
        let (status, cmd_id, task_id, body_len) = self.codec.decode(
            &self.recv_buffer,
            &mut body_buffer,
            &mut extend_buffer,
        );
        match status {
            DecodeStatus::Success => {
                proof {
                    let found = self.codec.spec_decode(self.recv_buffer@);
                    assert(found is Frame);
                    lemma_written_at_end(Seq::<u8>::empty(), found->body);
                }
                let pending_len = self.recv_buffer.len();
                assert(DEFAULT_HEADER_LEN + body_len <= pending_len);
                let rest = AutoBuffer::new_from(
                    self.recv_buffer.as_slice(DEFAULT_HEADER_LEN + body_len),
                );
                self.recv_buffer = rest;
                (status, Some(Frame { cmd_id, task_id, body: body_buffer }))
            },
            _ => (status, None),
        }
    }

    /// Ends the link.
    fn disconnect(&mut self) -> (actions: Vec<LongLinkAction>)
        ensures
            (final(self)@, action_views(actions@)) == disconnected(old(self)@),
            final(self).codec() == old(self).codec(),
    {
        self.state = LongLinkResponse::Disconnected;
        let mut actions: Vec<LongLinkAction> = Vec::new();
        actions.push(LongLinkAction::Report(LongLinkResponse::Disconnected));
        actions.push(LongLinkAction::Stop);
        assert(action_views(actions@) =~= seq![
            ActionView::Report(LongLinkResponse::Disconnected),
            ActionView::Stop,
        ]);
        actions
    }

    fn no_action() -> (actions: Vec<LongLinkAction>)
        ensures
            action_views(actions@) == Seq::<ActionView>::empty(),
    {
        let actions: Vec<LongLinkAction> = Vec::new();
        assert(action_views(actions@) =~= Seq::empty());
        actions
    }

    fn is_live(&self) -> (live: bool)
        ensures
            live == is_live(self@.state),
    {
        self.state == LongLinkResponse::Checkidentify || self.state == LongLinkResponse::Connected
    }

    fn is_terminal(&self) -> (terminal: bool)
        ensures
            terminal == is_terminal(self@.state),
    {
        self.state == LongLinkResponse::Disconnected || self.state == LongLinkResponse::ConnectFail
    }
}

/// The frames that a list of surfacing actions carries.
spec fn surfaced_frames(actions: Seq<LongLinkAction>) -> Seq<FrameView> {
    Seq::new(
        actions.len(),
        |i: int|
            match actions[i] {
                LongLinkAction::Identify(frame) => frame@,
                LongLinkAction::Deliver(frame) => frame@,
                _ => arbitrary(),
            },
    )
}

/// A run of events is its first step followed by the run of the others.
pub proof fn lemma_steps_first<C: Codec>(
    codec: C,
    m: LinkModel,
    event: EventView,
    later: Seq<EventView>,
)
    ensures
        steps(codec, m, seq![event] + later).0 == steps(codec, step(codec, m, event).0, later).0,
        steps(codec, m, seq![event] + later).1 == step(codec, m, event).1 + steps(
            codec,
            step(codec, m, event).0,
            later,
        ).1,
{
    let events = seq![event] + later;
    assert(events[0] == event);
    assert(events.skip(1) =~= later);
}

/// A link that has ended stays as it is and asks for nothing, whatever
/// happens, and its loop has nothing left to wait on.
pub proof fn lemma_ended_link_is_silent<C: Codec>(codec: C, m: LinkModel, events: Seq<EventView>)
    requires
        is_terminal(m.state),
    ensures
        steps(codec, m, events) == (m, Seq::<ActionView>::empty()),
        wait_order(m) == Seq::<EventSource>::empty(),
    decreases events.len(),
{
    if events.len() > 0 {
        lemma_ended_link_is_silent(codec, m, events.skip(1));
        assert(Seq::<ActionView>::empty() + Seq::<ActionView>::empty() =~= Seq::<
            ActionView,
        >::empty());
    }
}

/// The shutdown signal ends a link that has not ended: it is reported as
/// disconnected exactly once and the loop stops, and whatever happens later,
/// nothing is read, written or reported any more.
pub proof fn lemma_shutdown_ends_link<C: Codec>(codec: C, m: LinkModel, later: Seq<EventView>)
    requires
        !is_terminal(m.state),
    ensures
        steps(codec, m, seq![EventView::Shutdown] + later).0.state
            == LongLinkResponse::Disconnected,
        steps(codec, m, seq![EventView::Shutdown] + later).1 == seq![
            ActionView::Report(LongLinkResponse::Disconnected),
            ActionView::Stop,
        ],
{
    let ended = step(codec, m, EventView::Shutdown);
    lemma_steps_first(codec, m, EventView::Shutdown, later);
    lemma_ended_link_is_silent(codec, ended.0, later);
    assert(ended.1 + Seq::<ActionView>::empty() =~= ended.1);
}

/// A failed connect ends a link before its loop runs: the failure is
/// reported exactly once and the loop stops, and whatever happens later,
/// nothing is read, written or reported any more.
pub proof fn lemma_connect_failure_ends_link<C: Codec>(codec: C, later: Seq<EventView>)
    ensures
        steps(
            codec,
            initial_model(),
            seq![EventView::Start, EventView::ConnectFailed] + later,
        ).0.state == LongLinkResponse::ConnectFail,
        steps(codec, initial_model(), seq![EventView::Start, EventView::ConnectFailed] + later).1
            == seq![
            ActionView::Report(LongLinkResponse::Connecting),
            ActionView::Connect,
            ActionView::Report(LongLinkResponse::ConnectFail),
            ActionView::Stop,
        ],
{
    let started = step(codec, initial_model(), EventView::Start);
    let failed = step(codec, started.0, EventView::ConnectFailed);
    assert(seq![EventView::Start, EventView::ConnectFailed] + later =~= seq![EventView::Start] + (
        seq![EventView::ConnectFailed] + later));
    lemma_steps_first(
        codec,
        initial_model(),
        EventView::Start,
        seq![EventView::ConnectFailed] + later,
    );
    lemma_steps_first(codec, started.0, EventView::ConnectFailed, later);
    lemma_ended_link_is_silent(codec, failed.0, later);
    assert(started.1 + (failed.1 + Seq::<ActionView>::empty()) =~= seq![
        ActionView::Report(LongLinkResponse::Connecting),
        ActionView::Connect,
        ActionView::Report(LongLinkResponse::ConnectFail),
        ActionView::Stop,
    ]);
}

/// The identify exchange connects a link. With the default codec, whatever
/// the identify payload and the server's reply: the engine reports that it
/// connects and asks for the connect; once connected it reports that the
/// identity is to be checked; the queued payload goes out as one frame under
/// its command id and the identify task id, and leaves the queue when it is
/// written; the reply is surfaced for a verdict; and when the identity is
/// accepted the engine reports the link as connected, with nothing queued
/// and nothing pending.
pub proof fn lemma_handshake_connects(
    codec: DefaultCodec,
    payload: Seq<u8>,
    cmd_id: CmdId,
    reply: FrameView,
)
    requires
        reply.body.len() <= u16::MAX,
    ensures
        steps(
            codec,
            initial_model(),
            seq![
                EventView::Start,
                EventView::ConnectDone,
                EventView::Request(RequestView::Checkidentify(payload, cmd_id)),
                EventView::Writable,
                EventView::Written,
                EventView::Received(
                    frame_bytes(codec.version(), reply.cmd_id, reply.task_id, reply.body),
                ),
                EventView::Request(RequestView::NoCheckidentify),
            ],
        ) == (
            LinkModel {
                state: LongLinkResponse::Connected,
                queue: Seq::empty(),
                pending: Seq::empty(),
                writing: false,
            },
            seq![
                ActionView::Report(LongLinkResponse::Connecting),
                ActionView::Connect,
                ActionView::Report(LongLinkResponse::Checkidentify),
                ActionView::Send(
                    frame_bytes(codec.version(), cmd_id, IDENTIFY_CHECKER_TASK_ID, payload),
                ),
                ActionView::Identify(reply),
                ActionView::Report(LongLinkResponse::Connected),
            ],
        ),
{
    let response = frame_bytes(codec.version(), reply.cmd_id, reply.task_id, reply.body);
    let e1 = EventView::Start;
    let e2 = EventView::ConnectDone;
    let e3 = EventView::Request(RequestView::Checkidentify(payload, cmd_id));
    let e4 = EventView::Writable;
    let e5 = EventView::Written;
    let e6 = EventView::Received(response);
    let e7 = EventView::Request(RequestView::NoCheckidentify);
    let t7 = Seq::<EventView>::empty();
    let t6 = seq![e7] + t7;
    let t5 = seq![e6] + t6;
    let t4 = seq![e5] + t5;
    let t3 = seq![e4] + t4;
    let t2 = seq![e3] + t3;
    let t1 = seq![e2] + t2;
    let t0 = seq![e1] + t1;
    assert(t0 =~= seq![e1, e2, e3, e4, e5, e6, e7]);
    let m0 = initial_model();
    let s1 = step(codec, m0, e1);
    let s2 = step(codec, s1.0, e2);
    let s3 = step(codec, s2.0, e3);
    let s4 = step(codec, s3.0, e4);
    let s5 = step(codec, s4.0, e5);
    let s6 = step(codec, s5.0, e6);
    let s7 = step(codec, s6.0, e7);
    lemma_steps_first(codec, m0, e1, t1);
    lemma_steps_first(codec, s1.0, e2, t2);
    lemma_steps_first(codec, s2.0, e3, t3);
    lemma_steps_first(codec, s3.0, e4, t4);
    lemma_steps_first(codec, s4.0, e5, t5);
    lemma_steps_first(codec, s5.0, e6, t6);
    lemma_steps_first(codec, s6.0, e7, t7);
    assert(s3.0.queue =~= seq![(payload, cmd_id)]);
    assert(s5.0.queue =~= Seq::empty());
    assert(s6 == (
        LinkModel { pending: Seq::empty(), ..s5.0 },
        seq![ActionView::Identify(reply)],
    )) by {
        lemma_decode_encoded(codec.version(), reply.cmd_id, reply.task_id, reply.body);
        let input = s5.0.pending + response;
        assert(input =~= response);
        assert(front_frame(codec, input) == Some(reply));
        let rest = input.skip(DEFAULT_HEADER_LEN + reply.body.len());
        assert(rest =~= Seq::<u8>::empty());
        assert(front_frame(codec, rest) is None);
        assert(drain(codec, rest).frames =~= Seq::empty());
        assert(drain(codec, input).frames =~= seq![reply]);
        assert(surfaced_all(s5.0.state, seq![reply]) =~= seq![ActionView::Identify(reply)]);
    }
    assert(s1.1 + (s2.1 + (s3.1 + (s4.1 + (s5.1 + (s6.1 + (s7.1 + Seq::<ActionView>::empty()))))))
        =~= seq![
        ActionView::Report(LongLinkResponse::Connecting),
        ActionView::Connect,
        ActionView::Report(LongLinkResponse::Checkidentify),
        ActionView::Send(frame_bytes(codec.version(), cmd_id, IDENTIFY_CHECKER_TASK_ID, payload)),
        ActionView::Identify(reply),
        ActionView::Report(LongLinkResponse::Connected),
    ]);
}

/// A run of events one after another is the run of the first ones followed
/// by the run of the others.
pub proof fn lemma_steps_concat<C: Codec>(
    codec: C,
    m: LinkModel,
    first: Seq<EventView>,
    second: Seq<EventView>,
)
    ensures
        steps(codec, m, first + second).0 == steps(codec, steps(codec, m, first).0, second).0,
        steps(codec, m, first + second).1 == steps(codec, m, first).1 + steps(
            codec,
            steps(codec, m, first).0,
            second,
        ).1,
    decreases first.len(),
{
    if first.len() == 0 {
        assert(first + second =~= second);
        assert(Seq::<ActionView>::empty() + steps(codec, m, second).1 =~= steps(
            codec,
            m,
            second,
        ).1);
    } else {
        let head = first[0];
        let tail = first.skip(1);
        let next = step(codec, m, head);
        assert(first =~= seq![head] + tail);
        assert(first + second =~= seq![head] + (tail + second));
        lemma_steps_first(codec, m, head, tail);
        lemma_steps_first(codec, m, head, tail + second);
        lemma_steps_concat(codec, next.0, tail, second);
        assert(next.1 + (steps(codec, next.0, tail).1 + steps(
            codec,
            steps(codec, next.0, tail).0,
            second,
        ).1) =~= (next.1 + steps(codec, next.0, tail).1) + steps(
            codec,
            steps(codec, next.0, tail).0,
            second,
        ).1);
    }
}

/// Requests to queue identify payloads on a live link append them to the
/// queue in their order and ask for nothing.
pub proof fn lemma_queueing_appends<C: Codec>(
    codec: C,
    m: LinkModel,
    entries: Seq<(Seq<u8>, CmdId)>,
)
    requires
        is_live(m.state),
    ensures
        steps(codec, m, queueing(entries)) == (
            LinkModel { queue: m.queue + entries, ..m },
            Seq::<ActionView>::empty(),
        ),
    decreases entries.len(),
{
    if entries.len() == 0 {
        assert(m.queue + entries =~= m.queue);
    } else {
        let head = EventView::Request(RequestView::Checkidentify(entries[0].0, entries[0].1));
        let next = step(codec, m, head);
        assert(queueing(entries) =~= seq![head] + queueing(entries.skip(1)));
        lemma_steps_first(codec, m, head, queueing(entries.skip(1)));
        lemma_queueing_appends(codec, next.0, entries.skip(1));
        assert(next.0.queue + entries.skip(1) =~= m.queue + entries);
        assert(next.1 + Seq::<ActionView>::empty() =~= Seq::<ActionView>::empty());
    }
}

/// On a live link with no write under way, as many rounds of writing as
/// there are queued payloads hand them all out, oldest first, and leave the
/// queue empty.
pub proof fn lemma_write_rounds_drain<C: Codec>(codec: C, m: LinkModel)
    requires
        is_live(m.state),
        !m.writing,
    ensures
        steps(codec, m, write_rounds(m.queue.len())) == (
            LinkModel { queue: Seq::empty(), ..m },
            sends(codec, m.queue),
        ),
    decreases m.queue.len(),
{
    if m.queue.len() == 0 {
        assert(m.queue =~= Seq::empty());
        assert(sends(codec, m.queue) =~= Seq::empty());
    } else {
        let handed = step(codec, m, EventView::Writable);
        let popped = step(codec, handed.0, EventView::Written);
        let rest = write_rounds((m.queue.len() - 1) as nat);
        assert(write_rounds(m.queue.len()) =~= seq![EventView::Writable] + (seq![
            EventView::Written,
        ] + rest));
        lemma_steps_first(codec, m, EventView::Writable, seq![EventView::Written] + rest);
        lemma_steps_first(codec, handed.0, EventView::Written, rest);
        assert(popped.0 == LinkModel { queue: m.queue.skip(1), ..m });
        lemma_write_rounds_drain(codec, popped.0);
        assert(handed.1 + (popped.1 + sends(codec, m.queue.skip(1))) =~= sends(codec, m.queue));
    }
}

/// Identify payloads go out in the order in which they were queued: on a
/// live link with nothing queued and no write under way, queueing payloads
/// and then writing as often as there are payloads hands out their frames,
/// oldest first, and leaves the link as it was.
pub proof fn lemma_identify_queue_is_fifo<C: Codec>(
    codec: C,
    m: LinkModel,
    entries: Seq<(Seq<u8>, CmdId)>,
)
    requires
        is_live(m.state),
        m.queue.len() == 0,
        !m.writing,
    ensures
        steps(codec, m, queueing(entries) + write_rounds(entries.len())) == (
            m,
            sends(codec, entries),
        ),
{
    let queued = LinkModel { queue: m.queue + entries, ..m };
    lemma_steps_concat(codec, m, queueing(entries), write_rounds(entries.len()));
    lemma_queueing_appends(codec, m, entries);
    assert(m.queue + entries =~= entries);
    lemma_write_rounds_drain(codec, queued);
    assert(m.queue =~= Seq::empty());
    assert(Seq::<ActionView>::empty() + sends(codec, entries) =~= sends(codec, entries));
}

/// Frames that arrive one behind the other come out in wire order: with the
/// default codec, decoding the bytes of `frames`, each with a payload of up
/// to 65535 bytes, followed by `tail` yields those frames first, in their
/// order, and then what decoding `tail` yields.
pub proof fn lemma_drain_in_wire_order(codec: DefaultCodec, frames: Seq<FrameView>, tail: Seq<u8>)
    requires
        forall|i: int| 0 <= i < frames.len() ==> (#[trigger] frames[i]).body.len() <= u16::MAX,
    ensures
        drain(codec, wire(codec.version(), frames) + tail) == (Drained {
            frames: frames + drain(codec, tail).frames,
            rest: drain(codec, tail).rest,
            failed: drain(codec, tail).failed,
        }),
    decreases frames.len(),
{
    let version = codec.version();
    let input = wire(version, frames) + tail;
    if frames.len() == 0 {
        assert(input =~= tail);
        assert(frames + drain(codec, tail).frames =~= drain(codec, tail).frames);
    } else {
        let first = frames[0];
        let others = frames.skip(1);
        let behind = wire(version, others) + tail;
        assert(input =~= frame_bytes(version, first.cmd_id, first.task_id, first.body) + behind);
        lemma_decode_encoded(version, first.cmd_id, first.task_id, first.body);
        lemma_decode_with_rest(version, first.cmd_id, first.task_id, first.body, behind);
        assert(front_frame(codec, input) == Some(first));
        lemma_drain_in_wire_order(codec, others, tail);
        assert(seq![first] + (others + drain(codec, tail).frames) =~= frames + drain(
            codec,
            tail,
        ).frames);
    }
}

} // verus!
