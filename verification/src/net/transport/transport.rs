//! The façade that a caller drives: it keeps the endpoint, starts the one
//! engine of its long link, and answers what the engine reports.
//!
//! Like the engine it does no input or output. Whoever owns the channels
//! hands it what the engine reported and carries out the action that comes
//! back.

use super::callback::Callback;
use super::endpoint::Endpoint;
use super::identify_mode::Mode;
use super::identify_step::Step;
use super::long_link::{
    initial_model, Frame, LongLink, LongLinkRequest, LongLinkResponse, RequestView,
};
use super::net_source::NetSource;
use crate::buffer::{AutoBuffer, DEFAULT_UNIT_SIZE};
use crate::codec::long_link::CmdId;
use crate::codec::long_link::Codec as LongLinkCodec;
use crate::codec::short_link::Codec as ShortLinkCodec;
use vstd::prelude::*;

verus! {

/// What is to be done for the façade.
#[derive(Debug)]
pub enum TransportAction {
    /// Nothing but to take the next report.
    Nothing,
    /// Send this request to the engine.
    Request(LongLinkRequest),
    /// Give the engine the shutdown signal.
    Shutdown,
    /// Take no further report: the link has ended.
    Stop,
}

/// An action of the façade as plain values.
pub enum TransportActionView {
    Nothing,
    Request(RequestView),
    Shutdown,
    Stop,
}

impl View for TransportAction {
    type V = TransportActionView;

    open spec fn view(&self) -> TransportActionView {
        match self {
            TransportAction::Nothing => TransportActionView::Nothing,
            TransportAction::Request(request) => TransportActionView::Request(request@),
            TransportAction::Shutdown => TransportActionView::Shutdown,
            TransportAction::Stop => TransportActionView::Stop,
        }
    }
}

/// What follows from the payload that a callback produced: it is queued
/// where the callback asked for `Now`; every other timing sends nothing.
pub open spec fn identify_request_spec(
    mode: Mode,
    cmd_id: CmdId,
    payload: Seq<u8>,
) -> TransportActionView {
    if mode == Mode::Now {
        TransportActionView::Request(RequestView::Checkidentify(payload, cmd_id))
    } else {
        TransportActionView::Nothing
    }
}

/// What follows from a callback's verdict on an identify response: an
/// accepted identity makes the engine drop its queue and connect, a refused
/// one shuts the link down. `Retry` settles nothing: a fresh payload is to
/// be asked for.
pub open spec fn identify_verdict_spec(step: Step) -> Option<TransportActionView> {
    match step {
        Step::Success => Some(TransportActionView::Request(RequestView::NoCheckidentify)),
        Step::Fail => Some(TransportActionView::Shutdown),
        Step::Retry => None,
    }
}

/// What the façade makes of a lifecycle report without asking the callback:
/// while the link comes up it goes on; when the link has ended, or there is
/// no report, it stops. After a connect it has to ask the callback.
pub open spec fn lifecycle_action(response: LongLinkResponse) -> Option<TransportActionView> {
    match response {
        LongLinkResponse::Connecting => Some(TransportActionView::Nothing),
        LongLinkResponse::Connected => Some(TransportActionView::Nothing),
        LongLinkResponse::Disconnected => Some(TransportActionView::Stop),
        LongLinkResponse::ConnectFail => Some(TransportActionView::Stop),
        LongLinkResponse::Idle => Some(TransportActionView::Stop),
        LongLinkResponse::Checkidentify => None,
    }
}

/// The state of the link as the façade knows it after a report.
pub open spec fn state_after(
    state: LongLinkResponse,
    response: LongLinkResponse,
) -> LongLinkResponse {
    if response == LongLinkResponse::Idle {
        state
    } else {
        response
    }
}

/// Whether `action` follows from an answer of the callback that was asked
/// for its identify payload: the callback, which was `before`, may have
/// produced a payload with its timing and command id and become `after`, and
/// `action` is what follows from those.
pub open spec fn asked_identify<CB: Callback>(
    before: CB,
    after: CB,
    action: TransportActionView,
) -> bool {
    exists|mode: Mode, cmd_id: CmdId, payload: Seq<u8>|
        #[trigger] before.may_produce(mode, cmd_id, payload, &after) && action
            == identify_request_spec(mode, cmd_id, payload)
}

/// Whether `action` follows from an answer of the callback that was asked
/// for its verdict on `payload`: the callback, which was `before`, may have
/// returned a verdict on that payload, and `action` is what the verdict
/// settles; where it settles nothing, the callback was then asked for a
/// fresh identify payload and `action` follows from that. `after` is the
/// callback behind its last answer.
pub open spec fn asked_verdict<CB: Callback>(
    before: CB,
    payload: Seq<u8>,
    after: CB,
    action: TransportActionView,
) -> bool {
    exists|step: Step, later: CB|
        #[trigger] before.may_judge(payload, step, &later) && match identify_verdict_spec(step) {
            Some(settled) => action == settled && after == later,
            None => asked_identify(later, after, action),
        }
}

/// The action for the payload that a callback produced.
pub fn identify_request(mode: Mode, cmd_id: CmdId, identify_buffer: AutoBuffer) -> (action:
    TransportAction)
    ensures
        action@ == identify_request_spec(mode, cmd_id, identify_buffer@),
{
    match mode {
        Mode::Now => TransportAction::Request(
            LongLinkRequest::Checkidentify((identify_buffer, cmd_id)),
        ),
        _ => TransportAction::Nothing,
    }
}

/// The action for a callback's verdict, where the verdict settles one.
pub fn identify_verdict(step: Step) -> (action: Option<TransportAction>)
    ensures
        match identify_verdict_spec(step) {
            Some(settled) => action matches Some(a) && a@ == settled,
            None => action is None,
        },
{
    match step {
        Step::Success => Some(TransportAction::Request(LongLinkRequest::NoCheckidentify)),
        Step::Fail => Some(TransportAction::Shutdown),
        Step::Retry => None,
    }
}

/// The façade of one long link.
pub struct Transport<L: LongLinkCodec, S: ShortLinkCodec, CB: Callback> {
    source: NetSource,
    callback: CB,
    long_link_codec: Option<L>,
    short_link_codec: S,
    long_link_state: LongLinkResponse,
}

impl<L: LongLinkCodec, S: ShortLinkCodec, CB: Callback> Transport<L, S, CB> {
    /// The endpoints that were set.
    pub closed spec fn source(&self) -> NetSource {
        self.source
    }

    /// The codec that waits for the engine; none once the engine has it.
    pub closed spec fn long_link_codec(&self) -> Option<L> {
        self.long_link_codec
    }

    /// Whether the engine of the long link was started.
    pub open spec fn long_link_established(&self) -> bool {
        self.long_link_codec().is_none()
    }

    /// The last lifecycle state that the engine reported.
    pub closed spec fn long_link_state(&self) -> LongLinkResponse {
        self.long_link_state
    }

    /// The callback that is asked in the identify exchange.
    pub closed spec fn callback(&self) -> CB {
        self.callback
    }

    /// A façade with no endpoint and no engine yet.
    pub fn new(long_link_codec: L, short_link_codec: S, callback: CB) -> (transport: Self)
        ensures
            transport.long_link_codec() == Some(long_link_codec),
            transport.callback() == callback,
            transport.long_link_state() == LongLinkResponse::Idle,
            transport.source().long().is_none(),
            transport.source().short().is_none(),
    {
        Transport {
            source: NetSource::new(),
            callback,
            long_link_codec: Some(long_link_codec),
            short_link_codec,
            long_link_state: LongLinkResponse::Idle,
        }
    }

    /// Starts the engine of the long link, once: the first call hands out the
    /// engine, not yet started, with the endpoint to connect it to; every
    /// later call hands out nothing and changes nothing. The endpoint must
    /// have been set before the first call.
    pub fn makesure_long_link_connected(&mut self) -> (started: Option<(LongLink<L>, Endpoint)>)
        requires
            old(self).long_link_established() || old(self).source().long().is_some(),
        ensures
            final(self).long_link_established(),
            final(self).source() == old(self).source(),
            final(self).callback() == old(self).callback(),
            final(self).long_link_state() == old(self).long_link_state(),
            old(self).long_link_established() ==> started is None,
            !old(self).long_link_established() ==> {
                &&& started matches Some(pair)
                &&& pair.0@ == initial_model()
                &&& Some(pair.0.codec()) == old(self).long_link_codec()
                &&& Some(pair.1) == old(self).source().long()
            },
    {
        match self.long_link_codec.take() {
            None => None,
            Some(codec) => {
                let endpoint = self.source.get_long_link_endpoint().unwrap();
                Some((LongLink::new(codec), endpoint))
            },
        }
    }

    /// Takes a lifecycle report of the engine and returns what to do next.
    /// After a connect the callback is asked for its identify payload, which
    /// is queued where the callback asks for that. No other report asks the
    /// callback.
    pub fn recv_response(&mut self, response: LongLinkResponse) -> (action: TransportAction)
        ensures
            final(self).long_link_state() == state_after(old(self).long_link_state(), response),
            final(self).source() == old(self).source(),
            final(self).long_link_codec() == old(self).long_link_codec(),
            match lifecycle_action(response) {
                Some(settled) => action@ == settled && final(self).callback() == old(
                    self,
                ).callback(),
                None => asked_identify(old(self).callback(), final(self).callback(), action@),
            },
    {
        match response {
            LongLinkResponse::Idle => TransportAction::Stop,
            LongLinkResponse::Connecting => {
                self.long_link_state = response;
                TransportAction::Nothing
            },
            LongLinkResponse::Connected => {
                self.long_link_state = response;
                TransportAction::Nothing
            },
            LongLinkResponse::Disconnected => {
                self.long_link_state = response;
                TransportAction::Stop
            },
            LongLinkResponse::ConnectFail => {
                self.long_link_state = response;
                TransportAction::Stop
            },
            LongLinkResponse::Checkidentify => {
                self.long_link_state = response;
                self.ask_identify()
            },
        }
    }

    /// Takes a frame that the engine decoded during the identify exchange,
    /// asks the callback for its verdict on the frame's payload and returns
    /// what the verdict settles. On `Retry` the callback is asked for a fresh
    /// payload, which is queued where the callback asks for that.
    pub fn recv_identify_response(&mut self, frame: &Frame) -> (action: TransportAction)
        ensures
            final(self).long_link_state() == old(self).long_link_state(),
            final(self).source() == old(self).source(),
            final(self).long_link_codec() == old(self).long_link_codec(),
            asked_verdict(old(self).callback(), frame@.body, final(self).callback(), action@),
    {
        let step = self.callback.verify_long_link_identify(&frame.body);
        let ghost later = self.callback;
        assert(old(self).callback().may_judge(frame@.body, step, &later));
        match identify_verdict(step) {
            Some(action) => action,
            None => self.ask_identify(),
        }
    }

    /// Whether the engine of the long link was started.
    pub fn long_link_is_established(&self) -> (established: bool)
        ensures
            established == self.long_link_established(),
    {
        self.long_link_codec.is_none()
    }

    /// The endpoint that was set for the long link.
    pub fn get_long_link_endpoint(&self) -> (endpoint: Option<Endpoint>)
        ensures
            endpoint == self.source().long(),
    {
        self.source.get_long_link_endpoint()
    }

    /// Whether the engine reported the link as connected, and nothing since.
    pub fn long_link_is_connected(&self) -> (connected: bool)
        ensures
            connected == (self.long_link_state() == LongLinkResponse::Connected),
    {
        self.long_link_state == LongLinkResponse::Connected
    }

    /// Sets the endpoint that the long link connects to. It counts for the
    /// engine that is started after it.
    pub fn set_long_link_endpoint(&mut self, endpoint: Endpoint)
        ensures
            final(self).source().long() == Some(endpoint),
            final(self).source().short() == old(self).source().short(),
            final(self).long_link_codec() == old(self).long_link_codec(),
            final(self).callback() == old(self).callback(),
            final(self).long_link_state() == old(self).long_link_state(),
    {
        self.source.set_long_link_endpoint(endpoint);
    }

    /// Asks the callback for an identify payload, in an empty buffer, and
    /// returns what follows from its answer.
    fn ask_identify(&mut self) -> (action: TransportAction)
        ensures
            final(self).long_link_state() == old(self).long_link_state(),
            final(self).source() == old(self).source(),
            final(self).long_link_codec() == old(self).long_link_codec(),
            asked_identify(old(self).callback(), final(self).callback(), action@),
    {
        let mut identify_buffer = AutoBuffer::new(DEFAULT_UNIT_SIZE);
        let (mode, cmd_id) = self.callback.get_long_link_identify_check_buffer(
            &mut identify_buffer,
        );
        identify_request(mode, cmd_id, identify_buffer)
    }
}

} // verus!
