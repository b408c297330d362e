//! The WebSocket long-connection: frames, reconnecting, and where to connect.

use crate::contracts::{ConnectionState, InboundMessage, InboundView};
use crate::event::{event_message, parse_event_json, view_message};
use crate::feishu::{
    address, address_of, api_error, ask_tenant_token, code_tells_success, find_api_error,
    pair_document, read_reply, read_text_reply, render_pair, reply_document, text_reply_document,
    token_request, view_payload, view_text_result, ApiRequest, ApiRequestView, FeishuError, FeishuErrorView, FeishuWsConfig,
    HttpReply, HttpView, PayloadView,
};
use crate::json::{at, holds_object, json_read, json_text, text_of, Json, JsonView};
use crate::text::{decimal, glue, same, view_opt_str};
use vstd::prelude::*;
use vstd::utf8::{decode_utf8, encode_utf8, valid_utf8};

verus! {

// ---------------------------------------------------------------------------
// Frames
// ---------------------------------------------------------------------------

/// A header of a frame.
#[derive(Debug, Clone, PartialEq, Eq)]
pub struct PbHeader {
    pub key: String,
    pub value: String,
}

/// A frame of the long-connection.
#[derive(Debug, Clone, PartialEq, Eq)]
pub struct PbFrame {
    pub seq_id: u64,
    pub log_id: u64,
    pub service: i32,
    pub method: i32,
    pub headers: Vec<PbHeader>,
    pub payload_encoding: String,
    pub payload_type: String,
    pub payload: Vec<u8>,
    pub log_id_new: String,
}

/// What a `PbFrame` says. A header is its key and its value.
#[verifier::ext_equal]
pub ghost struct FrameView {
    pub seq_id: u64,
    pub log_id: u64,
    pub service: i32,
    pub method: i32,
    pub headers: Seq<(Seq<char>, Seq<char>)>,
    pub payload_encoding: Seq<char>,
    pub payload_type: Seq<char>,
    pub payload: Seq<u8>,
    pub log_id_new: Seq<char>,
}

/// The views of some headers.
pub open spec fn view_headers(headers: Seq<PbHeader>) -> Seq<(Seq<char>, Seq<char>)> {
    headers.map_values(|h: PbHeader| (h.key@, h.value@))
}

impl View for PbFrame {
    type V = FrameView;

    open spec fn view(&self) -> FrameView {
        FrameView {
            seq_id: self.seq_id,
            log_id: self.log_id,
            service: self.service,
            method: self.method,
            headers: view_headers(self.headers@),
            payload_encoding: self.payload_encoding@,
            payload_type: self.payload_type@,
            payload: self.payload@,
            log_id_new: self.log_id_new@,
        }
    }
}

pub const METHOD_CONTROL: i32 = 0;

pub const METHOD_DATA: i32 = 1;

/// The value of the first header with a key.
pub open spec fn header_value(headers: Seq<(Seq<char>, Seq<char>)>, key: Seq<char>) -> Option<
    Seq<char>,
>
    decreases headers.len(),
{
    if headers.len() == 0 {
        None
    } else if headers[0].0 == key {
        Some(headers[0].1)
    } else {
        header_value(headers.skip(1), key)
    }
}

/// A copy of some headers.
fn copy_headers(headers: &Vec<PbHeader>) -> (r: Vec<PbHeader>)
    ensures
        view_headers(r@) == view_headers(headers@),
{
    let mut out: Vec<PbHeader> = Vec::new();
    let mut i: usize = 0;
    while i < headers.len()
        invariant
            i <= headers@.len(),
            out@.len() == i,
            forall|j: int|
                0 <= j < i ==> (#[trigger] out@[j]).key@ == headers@[j].key@ && out@[j].value@
                    == headers@[j].value@,
        decreases headers@.len() - i,
    {
        let h = &headers[i];
        out.push(PbHeader { key: h.key.clone(), value: h.value.clone() });
        i += 1;
    }
    assert(view_headers(out@) =~= view_headers(headers@));
    out
}

impl PbFrame {
    /// The value of the first header with the key `key`.
    pub fn header(&self, key: &str) -> (r: Option<&str>)
        ensures
            view_opt_str(r) == header_value(self@.headers, key@),
    {
        let ghost model = view_headers(self.headers@);
        let mut i: usize = 0;
        assert(model.skip(0) =~= model);
        while i < self.headers.len()
            invariant
                i <= self.headers@.len(),
                model == view_headers(self.headers@),
                model == self@.headers,
                header_value(model, key@) == header_value(model.skip(i as int), key@),
            decreases self.headers@.len() - i,
        {
            assert(model.skip(i as int)[0] == (
                self.headers@[i as int].key@,
                self.headers@[i as int].value@,
            ));
            if same(self.headers[i].key.as_str(), key) {
                return Some(self.headers[i].value.as_str());
            }
            assert(model.skip(i as int).skip(1) =~= model.skip(i + 1));
            i += 1;
        }
        None
    }

    /// The frame with other headers and another payload.
    fn with_contents(&self, headers: Vec<PbHeader>, payload: Vec<u8>) -> (r: PbFrame)
        ensures
            r@ == (FrameView {
                headers: view_headers(headers@),
                payload: payload@,
                ..self@
            }),
    {
        PbFrame {
            seq_id: self.seq_id,
            log_id: self.log_id,
            service: self.service,
            method: self.method,
            headers,
            payload_encoding: self.payload_encoding.clone(),
            payload_type: self.payload_type.clone(),
            payload,
            log_id_new: self.log_id_new.clone(),
        }
    }
}

/// The type of a frame; empty where none is given.
pub open spec fn frame_type(frame: FrameView) -> Seq<char> {
    crate::text::or_text(header_value(frame.headers, "type"@), ""@)
}

/// The answer to a ping: the same frame as a pong, without a payload.
pub open spec fn pong_of(frame: FrameView) -> FrameView {
    FrameView { headers: seq![("type"@, "pong"@)], payload: seq![], ..frame }
}

/// The payload that acknowledges an event.
pub const ACK_PAYLOAD: &'static str = "{\"code\":200}";

/// The acknowledgement of an event: the same frame with another payload.
pub open spec fn ack_of(frame: FrameView) -> FrameView {
    FrameView { payload: encode_utf8(ACK_PAYLOAD@), ..frame }
}

/// The frame to send back for a frame: a pong for a ping, an acknowledgement for an
/// event, and nothing else.
pub open spec fn frame_answer(frame: FrameView) -> Option<FrameView> {
    if frame.method == METHOD_CONTROL && frame_type(frame) == "ping"@ {
        Some(pong_of(frame))
    } else if frame.method == METHOD_DATA && frame_type(frame) == "event"@ {
        Some(ack_of(frame))
    } else {
        None
    }
}

/// The message in a frame: only an event holds one, if its payload is text.
pub open spec fn frame_message(frame: FrameView) -> Option<InboundView> {
    if frame.method == METHOD_DATA && frame_type(frame) == "event"@ && valid_utf8(frame.payload) {
        event_message(decode_utf8(frame.payload))
    } else {
        None
    }
}

/// `String::from_utf8`: the text that some bytes encode, if they encode one.
#[verifier::external_body]
fn text_from_utf8(bytes: Vec<u8>) -> (r: Option<String>)
    ensures
        match r {
            Some(s) => valid_utf8(bytes@) && s@ == decode_utf8(bytes@),
            None => !valid_utf8(bytes@),
        },
{
    String::from_utf8(bytes).ok()
}

/// The view of an optional frame.
pub open spec fn view_frame(o: Option<PbFrame>) -> Option<FrameView> {
    match o {
        Some(f) => Some(f@),
        None => None,
    }
}

/// The frame to send back for a frame, and the message in it.
pub fn handle_frame(frame: PbFrame) -> (r: (Option<PbFrame>, Option<InboundMessage>))
    ensures
        view_frame(r.0) == frame_answer(frame@),
        view_message(r.1) == frame_message(frame@),
{
    let kind: &str = match frame.header("type") {
        Some(t) => t,
        None => "",
    };
    if frame.method == METHOD_CONTROL && same(kind, "ping") {
        let headers: Vec<PbHeader> = vec![
            PbHeader { key: "type".to_owned(), value: "pong".to_owned() },
        ];
        let payload: Vec<u8> = Vec::new();
        let pong = frame.with_contents(headers, payload);
        assert(pong@.headers =~= seq![("type"@, "pong"@)]);
        return (Some(pong), None);
    }
    if frame.method == METHOD_DATA && same(kind, "event") {
        let ack = frame.with_contents(
            copy_headers(&frame.headers),
            ACK_PAYLOAD.as_bytes_vec(),
        );
        let message: Option<InboundMessage> = match text_from_utf8(frame.payload) {
            Some(text) => parse_event_json(text.as_str()),
            None => None,
        };
        return (Some(ack), message);
    }
    (None, None)
}

// ---------------------------------------------------------------------------
// What comes over the connection
// ---------------------------------------------------------------------------

/// What the connection brings.
#[derive(Debug)]
pub enum WsEvent {
    Text(String),
    Frame(PbFrame),
    /// A frame that could not be decoded.
    BadFrame,
    Ping(Vec<u8>),
    Closed,
    /// There was no connection to begin with.
    NotConnected(String),
    Failed(String),
    /// Anything else.
    Other,
    /// Nobody takes messages any more.
    Abandoned,
    /// The agent wants to stop.
    Cancelled,
}

/// What a `WsEvent` says.
#[verifier::ext_equal]
pub ghost enum WsEventView {
    Text(Seq<char>),
    Frame(FrameView),
    BadFrame,
    Ping(Seq<u8>),
    Closed,
    NotConnected(Seq<char>),
    Failed(Seq<char>),
    Other,
    Abandoned,
    Cancelled,
}

impl View for WsEvent {
    type V = WsEventView;

    open spec fn view(&self) -> WsEventView {
        match *self {
            WsEvent::Text(s) => WsEventView::Text(s@),
            WsEvent::Frame(f) => WsEventView::Frame(f@),
            WsEvent::BadFrame => WsEventView::BadFrame,
            WsEvent::Ping(data) => WsEventView::Ping(data@),
            WsEvent::Closed => WsEventView::Closed,
            WsEvent::NotConnected(e) => WsEventView::NotConnected(e@),
            WsEvent::Failed(e) => WsEventView::Failed(e@),
            WsEvent::Other => WsEventView::Other,
            WsEvent::Abandoned => WsEventView::Abandoned,
            WsEvent::Cancelled => WsEventView::Cancelled,
        }
    }
}

/// What is sent over the connection.
#[derive(Debug)]
pub enum WsAnswer {
    Frame(PbFrame),
    Pong(Vec<u8>),
    Close,
}

/// What a `WsAnswer` says.
#[verifier::ext_equal]
pub ghost enum WsAnswerView {
    Frame(FrameView),
    Pong(Seq<u8>),
    Close,
}

impl View for WsAnswer {
    type V = WsAnswerView;

    open spec fn view(&self) -> WsAnswerView {
        match *self {
            WsAnswer::Frame(f) => WsAnswerView::Frame(f@),
            WsAnswer::Pong(data) => WsAnswerView::Pong(data@),
            WsAnswer::Close => WsAnswerView::Close,
        }
    }
}

/// How a session ends.
#[derive(Debug, Clone, PartialEq, Eq)]
pub enum SessionEnd {
    Normal,
    Error(FeishuError),
}

/// What is to be done about an event: what is sent first, what is handed on then, and
/// whether the session is over.
#[derive(Debug)]
pub struct WsReaction {
    pub answer: Option<WsAnswer>,
    pub message: Option<InboundMessage>,
    pub end: Option<SessionEnd>,
}

/// How a session ends, as seen in contracts: normally, or with an error.
#[verifier::ext_equal]
pub ghost enum SessionEndView {
    Normal,
    Error(FeishuErrorView),
}

/// What a `WsReaction` says.
#[verifier::ext_equal]
pub ghost struct ReactionView {
    pub answer: Option<WsAnswerView>,
    pub message: Option<InboundView>,
    pub end: Option<SessionEndView>,
}

impl View for WsReaction {
    type V = ReactionView;

    open spec fn view(&self) -> ReactionView {
        ReactionView {
            answer: match self.answer {
                Some(a) => Some(a@),
                None => None,
            },
            message: view_message(self.message),
            end: match self.end {
                Some(SessionEnd::Normal) => Some(SessionEndView::Normal),
                Some(SessionEnd::Error(e)) => Some(SessionEndView::Error(e@)),
                None => None,
            },
        }
    }
}

/// What is to be done about an event.
pub open spec fn reaction(event: WsEventView) -> ReactionView {
    let nothing = ReactionView { answer: None, message: None, end: None };
    match event {
        WsEventView::Text(raw) => ReactionView { message: event_message(raw), ..nothing },
        WsEventView::Frame(frame) => ReactionView {
            answer: match frame_answer(frame) {
                Some(f) => Some(WsAnswerView::Frame(f)),
                None => None,
            },
            message: frame_message(frame),
            end: None,
        },
        WsEventView::Ping(data) => ReactionView { answer: Some(WsAnswerView::Pong(data)), ..nothing
        },
        WsEventView::Closed => ReactionView { end: Some(SessionEndView::Normal), ..nothing },
        WsEventView::Abandoned => ReactionView { end: Some(SessionEndView::Normal), ..nothing },
        WsEventView::NotConnected(e) => ReactionView {
            end: Some(SessionEndView::Error(FeishuErrorView::Request("WS connect failed: "@ + e))),
            ..nothing
        },
        WsEventView::Failed(e) => ReactionView {
            end: Some(SessionEndView::Error(FeishuErrorView::Request("WS read error: "@ + e))),
            ..nothing
        },
        WsEventView::Cancelled => ReactionView {
            answer: Some(WsAnswerView::Close),
            end: Some(SessionEndView::Normal),
            ..nothing
        },
        WsEventView::BadFrame => nothing,
        WsEventView::Other => nothing,
    }
}

/// Decides what is to be done about an event.
pub fn connect_and_receive(event: WsEvent) -> (r: WsReaction)
    ensures
        r@ == reaction(event@),
{
    match event {
        WsEvent::Text(raw) => WsReaction {
            answer: None,
            message: parse_event_json(raw.as_str()),
            end: None,
        },
        WsEvent::Frame(frame) => {
            let (answer, message) = handle_frame(frame);
            match answer {
                Some(f) => WsReaction { answer: Some(WsAnswer::Frame(f)), message, end: None },
                None => WsReaction { answer: None, message, end: None },
            }
        },
        WsEvent::Ping(data) => WsReaction {
            answer: Some(WsAnswer::Pong(data)),
            message: None,
            end: None,
        },
        WsEvent::Closed => WsReaction {
            answer: None,
            message: None,
            end: Some(SessionEnd::Normal),
        },
        WsEvent::Abandoned => WsReaction {
            answer: None,
            message: None,
            end: Some(SessionEnd::Normal),
        },
        WsEvent::NotConnected(e) => WsReaction {
            answer: None,
            message: None,
            end: Some(
                SessionEnd::Error(FeishuError::Request(glue("WS connect failed: ", e.as_str()))),
            ),
        },
        WsEvent::Failed(e) => WsReaction {
            answer: None,
            message: None,
            end: Some(
                SessionEnd::Error(FeishuError::Request(glue("WS read error: ", e.as_str()))),
            ),
        },
        WsEvent::Cancelled => WsReaction {
            answer: Some(WsAnswer::Close),
            message: None,
            end: Some(SessionEnd::Normal),
        },
        WsEvent::BadFrame => WsReaction { answer: None, message: None, end: None },
        WsEvent::Other => WsReaction { answer: None, message: None, end: None },
    }
}

// ---------------------------------------------------------------------------
// Where to connect
// ---------------------------------------------------------------------------

pub const URL_PATH: [&'static str; 2] = ["data", "URL"];

pub const LOWER_URL_PATH: [&'static str; 2] = ["data", "url"];

pub const ENDPOINT_PATH: [&'static str; 2] = ["data", "endpoint"];

/// What finding the address waits for.
#[derive(Debug, Clone, Copy, PartialEq, Eq, Structural)]
pub enum UrlState {
    Token,
    Endpoint,
}

/// Where finding the address stands: it asks, or it is over.
#[derive(Debug)]
pub enum UrlStep {
    Ask(ApiRequest, UrlState),
    Done(Result<String, FeishuError>),
}

/// What a `UrlStep` says.
#[verifier::ext_equal]
pub ghost enum UrlStepView {
    Ask(ApiRequestView, UrlState),
    Done(Result<Seq<char>, FeishuErrorView>),
}

impl View for UrlStep {
    type V = UrlStepView;

    open spec fn view(&self) -> UrlStepView {
        match *self {
            UrlStep::Ask(request, state) => UrlStepView::Ask(request@, state),
            UrlStep::Done(r) => UrlStepView::Done(view_text_result(r)),
        }
    }
}

/// The question for the address.
pub open spec fn url_request(config: FeishuWsConfig) -> ApiRequestView {
    ApiRequestView {
        url: address(config.domain@, "/callback/ws/endpoint"@),
        token: None,
        body: Some(
            json_text(pair_document("AppID"@, config.app_id@, "AppSecret"@, config.app_secret@)),
        ),
        locale: Some("zh"@),
    }
}

/// The first of three members that is there, whatever it is.
pub open spec fn url_member(payload: JsonView) -> Option<JsonView> {
    if at(payload, URL_PATH@) is Some {
        at(payload, URL_PATH@)
    } else if at(payload, LOWER_URL_PATH@) is Some {
        at(payload, LOWER_URL_PATH@)
    } else {
        at(payload, ENDPOINT_PATH@)
    }
}

/// The address in a document.
pub open spec fn ws_url(payload: JsonView) -> Result<Seq<char>, FeishuErrorView> {
    match api_error(payload, "unknown"@) {
        Some(e) => Err(e),
        None => match text_of(url_member(payload)) {
            Some(url) => Ok(url),
            None => Err(FeishuErrorView::MissingField("data.URL"@)),
        },
    }
}

/// Reads the address from a document.
pub fn read_ws_url(payload: &Json) -> (r: Result<String, FeishuError>)
    ensures
        view_text_result(r) == ws_url(payload@),
{
    match find_api_error(payload, "unknown") {
        Some(e) => {
            return Err(e);
        },
        None => {},
    }
    let found: Option<&Json> = match payload.path(URL_PATH.as_slice()) {
        Some(j) => Some(j),
        None => match payload.path(LOWER_URL_PATH.as_slice()) {
            Some(j) => Some(j),
            None => payload.path(ENDPOINT_PATH.as_slice()),
        },
    };
    match found {
        Some(j) => match j.as_str() {
            Some(url) => Ok(url.to_owned()),
            None => Err(FeishuError::MissingField("data.URL")),
        },
        None => Err(FeishuError::MissingField("data.URL")),
    }
}

/// How finding the address goes on after an answer, given the document in it: the
/// credentials must be good for a token before the address is asked for.
pub open spec fn url_next(
    config: FeishuWsConfig,
    state: UrlState,
    payload: PayloadView,
) -> UrlStepView {
    match payload {
        Err(e) => UrlStepView::Done(Err(e)),
        Ok(j) => match state {
            UrlState::Token => match api_error(j, "unknown"@) {
                Some(e) => UrlStepView::Done(Err(e)),
                None => UrlStepView::Ask(url_request(config), UrlState::Endpoint),
            },
            UrlState::Endpoint => UrlStepView::Done(ws_url(j)),
        },
    }
}

/// The document in an answer while the address is looked for. The answer with the
/// address is taken as a text.
pub open spec fn url_document(state: UrlState, reply: HttpView) -> PayloadView {
    match state {
        UrlState::Token => reply_document(reply),
        UrlState::Endpoint => text_reply_document(reply),
    }
}

/// Starts finding the address.
pub fn begin_ws_url(config: &FeishuWsConfig) -> (r: UrlStep)
    ensures
        r@ == UrlStepView::Ask(token_request(*config), UrlState::Token),
{
    UrlStep::Ask(ask_tenant_token(config), UrlState::Token)
}

/// Goes on with finding the address after an answer.
pub fn obtain_ws_url(config: &FeishuWsConfig, state: UrlState, reply: HttpReply) -> (r: UrlStep)
    ensures
        r@ == url_next(*config, state, url_document(state, reply@)),
{
    let payload = match state {
        UrlState::Token => read_reply(reply),
        UrlState::Endpoint => read_text_reply(reply),
    };
    resume_ws_url(config, state, payload)
}

/// Goes on with finding the address, given the document in an answer.
pub fn resume_ws_url(
    config: &FeishuWsConfig,
    state: UrlState,
    payload: Result<Json, FeishuError>,
) -> (r: UrlStep)
    ensures
        r@ == url_next(*config, state, view_payload(payload)),
{
    let j = match payload {
        Ok(j) => j,
        Err(e) => {
            return UrlStep::Done(Err(e));
        },
    };
    match state {
        UrlState::Token => match find_api_error(&j, "unknown") {
            Some(e) => UrlStep::Done(Err(e)),
            None => UrlStep::Ask(
                ApiRequest {
                    url: address_of(config.domain.as_str(), "/callback/ws/endpoint"),
                    token: None,
                    body: Some(
                        render_pair(
                            "AppID",
                            config.app_id.as_str(),
                            "AppSecret",
                            config.app_secret.as_str(),
                        ),
                    ),
                    locale: Some("zh"),
                },
                UrlState::Endpoint,
            ),
        },
        UrlState::Endpoint => UrlStep::Done(read_ws_url(&j)),
    }
}

// ---------------------------------------------------------------------------
// Reconnecting
// ---------------------------------------------------------------------------

/// The longest wait before connecting again, in seconds.
pub const MAX_BACKOFF: u64 = 30;

/// What the reconnect loop does next.
#[derive(Debug, Clone, Copy, PartialEq, Eq, Structural)]
pub enum LoopAction {
    Stop,
    Connect,
    /// Wait that many seconds.
    Wait(u64),
}

/// What the connection is said to be doing, for what the loop does next.
pub open spec fn state_for(action: LoopAction) -> ConnectionState {
    match action {
        LoopAction::Stop => ConnectionState::Stopped,
        LoopAction::Connect => ConnectionState::Connecting,
        LoopAction::Wait(_) => ConnectionState::Reconnecting,
    }
}

/// What the connection is said to be doing, for what the loop does next.
pub fn connection_state(action: LoopAction) -> (r: ConnectionState)
    ensures
        r == state_for(action),
{
    match action {
        LoopAction::Stop => ConnectionState::Stopped,
        LoopAction::Connect => ConnectionState::Connecting,
        LoopAction::Wait(_) => ConnectionState::Reconnecting,
    }
}

/// The reconnect loop: how long to wait before connecting again, in seconds.
#[derive(Debug, Clone, Copy, PartialEq, Eq, Structural)]
pub struct Reconnect {
    pub backoff: u64,
}

/// Whether a wait is between one second and the longest.
pub open spec fn is_backoff(r: Reconnect) -> bool {
    1 <= r.backoff <= MAX_BACKOFF
}

/// The wait after a wait.
pub open spec fn longer(backoff: u64) -> u64 {
    if 2 * backoff <= MAX_BACKOFF {
        (2 * backoff) as u64
    } else {
        MAX_BACKOFF
    }
}

impl Reconnect {
    /// The loop before the first attempt.
    pub fn new() -> (r: Self)
        ensures
            r.backoff == 1,
            is_backoff(r),
    {
        Reconnect { backoff: 1 }
    }

    /// What to do at the start of a round.
    pub fn next_round(&self, cancelled: bool) -> (r: LoopAction)
        ensures
            r == if cancelled {
                LoopAction::Stop
            } else {
                LoopAction::Connect
            },
    {
        if cancelled {
            LoopAction::Stop
        } else {
            LoopAction::Connect
        }
    }

    /// What to do after an attempt. Once there was an address to connect to, the wait
    /// is one second again.
    pub fn after_attempt(&mut self, had_address: bool, cancelled: bool) -> (r: LoopAction)
        requires
            is_backoff(*old(self)),
        ensures
            is_backoff(*final(self)),
            final(self).backoff == if had_address {
                1
            } else {
                old(self).backoff
            },
            r == if cancelled {
                LoopAction::Stop
            } else {
                LoopAction::Wait(final(self).backoff)
            },
    {
        if had_address {
            self.backoff = 1;
        }
        if cancelled {
            LoopAction::Stop
        } else {
            LoopAction::Wait(self.backoff)
        }
    }

    /// After a wait the next one is twice as long, up to the longest. A wait that was
    /// interrupted changes nothing.
    pub fn after_wait(&mut self, interrupted: bool)
        requires
            is_backoff(*old(self)),
        ensures
            is_backoff(*final(self)),
            final(self).backoff == if interrupted {
                old(self).backoff
            } else {
                longer(old(self).backoff)
            },
    {
        if !interrupted {
            if self.backoff * 2 <= MAX_BACKOFF {
                self.backoff = self.backoff * 2;
            } else {
                self.backoff = MAX_BACKOFF;
            }
        }
    }
}

// ---------------------------------------------------------------------------
// Laws
// ---------------------------------------------------------------------------

/// The wait after `failures` failures in a row.
pub open spec fn wait_after(failures: nat) -> u64
    decreases failures,
{
    if failures == 0 {
        1
    } else {
        longer(wait_after((failures - 1) as nat))
    }
}

/// Waits double from one second on, never exceed the longest, and stay there.
pub proof fn waits_are_bounded(failures: nat)
    ensures
        1 <= wait_after(failures) <= MAX_BACKOFF,
        wait_after(failures) <= wait_after(failures + 1),
        failures >= 5 ==> wait_after(failures) == MAX_BACKOFF,
    decreases failures,
{
    if failures > 0 {
        waits_are_bounded((failures - 1) as nat);
        if failures == 5 {
            reveal_with_fuel(wait_after, 6);
            assert(wait_after(5) == MAX_BACKOFF);
        }
    }
}

/// A pong keeps everything of its ping but the headers and the payload.
pub proof fn pong_keeps_frame(frame: FrameView)
    requires
        frame.method == METHOD_CONTROL,
        frame_type(frame) == "ping"@,
    ensures
        frame_answer(frame) matches Some(pong) && {
            &&& pong.seq_id == frame.seq_id
            &&& pong.log_id == frame.log_id
            &&& pong.service == frame.service
            &&& pong.method == frame.method
            &&& pong.payload_encoding == frame.payload_encoding
            &&& pong.payload_type == frame.payload_type
            &&& pong.log_id_new == frame.log_id_new
            &&& frame_type(pong) == "pong"@
            &&& pong.payload.len() == 0
        },
{
    assert(pong_of(frame).headers[0] == ("type"@, "pong"@));
}

/// Every event is acknowledged with its own frame, whether or not there is a message in
/// it, and nothing but an event holds a message.
pub proof fn every_event_is_acknowledged(frame: FrameView)
    ensures
        frame.method == METHOD_DATA && frame_type(frame) == "event"@ ==> frame_answer(frame)
            == Some(ack_of(frame)),
        frame_message(frame) is Some ==> frame_answer(frame) == Some(ack_of(frame)),
        ack_of(frame).headers == frame.headers && ack_of(frame).seq_id == frame.seq_id,
{
}

/// The value of a header is that of the first one with its key; without one there is none.
pub proof fn first_header_counts(
    others: Seq<(Seq<char>, Seq<char>)>,
    key: Seq<char>,
    value: Seq<char>,
    rest: Seq<(Seq<char>, Seq<char>)>,
)
    requires
        forall|i: int| 0 <= i < others.len() ==> (#[trigger] others[i]).0 != key,
    ensures
        header_value(others + seq![(key, value)] + rest, key) == Some(value),
        header_value(others, key) is None,
    decreases others.len(),
{
    let all = others + seq![(key, value)] + rest;
    if others.len() > 0 {
        assert(others[0].0 != key);
        assert(all[0] == others[0]);
        assert(all.skip(1) =~= others.skip(1) + seq![(key, value)] + rest);
        assert forall|i: int| 0 <= i < others.skip(1).len() implies (
        #[trigger] others.skip(1)[i]).0 != key by {
            assert(others.skip(1)[i] == others[i + 1]);
        }
        first_header_counts(others.skip(1), key, value, rest);
    } else {
        assert(all[0] == (key, value));
    }
}

/// A frame that brings an event is acknowledged with the same frame and the payload
/// `{"code":200}`, and its message is that of the text that its payload is. A ping is
/// answered with a pong, and no other frame is answered or holds a message.
pub proof fn frames_are_answered(frame: FrameView)
    ensures
        ({
            let kind = header_value(frame.headers, "type"@);
            let is_event = frame.method == 1 && kind == Some("event"@);
            let is_ping = frame.method == 0 && kind == Some("ping"@);
            &&& is_event ==> frame_answer(frame) == Some(
                (FrameView { payload: encode_utf8("{\"code\":200}"@), ..frame }),
            )
            &&& is_event && valid_utf8(frame.payload) ==> frame_message(frame) == event_message(
                decode_utf8(frame.payload),
            )
            &&& is_ping ==> frame_answer(frame) == Some(
                (FrameView { headers: seq![("type"@, "pong"@)], payload: seq![], ..frame }),
            )
            &&& !is_event ==> frame_message(frame) is None
            &&& !is_event && !is_ping ==> frame_answer(frame) is None
        }),
{
    reveal_strlit("");
    reveal_strlit("ping");
    reveal_strlit("event");
    assert("ping"@.len() == 4 && "event"@.len() == 5 && ""@.len() == 0);
}

/// What comes over the connection is dealt with as it should be: a text is read as an
/// event, a ping is sent back as it came, an end ends the session, and so does an error,
/// which is told.
pub proof fn connection_is_served(raw: Seq<char>, data: Seq<u8>, why: Seq<char>, frame: FrameView)
    ensures
        reaction(WsEventView::Text(raw)) == (ReactionView {
            answer: None,
            message: event_message(raw),
            end: None,
        }),
        reaction(WsEventView::Frame(frame)).message == frame_message(frame),
        reaction(WsEventView::Frame(frame)).end is None,
        frame_answer(frame) matches Some(f) ==> reaction(WsEventView::Frame(frame)).answer == Some(
            WsAnswerView::Frame(f),
        ),
        frame_answer(frame) is None ==> reaction(WsEventView::Frame(frame)).answer is None,
        reaction(WsEventView::Ping(data)) == (ReactionView {
            answer: Some(WsAnswerView::Pong(data)),
            message: None,
            end: None,
        }),
        reaction(WsEventView::Closed) == (ReactionView {
            answer: None,
            message: None,
            end: Some(SessionEndView::Normal),
        }),
        reaction(WsEventView::Abandoned) == (ReactionView {
            answer: None,
            message: None,
            end: Some(SessionEndView::Normal),
        }),
        reaction(WsEventView::Cancelled) == (ReactionView {
            answer: Some(WsAnswerView::Close),
            message: None,
            end: Some(SessionEndView::Normal),
        }),
        reaction(WsEventView::NotConnected(why)) == (ReactionView {
            answer: None,
            message: None,
            end: Some(
                SessionEndView::Error(FeishuErrorView::Request("WS connect failed: "@ + why)),
            ),
        }),
        reaction(WsEventView::Failed(why)) == (ReactionView {
            answer: None,
            message: None,
            end: Some(SessionEndView::Error(FeishuErrorView::Request("WS read error: "@ + why))),
        }),
        reaction(WsEventView::BadFrame) == (ReactionView { answer: None, message: None, end: None }),
        reaction(WsEventView::Other) == (ReactionView { answer: None, message: None, end: None }),
{
}

proof fn lemma_data_member(
    top: Map<Seq<char>, JsonView>,
    data: Map<Seq<char>, JsonView>,
    path: Seq<&'static str>,
    key: Seq<char>,
)
    requires
        holds_object(top, "data"@, data),
        path.len() == 2,
        path[0]@ == "data"@,
        path[1]@ == key,
    ensures
        at(JsonView::Object(top), path) == (if data.contains_key(key) {
            Some(data[key])
        } else {
            None
        }),
{
    reveal_with_fuel(at, 3);
    assert(path.skip(1)[0] == path[1]);
    assert(path.skip(1).skip(1).len() == 0);
}

/// The address to connect to is the one in the answer, as it is: under `URL`, else under
/// `url`, else under `endpoint`.
pub proof fn address_is_read(
    top: Map<Seq<char>, JsonView>,
    data: Map<Seq<char>, JsonView>,
    url: Seq<char>,
)
    requires
        top.contains_key("code"@),
        top["code"@] == JsonView::Number(decimal(0)),
        holds_object(top, "data"@, data),
    ensures
        ({
            let read = ws_url(JsonView::Object(top));
            let upper = data.contains_key("URL"@);
            let lower = data.contains_key("url"@);
            let other = data.contains_key("endpoint"@);
            let given = Ok::<_, FeishuErrorView>(url);
            &&& upper && data["URL"@] == JsonView::Text(url) ==> read == given
            &&& !upper && lower && data["url"@] == JsonView::Text(url) ==> read == given
            &&& !upper && !lower && other && data["endpoint"@] == JsonView::Text(url) ==> read
                == given
            &&& !upper && !lower && !other ==> read == Err::<Seq<char>, _>(
                FeishuErrorView::MissingField("data.URL"@),
            )
        }),
{
    code_tells_success(top, 0, "unknown"@);
    assert(URL_PATH@[0]@ == "data"@ && URL_PATH@[1]@ == "URL"@);
    assert(LOWER_URL_PATH@[0]@ == "data"@ && LOWER_URL_PATH@[1]@ == "url"@);
    assert(ENDPOINT_PATH@[0]@ == "data"@ && ENDPOINT_PATH@[1]@ == "endpoint"@);
    lemma_data_member(top, data, URL_PATH@, "URL"@);
    lemma_data_member(top, data, LOWER_URL_PATH@, "url"@);
    lemma_data_member(top, data, ENDPOINT_PATH@, "endpoint"@);
}

/// The address is asked for with the id and the secret of the app, once a token was given
/// out for them; a refusal is told, and nothing is asked for then.
pub proof fn address_is_asked_for(
    config: FeishuWsConfig,
    n: nat,
    msg: Seq<char>,
    members: Map<Seq<char>, JsonView>,
    e: FeishuErrorView,
    state: UrlState,
)
    requires
        n <= i64::MAX,
        members.contains_key("code"@),
        members["code"@] == JsonView::Number(decimal(n)),
        members.contains_key("msg"@),
        members["msg"@] == JsonView::Text(msg),
    ensures
        ({
            let next = url_next(config, UrlState::Token, Ok(JsonView::Object(members)));
            &&& n == 0 ==> next == UrlStepView::Ask(
                (ApiRequestView {
                    url: address(config.domain@, "/callback/ws/endpoint"@),
                    token: None,
                    body: Some(
                        json_text(
                            pair_document(
                                "AppID"@,
                                config.app_id@,
                                "AppSecret"@,
                                config.app_secret@,
                            ),
                        ),
                    ),
                    locale: Some("zh"@),
                }),
                UrlState::Endpoint,
            )
            &&& n > 0 ==> next == UrlStepView::Done(
                Err(FeishuErrorView::Api { code: n as i64, message: msg }),
            )
            &&& url_next(config, state, Err(e)) == UrlStepView::Done(Err(e))
            &&& url_next(config, UrlState::Endpoint, Ok(JsonView::Object(members)))
                == UrlStepView::Done(ws_url(JsonView::Object(members)))
        }),
{
    code_tells_success(members, n, "unknown"@);
}

/// The waits are one, two, four, eight and sixteen seconds, and then thirty each.
pub proof fn waits_double(failures: nat)
    ensures
        wait_after(0) == 1,
        wait_after(1) == 2,
        wait_after(2) == 4,
        wait_after(3) == 8,
        wait_after(4) == 16,
        failures >= 5 ==> wait_after(failures) == 30,
{
    waits_are_bounded(failures);
    reveal_with_fuel(wait_after, 6);
}

/// The answer with the token is read as a body, and the one with the address as a text.
pub proof fn answers_are_read_in_their_way(raw: Seq<char>)
    ensures
        url_document(UrlState::Token, HttpView::Body(raw)) == reply_document(HttpView::Body(raw)),
        json_read(raw) is Ok ==> url_document(UrlState::Endpoint, HttpView::Body(raw))
            == PayloadView::Ok(json_read(raw)->Ok_0),
        json_read(raw) is Err ==> url_document(UrlState::Endpoint, HttpView::Body(raw))
            == PayloadView::Err(FeishuErrorView::Json(json_read(raw)->Err_0)),
{
}

/// The connection is said to be stopped, connecting or reconnecting as the loop stops,
/// connects or waits.
pub proof fn state_tells_what_the_loop_does(seconds: u64)
    ensures
        state_for(LoopAction::Stop) == ConnectionState::Stopped,
        state_for(LoopAction::Connect) == ConnectionState::Connecting,
        state_for(LoopAction::Wait(seconds)) == ConnectionState::Reconnecting,
{
}

/// A wait lasts from one second to thirty, and the next one is twice as long unless that
/// is longer than thirty seconds.
pub proof fn wait_grows_to_its_limit(r: Reconnect)
    requires
        is_backoff(r),
    ensures
        1 <= r.backoff <= 30,
        r.backoff <= 15 ==> longer(r.backoff) == 2 * r.backoff,
        r.backoff > 15 ==> longer(r.backoff) == 30,
        r.backoff <= longer(r.backoff),
{
}

} // verus!
