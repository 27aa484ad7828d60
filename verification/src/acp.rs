//! The JSON-RPC decisions of an ACP attachment and of the engine's output:
//! which messages are accepted, answered, forwarded or rejected.
use vstd::prelude::*;
use crate::error::{invalid, Error, ErrorView};
use crate::frame::{bodies, decode, read_step, FrameReader, FrameStep, LineDecoder, ReadStep};
use crate::session::{MessageChunk, MessageChunkView};
use crate::text::{opt_view, starts_with, str_eq};
use serde_json::Value;

verus! {

/// Concurrent requests one attachment may have in flight.
pub const MAX_PEER_TASKS: usize = 64;

/// A JSON-RPC `id` member, by JSON kind.
#[derive(Debug, Clone)]
pub enum RpcId {
    Text(String),
    /// A negative integer.
    Signed(i64),
    /// A non-negative integer.
    Unsigned(u64),
    /// Any other JSON value (null, a fraction, a boolean, an array, an object).
    Other,
}

pub enum RpcIdView {
    Text(Seq<char>),
    Signed(i64),
    Unsigned(u64),
    Other,
}

impl View for RpcId {
    type V = RpcIdView;

    open spec fn view(&self) -> RpcIdView {
        match self {
            RpcId::Text(s) => RpcIdView::Text(s@),
            RpcId::Signed(i) => RpcIdView::Signed(*i),
            RpcId::Unsigned(u) => RpcIdView::Unsigned(*u),
            RpcId::Other => RpcIdView::Other,
        }
    }
}

/// A request id that a peer may use: a string or an integer that fits `i64`.
pub open spec fn valid_request_id(id: RpcIdView) -> bool {
    match id {
        RpcIdView::Text(_) => true,
        RpcIdView::Signed(_) => true,
        RpcIdView::Unsigned(u) => u <= i64::MAX,
        RpcIdView::Other => false,
    }
}

/// The id of a reply addressed to one of our own requests.
pub open spec fn reply_id(id: Option<RpcIdView>) -> Option<u64> {
    match id {
        Some(RpcIdView::Unsigned(u)) => Some(u),
        _ => None,
    }
}

/// What the decisions read of a received JSON-RPC message.
#[derive(Debug, Clone)]
pub struct Incoming {
    /// The `jsonrpc` member, when it is a string.
    pub jsonrpc: Option<String>,
    /// The `method` member, when it is a string.
    pub method: Option<String>,
    /// The `id` member, when it is present (whatever its value).
    pub id: Option<RpcId>,
    /// The `params.protocolVersion` member is the number 1.
    pub protocol_version_is_one: bool,
    /// The text-output members of `params` (of a session update).
    pub update: MessageChunk,
}

pub struct IncomingView {
    pub jsonrpc: Option<Seq<char>>,
    pub method: Option<Seq<char>>,
    pub id: Option<RpcIdView>,
    pub protocol_version_is_one: bool,
    pub update: MessageChunkView,
}

impl View for Incoming {
    type V = IncomingView;

    open spec fn view(&self) -> IncomingView {
        IncomingView {
            jsonrpc: opt_view(self.jsonrpc),
            method: opt_view(self.method),
            id: match self.id {
                Some(i) => Some(i@),
                None => None,
            },
            protocol_version_is_one: self.protocol_version_is_one,
            update: self.update@,
        }
    }
}

/// The method name prefix reserved for the harness's own engine callbacks.
pub open spec fn is_private_method(m: Seq<char>) -> bool {
    "_harnel/"@.len() <= m.len() && m.subrange(0, "_harnel/"@.len() as int) == "_harnel/"@
}

/// What an attachment does with a received message.
pub enum PeerMove {
    /// End the attachment with this error.
    Close(ErrorView),
    /// Answer the `initialize` request with the harness capabilities.
    Accept,
    /// Answer the request with this error and read on.
    Refuse(ErrorView),
    /// Run the request against the harness and answer with its outcome.
    Forward,
    /// Pass the notification to the harness.
    Notify,
    /// Drop the message.
    Ignore,
    /// Hand the reply to the host request with this id.
    Settle(u64),
}

/// The attachment protocol: from whether `initialize` has succeeded, a
/// message, and the number of requests in flight, to the next value of that
/// flag and the move. A message must be JSON-RPC 2.0; private methods and
/// malformed request ids end the attachment; `initialize` is accepted once,
/// for protocol version 1; other requests must follow it and are bounded by
/// [`MAX_PEER_TASKS`]; notifications before it are dropped; replies go to
/// the host request they answer.
pub open spec fn attach_step(initialized: bool, m: IncomingView, in_flight: nat) -> (bool, PeerMove) {
    if m.jsonrpc != Some("2.0"@) {
        (initialized, PeerMove::Close(ErrorView::Invalid("expected JSON-RPC 2.0"@)))
    } else if m.method is Some {
        let method = m.method->0;
        if is_private_method(method) {
            (initialized, PeerMove::Close(ErrorView::Invalid("private control method"@)))
        } else if m.id is Some {
            if !valid_request_id(m.id->0) {
                (initialized, PeerMove::Close(ErrorView::Invalid("invalid request ID"@)))
            } else if method == "initialize"@ {
                if initialized {
                    (true, PeerMove::Refuse(ErrorView::Invalid("already initialized"@)))
                } else if !m.protocol_version_is_one {
                    (false, PeerMove::Refuse(ErrorView::Invalid("protocolVersion must be 1"@)))
                } else {
                    (true, PeerMove::Accept)
                }
            } else if !initialized {
                (false, PeerMove::Refuse(ErrorView::Invalid("initialize first"@)))
            } else if in_flight >= MAX_PEER_TASKS {
                (true, PeerMove::Refuse(ErrorView::Busy))
            } else {
                (true, PeerMove::Forward)
            }
        } else if initialized {
            (true, PeerMove::Notify)
        } else {
            (false, PeerMove::Ignore)
        }
    } else if reply_id(m.id) is Some {
        (initialized, PeerMove::Settle(reply_id(m.id)->0))
    } else {
        (initialized, PeerMove::Close(ErrorView::Invalid("invalid ACP message"@)))
    }
}

/// What an attachment does with a received message.
pub enum PeerAction {
    Close(Error),
    Accept,
    Refuse(Error),
    Forward,
    Notify,
    Ignore,
    Settle(u64),
}

impl View for PeerAction {
    type V = PeerMove;

    open spec fn view(&self) -> PeerMove {
        match self {
            PeerAction::Close(e) => PeerMove::Close(e@),
            PeerAction::Accept => PeerMove::Accept,
            PeerAction::Refuse(e) => PeerMove::Refuse(e@),
            PeerAction::Forward => PeerMove::Forward,
            PeerAction::Notify => PeerMove::Notify,
            PeerAction::Ignore => PeerMove::Ignore,
            PeerAction::Settle(id) => PeerMove::Settle(*id),
        }
    }
}

fn is_request_id(id: &RpcId) -> (b: bool)
    ensures
        b == valid_request_id(id@),
{
    match id {
        RpcId::Text(_) => true,
        RpcId::Signed(_) => true,
        RpcId::Unsigned(u) => *u <= 9223372036854775807u64,
        RpcId::Other => false,
    }
}

/// The protocol state of one ACP attachment.
pub struct Attachment {
    initialized: bool,
}

impl Attachment {
    /// `initialize` has succeeded on this attachment.
    pub closed spec fn is_initialized(&self) -> bool {
        self.initialized
    }

    pub fn new() -> (a: Attachment)
        ensures
            !a.is_initialized(),
    {
        Attachment { initialized: false }
    }

    /// Decides what to do with a received message, given the number of this
    /// attachment's requests still in flight.
    pub fn receive(&mut self, m: &Incoming, in_flight: usize) -> (r: PeerAction)
        ensures
            (final(self).is_initialized(), r@) == attach_step(old(self).is_initialized(), m@, in_flight as nat),
            m@.jsonrpc == Some("2.0"@) && m@.method is None ==> match m@.id {
                Some(RpcIdView::Unsigned(u)) => r@ == PeerMove::Settle(u)
                    && final(self).is_initialized() == old(self).is_initialized(),
                _ => r@ == PeerMove::Close(ErrorView::Invalid("invalid ACP message"@)),
            },
    {
        proof {
            if m@.jsonrpc == Some("2.0"@) && m@.method is None {
                lemma_replies_settle(self.initialized, m@, in_flight as nat);
            }
        }
        proof {
            reveal_strlit("2.0");
        }
        let version_ok = match &m.jsonrpc {
            Some(v) => str_eq(v.as_str(), "2.0"),
            None => false,
        };
        if !version_ok {
            return PeerAction::Close(invalid("expected JSON-RPC 2.0"));
        }
        match &m.method {
            Some(method) => {
                if starts_with(method.as_str(), "_harnel/") {
                    return PeerAction::Close(invalid("private control method"));
                }
                match &m.id {
                    Some(id) => {
                        if !is_request_id(id) {
                            return PeerAction::Close(invalid("invalid request ID"));
                        }
                        if str_eq(method.as_str(), "initialize") {
                            if self.initialized {
                                return PeerAction::Refuse(invalid("already initialized"));
                            }
                            if !m.protocol_version_is_one {
                                return PeerAction::Refuse(invalid("protocolVersion must be 1"));
                            }
                            self.initialized = true;
                            return PeerAction::Accept;
                        }
                        if !self.initialized {
                            return PeerAction::Refuse(invalid("initialize first"));
                        }
                        if in_flight >= MAX_PEER_TASKS {
                            return PeerAction::Refuse(Error::Busy);
                        }
                        PeerAction::Forward
                    },
                    None => {
                        if self.initialized {
                            PeerAction::Notify
                        } else {
                            PeerAction::Ignore
                        }
                    },
                }
            },
            None => {
                match &m.id {
                    Some(RpcId::Unsigned(u)) => PeerAction::Settle(*u),
                    _ => PeerAction::Close(invalid("invalid ACP message")),
                }
            },
        }
    }
}

/// No request or notification reaches the harness from an attachment before
/// `initialize` has succeeded on it.
pub proof fn lemma_nothing_before_initialize(m: IncomingView, in_flight: nat)
    ensures
        !(attach_step(false, m, in_flight).1 is Forward),
        !(attach_step(false, m, in_flight).1 is Notify),
{
}

/// Once `initialize` has succeeded it stays so, and a second `initialize`
/// request is answered with an error.
pub proof fn lemma_initialize_once(m: IncomingView, in_flight: nat)
    ensures
        attach_step(true, m, in_flight).0,
        m.jsonrpc == Some("2.0"@) && m.method == Some("initialize"@) && m.id is Some
            && valid_request_id(m.id->0) ==> attach_step(true, m, in_flight).1 == PeerMove::Refuse(
            ErrorView::Invalid("already initialized"@),
        ),
{
    reveal_strlit("initialize");
    reveal_strlit("_harnel/");
    if m.method == Some("initialize"@) {
        assert(!is_private_method("initialize"@)) by {
            assert("initialize"@[0] != "_harnel/"@[0]);
            assert("initialize"@.subrange(0, 8)[0] == "initialize"@[0]);
        }
    }
}

/// `initialize` succeeds exactly on an uninitialized attachment, for a
/// well-formed request asking for protocol version 1.
pub proof fn lemma_initialize_accepted(initialized: bool, m: IncomingView, in_flight: nat)
    ensures
        attach_step(initialized, m, in_flight).1 is Accept <==> (!initialized && m.jsonrpc == Some(
            "2.0"@,
        ) && m.method == Some("initialize"@) && m.id is Some && valid_request_id(m.id->0)
            && m.protocol_version_is_one),
{
    reveal_strlit("initialize");
    reveal_strlit("_harnel/");
    if m.method == Some("initialize"@) {
        assert(!is_private_method("initialize"@)) by {
            assert("initialize"@.subrange(0, 8)[0] == "initialize"@[0]);
        }
    }
}

/// The harness's private methods are never accepted from an attachment.
pub proof fn lemma_private_methods_close(initialized: bool, m: IncomingView, in_flight: nat)
    requires
        m.jsonrpc == Some("2.0"@),
        m.method is Some,
        is_private_method(m.method->0),
    ensures
        attach_step(initialized, m, in_flight).1 == PeerMove::Close(
            ErrorView::Invalid("private control method"@),
        ),
{
}

/// A request is forwarded only while fewer than [`MAX_PEER_TASKS`] of the
/// attachment's requests are in flight.
pub proof fn lemma_forward_bounded(initialized: bool, m: IncomingView, in_flight: nat)
    ensures
        attach_step(initialized, m, in_flight).1 is Forward ==> in_flight < MAX_PEER_TASKS,
{
}

/// A JSON-RPC 2.0 message without a method whose id is a non-negative
/// integer is a reply: it is handed to the host request with that id,
/// whether or not `initialize` has succeeded and however many requests are
/// in flight, and it leaves the attachment's state as it was. A message
/// without a method and without such an id ends the attachment.
pub proof fn lemma_replies_settle(initialized: bool, m: IncomingView, in_flight: nat)
    requires
        m.jsonrpc == Some("2.0"@),
        m.method is None,
    ensures
        match m.id {
            Some(RpcIdView::Unsigned(u)) => attach_step(initialized, m, in_flight) == (
                initialized,
                PeerMove::Settle(u),
            ),
            _ => attach_step(initialized, m, in_flight) == (
                initialized,
                PeerMove::Close(ErrorView::Invalid("invalid ACP message"@)),
            ),
        },
{
}

/// What a message written by the engine is.
pub enum EngineMessage {
    /// A request to run a host tool.
    ToolCall,
    /// Any other request to the host (such as a permission request).
    HostRequest,
    /// A notification, published as an event.
    Event,
    /// The reply to the harness's request with this id.
    Reply(u64),
    /// Anything else, which is dropped.
    Ignore,
}

/// A message with a method is a request when it has an id and a
/// notification otherwise; a message without one is a reply when its id is
/// a non-negative integer.
pub open spec fn classify_engine(m: IncomingView) -> EngineMessage {
    if m.method is Some {
        if m.id is Some {
            if m.method->0 == "_harnel/tool/call"@ {
                EngineMessage::ToolCall
            } else {
                EngineMessage::HostRequest
            }
        } else {
            EngineMessage::Event
        }
    } else if reply_id(m.id) is Some {
        EngineMessage::Reply(reply_id(m.id)->0)
    } else {
        EngineMessage::Ignore
    }
}

/// Every message of the engine with a method and an id, of whatever JSON
/// kind, is a request to the host: a tool call for the harness's tool-call
/// method and a host request (answered by the turn's handler) for any other
/// method. Only a message with a method and no id is an event; a message
/// without a method is a reply exactly when its id is a non-negative
/// integer, and is dropped otherwise.
pub proof fn lemma_engine_requests(m: IncomingView)
    ensures
        m.method is Some && m.id is Some ==> classify_engine(m) == if m.method->0
            == "_harnel/tool/call"@ {
            EngineMessage::ToolCall
        } else {
            EngineMessage::HostRequest
        },
        m.method is Some && m.id is None ==> classify_engine(m) == EngineMessage::Event,
        m.method is None ==> classify_engine(m) == match m.id {
            Some(RpcIdView::Unsigned(u)) => EngineMessage::Reply(u),
            _ => EngineMessage::Ignore,
        },
{
}

/// Classifies a message written by the engine.
pub fn classify(m: &Incoming) -> (r: EngineMessage)
    ensures
        r == classify_engine(m@),
        m@.method is Some && m@.id is Some ==> r == if m@.method->0 == "_harnel/tool/call"@ {
            EngineMessage::ToolCall
        } else {
            EngineMessage::HostRequest
        },
        m@.method is Some && m@.id is None ==> r == EngineMessage::Event,
{
    proof {
        lemma_engine_requests(m@);
    }
    match &m.method {
        Some(method) => {
            if m.id.is_some() {
                if str_eq(method.as_str(), "_harnel/tool/call") {
                    EngineMessage::ToolCall
                } else {
                    EngineMessage::HostRequest
                }
            } else {
                EngineMessage::Event
            }
        },
        None => {
            match &m.id {
                Some(RpcId::Unsigned(u)) => EngineMessage::Reply(*u),
                _ => EngineMessage::Ignore,
            }
        },
    }
}

/// A host callback started during a root turn is abandoned once that turn
/// is no longer the current one.
pub fn callback_abandoned(turn_at_start: u64, current_turn: u64) -> (b: bool)
    ensures
        b == (turn_at_start != 0 && current_turn != turn_at_start),
{
    turn_at_start != 0 && current_turn != turn_at_start
}

/// Attachments that one listener serves at once; further connections are
/// dropped.
pub const MAX_CONNECTIONS: usize = 32;

/// A listener takes a new connection while fewer than [`MAX_CONNECTIONS`]
/// are attached.
pub fn accept_connection(attached: usize) -> (b: bool)
    ensures
        b == (attached < MAX_CONNECTIONS),
{
    attached < MAX_CONNECTIONS
}

/// The trusted control interface only binds loopback addresses.
pub fn check_listen_address(is_loopback: bool) -> (r: crate::error::Result<()>)
    ensures
        is_loopback ==> r is Ok,
        !is_loopback ==> (r matches Err(e) && e@ == ErrorView::Invalid(
            "ACP listener must bind a loopback address"@,
        )),
{
    if is_loopback {
        Ok(())
    } else {
        Err(invalid("ACP listener must bind a loopback address"))
    }
}

/// A stdio bridge only connects to a loopback listener.
pub fn check_bridge_address(is_loopback: bool) -> (r: crate::error::Result<()>)
    ensures
        is_loopback ==> r is Ok,
        !is_loopback ==> (r matches Err(e) && e@ == ErrorView::Invalid(
            "bridge target must be loopback"@,
        )),
{
    if is_loopback {
        Ok(())
    } else {
        Err(invalid("bridge target must be loopback"))
    }
}

/// The members of a JSON-RPC message that the decisions read, as serde_json
/// gives them: each text member when it is a string, the `id` member (when
/// present) as a string, a `u64` and an `i64`, and `params.protocolVersion`
/// as an `i64`.
pub struct Members {
    pub jsonrpc: Option<String>,
    pub method: Option<String>,
    pub id: Option<(Option<String>, Option<u64>, Option<i64>)>,
    pub protocol_version: Option<i64>,
    pub session_id: Option<String>,
    pub kind: Option<String>,
    pub text: Option<String>,
}

pub struct MembersView {
    pub jsonrpc: Option<Seq<char>>,
    pub method: Option<Seq<char>>,
    pub id: Option<(Option<Seq<char>>, Option<u64>, Option<i64>)>,
    pub protocol_version: Option<i64>,
    pub session_id: Option<Seq<char>>,
    pub kind: Option<Seq<char>>,
    pub text: Option<Seq<char>>,
}

impl View for Members {
    type V = MembersView;

    open spec fn view(&self) -> MembersView {
        MembersView {
            jsonrpc: opt_view(self.jsonrpc),
            method: opt_view(self.method),
            id: match self.id {
                Some((t, u, i)) => Some((opt_view(t), u, i)),
                None => None,
            },
            protocol_version: self.protocol_version,
            session_id: opt_view(self.session_id),
            kind: opt_view(self.kind),
            text: opt_view(self.text),
        }
    }
}

/// The JSON kind of an `id` member: a string first, then an integer that
/// fits `u64`, then one that fits `i64`.
pub open spec fn id_kind(id: (Option<Seq<char>>, Option<u64>, Option<i64>)) -> RpcIdView {
    match id {
        (Some(t), _, _) => RpcIdView::Text(t),
        (None, Some(u), _) => RpcIdView::Unsigned(u),
        (None, None, Some(i)) => RpcIdView::Signed(i),
        (None, None, None) => RpcIdView::Other,
    }
}

/// What the decisions read of a message's members.
pub open spec fn incoming_of(m: MembersView) -> IncomingView {
    IncomingView {
        jsonrpc: m.jsonrpc,
        method: m.method,
        id: match m.id {
            Some(i) => Some(id_kind(i)),
            None => None,
        },
        protocol_version_is_one: m.protocol_version == Some(1i64),
        update: MessageChunkView { session_id: m.session_id, kind: m.kind, text: m.text },
    }
}

/// A message body read as JSON: its value and its members; `None` when it is
/// not JSON.
pub uninterp spec fn message_parse(body: Seq<u8>) -> Option<(Value, MembersView)>;

/// The JSON value of a message body; `None` when it is not JSON.
pub open spec fn message_value(body: Seq<u8>) -> Option<Value> {
    match message_parse(body) {
        Some((v, _)) => Some(v),
        None => None,
    }
}

/// What a message body, read as JSON, holds for the decisions: `None` when
/// it is not JSON.
pub open spec fn message_facts(body: Seq<u8>) -> Option<IncomingView> {
    match message_parse(body) {
        Some((_, m)) => Some(incoming_of(m)),
        None => None,
    }
}

/// `serde_json::from_slice` of a message body into a `serde_json::Value`,
/// with the members the decisions read taken out of it by serde_json's
/// indexing, `get`, `as_str`, `as_u64` and `as_i64`. The value and the
/// members depend on the bytes alone; the parser's error text is handed back
/// on failure.
#[verifier::external_body]
fn json_members(body: &[u8]) -> (r: core::result::Result<(Value, Members), String>)
    ensures
        match r {
            Ok((v, m)) => message_parse(body@) == Some((v, m@)),
            Err(_) => message_parse(body@) is None,
        },
{
    let v: Value = serde_json::from_slice(body).map_err(|e| e.to_string())?;
    let t = |x: &Value| x.as_str().map(str::to_owned);
    let (p, u) = (&v["params"], &v["params"]["update"]);
    let m = Members {
        jsonrpc: t(&v["jsonrpc"]), method: t(&v["method"]),
        id: v.get("id").map(|i| (t(i), i.as_u64(), i.as_i64())),
        protocol_version: p["protocolVersion"].as_i64(), session_id: t(&p["sessionId"]),
        kind: t(&u["sessionUpdate"]), text: t(&u["content"]["text"]),
    };
    Ok((v, m))
}

/// The `id` of a message by its JSON kind.
pub fn id_from(id: (Option<String>, Option<u64>, Option<i64>)) -> (r: RpcId)
    ensures
        r@ == id_kind((opt_view(id.0), id.1, id.2)),
{
    match id {
        (Some(t), _, _) => RpcId::Text(t),
        (None, Some(u), _) => RpcId::Unsigned(u),
        (None, None, Some(i)) => RpcId::Signed(i),
        (None, None, None) => RpcId::Other,
    }
}

/// What the decisions read of a message's members.
pub fn incoming_from(m: Members) -> (r: Incoming)
    ensures
        r@ == incoming_of(m@),
{
    let id = match m.id {
        Some(i) => Some(id_from(i)),
        None => None,
    };
    let protocol_version_is_one = match m.protocol_version {
        Some(v) => v == 1,
        None => false,
    };
    Incoming {
        jsonrpc: m.jsonrpc,
        method: m.method,
        id,
        protocol_version_is_one,
        update: MessageChunk { session_id: m.session_id, kind: m.kind, text: m.text },
    }
}

/// A message body read as JSON: its value and what the decisions read of it;
/// the parser's error text when it is not JSON.
fn parse_message(body: &[u8]) -> (r: core::result::Result<(Value, Incoming), String>)
    ensures
        match r {
            Ok((v, m)) => message_value(body@) == Some(v) && message_facts(body@) == Some(m@),
            Err(_) => message_facts(body@) is None,
        },
{
    match json_members(body) {
        Ok((v, m)) => Ok((v, incoming_from(m))),
        Err(e) => Err(e),
    }
}

/// What offering buffered bytes of a peer's stream gives.
pub enum PeerRead {
    /// Consume this many bytes and offer the next buffer.
    Continue(usize),
    /// Consume this many bytes; a complete message was read: its JSON value
    /// and what the decisions read of it.
    Message(usize, serde_json::Value, Incoming),
    /// The stream ended cleanly.
    End,
    /// The stream cannot be read further.
    Failed(Error),
}

/// Reads the next message of a peer's stream: the framing of
/// [`FrameReader::step`], then the message as JSON. A complete line that is
/// not JSON fails with a JSON error.
pub fn read_message(reader: &mut FrameReader, available: &[u8]) -> (r: PeerRead)
    requires
        old(reader).wf(),
    ensures
        final(reader).wf(),
        match read_step(old(reader).data(), available@) {
            ReadStep::Continue { consumed, data } => r matches PeerRead::Continue(n) && n == consumed
                && final(reader).data() == data,
            ReadStep::Frame { consumed, body } => final(reader).data() == Seq::<u8>::empty()
                && match message_facts(body) {
                Some(f) => r matches PeerRead::Message(n, v, m) && n == consumed && m@ == f
                    && message_value(body) == Some(v),
                None => r matches PeerRead::Failed(e) && e@ is Json,
            },
            ReadStep::End => r is End,
            ReadStep::Truncated => r matches PeerRead::Failed(e) && e@ == ErrorView::Invalid(
                "truncated ACP frame"@,
            ),
            ReadStep::TooLong => r matches PeerRead::Failed(e) && e@ == ErrorView::Invalid(
                "ACP frame exceeds 1 MiB"@,
            ),
        },
{
    match reader.step(available) {
        FrameStep::Continue(n) => PeerRead::Continue(n),
        FrameStep::Frame(n, body) => match parse_message(body.as_slice()) {
            Ok((value, m)) => PeerRead::Message(n, value, m),
            Err(text) => PeerRead::Failed(Error::Json(text)),
        },
        FrameStep::End => PeerRead::End,
        FrameStep::Failed(e) => PeerRead::Failed(e),
    }
}

/// The messages that one chunk of engine output completes.
pub struct EngineBatch {
    /// The decoded lines, read as JSON, in order, up to the first that is
    /// not JSON.
    pub messages: Vec<(serde_json::Value, Incoming)>,
    /// The engine's output must not be read further: a line was not JSON or
    /// grew past the limit.
    pub stop: bool,
}

/// Decodes a chunk of the engine's output into messages: the lines of
/// [`LineDecoder::feed`], each read as JSON, stopping at the first line that
/// is not JSON.
pub fn decode_messages(decoder: &mut LineDecoder, chunk: &[u8]) -> (r: EngineBatch)
    requires
        old(decoder).wf(),
    ensures
        final(decoder).wf(),
        ({
            let d = decode(old(decoder).pending(), chunk@);
            &&& r.messages@.len() <= d.frames.len()
            &&& forall|i: int| 0 <= i < r.messages@.len() ==> message_facts(d.frames[i]) == Some(
                (#[trigger] r.messages@[i]).1@,
            ) && message_value(d.frames[i]) == Some(r.messages@[i].0)
            &&& r.messages@.len() < d.frames.len() ==> message_facts(d.frames[r.messages@.len() as int])
                is None && r.stop
            &&& r.messages@.len() == d.frames.len() ==> r.stop == d.overflow
            &&& !d.overflow ==> final(decoder).pending() == d.rest
        }),
{
    let lines = decoder.feed(chunk);
    let ghost frames = bodies(lines.frames@);
    let mut messages: Vec<(serde_json::Value, Incoming)> = Vec::new();
    let mut i: usize = 0;
    while i < lines.frames.len()
        invariant
            i <= lines.frames@.len(),
            frames == bodies(lines.frames@),
            decoder.wf(),
            frames == decode(old(decoder).pending(), chunk@).frames,
            lines.overflow == decode(old(decoder).pending(), chunk@).overflow,
            !lines.overflow ==> decoder.pending() == decode(old(decoder).pending(), chunk@).rest,
            messages@.len() == i,
            forall|j: int| 0 <= j < i ==> message_facts(frames[j]) == Some((#[trigger] messages@[j]).1@)
                && message_value(frames[j]) == Some(messages@[j].0),
        decreases lines.frames@.len() - i,
    {
        match parse_message(lines.frames[i].as_slice()) {
            Ok(message) => {
                messages.push(message);
            },
            Err(_) => {
                return EngineBatch { messages, stop: true };
            },
        }
        i = i + 1;
    }
    EngineBatch { messages, stop: lines.overflow }
}

} // verus!
