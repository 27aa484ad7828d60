use harnel::acp::{
    accept_connection, callback_abandoned, check_bridge_address, check_listen_address, classify,
    decode_messages, read_message, Attachment, EngineMessage, Incoming, PeerAction, PeerRead, RpcId,
    MAX_PEER_TASKS,
};
use harnel::frame::{FrameReader, LineDecoder};
use harnel::session::MessageChunk;
use harnel::Error;

fn request(method: &str, id: RpcId) -> Incoming {
    Incoming {
        jsonrpc: Some("2.0".to_string()),
        method: Some(method.to_string()),
        id: Some(id),
        protocol_version_is_one: false,
        update: MessageChunk { session_id: None, kind: None, text: None },
    }
}

fn initialize() -> Incoming {
    Incoming { protocol_version_is_one: true, ..request("initialize", RpcId::Unsigned(0)) }
}

fn refused_with(action: PeerAction, text: &str) -> bool {
    matches!(action, PeerAction::Refuse(Error::Invalid(m)) if m == text)
}

fn closed_with(action: PeerAction, text: &str) -> bool {
    matches!(action, PeerAction::Close(Error::Invalid(m)) if m == text)
}

#[test]
fn requests_wait_for_initialize() {
    let mut a = Attachment::new();
    assert!(refused_with(a.receive(&request("session/new", RpcId::Unsigned(1)), 0), "initialize first"));
    let note = Incoming { id: None, ..request("session/cancel", RpcId::Other) };
    assert!(matches!(a.receive(&note, 0), PeerAction::Ignore));
    assert!(matches!(a.receive(&initialize(), 0), PeerAction::Accept));
    assert!(matches!(a.receive(&request("session/new", RpcId::Text("a".into())), 0), PeerAction::Forward));
    assert!(matches!(a.receive(&note, 0), PeerAction::Notify));
}

#[test]
fn initialize_only_once_and_only_version_one() {
    let mut a = Attachment::new();
    let wrong = Incoming { protocol_version_is_one: false, ..initialize() };
    assert!(refused_with(a.receive(&wrong, 0), "protocolVersion must be 1"));
    assert!(matches!(a.receive(&initialize(), 0), PeerAction::Accept));
    assert!(refused_with(a.receive(&initialize(), 0), "already initialized"));
}

#[test]
fn malformed_messages_end_the_attachment() {
    let mut a = Attachment::new();
    let old = Incoming { jsonrpc: Some("1.0".into()), ..initialize() };
    assert!(closed_with(a.receive(&old, 0), "expected JSON-RPC 2.0"));
    let missing = Incoming { jsonrpc: None, ..initialize() };
    assert!(closed_with(a.receive(&missing, 0), "expected JSON-RPC 2.0"));
    assert!(closed_with(a.receive(&request("_harnel/tool/call", RpcId::Unsigned(3)), 0), "private control method"));
    assert!(closed_with(a.receive(&request("session/new", RpcId::Other), 0), "invalid request ID"));
    assert!(closed_with(a.receive(&request("session/new", RpcId::Unsigned(u64::MAX)), 0), "invalid request ID"));
    let nothing = Incoming { method: None, id: Some(RpcId::Text("x".into())), ..initialize() };
    assert!(closed_with(a.receive(&nothing, 0), "invalid ACP message"));
}

#[test]
fn replies_are_routed_by_id() {
    let mut a = Attachment::new();
    let reply = Incoming { method: None, id: Some(RpcId::Unsigned(7)), ..initialize() };
    assert!(matches!(a.receive(&reply, 0), PeerAction::Settle(7)));
    let negative = Incoming { method: None, id: Some(RpcId::Signed(-1)), ..initialize() };
    assert!(closed_with(a.receive(&negative, 0), "invalid ACP message"));
}

#[test]
fn in_flight_requests_are_bounded() {
    let mut a = Attachment::new();
    a.receive(&initialize(), 0);
    let r = a.receive(&request("session/list", RpcId::Signed(-4)), MAX_PEER_TASKS);
    assert!(matches!(r, PeerAction::Refuse(Error::Busy)));
    let r = a.receive(&request("session/list", RpcId::Signed(-4)), MAX_PEER_TASKS - 1);
    assert!(matches!(r, PeerAction::Forward));
}

#[test]
fn engine_messages_are_classified() {
    let tool = request("_harnel/tool/call", RpcId::Unsigned(1));
    assert!(matches!(classify(&tool), EngineMessage::ToolCall));
    let ask = request("session/request_permission", RpcId::Other);
    assert!(matches!(classify(&ask), EngineMessage::HostRequest));
    let event = Incoming { id: None, ..request("session/update", RpcId::Other) };
    assert!(matches!(classify(&event), EngineMessage::Event));
    let reply = Incoming { method: None, id: Some(RpcId::Unsigned(42)), ..initialize() };
    assert!(matches!(classify(&reply), EngineMessage::Reply(42)));
    let junk = Incoming { method: None, id: Some(RpcId::Text("42".into())), ..initialize() };
    assert!(matches!(classify(&junk), EngineMessage::Ignore));
}

#[test]
fn callbacks_are_abandoned_when_their_turn_ends() {
    assert!(!callback_abandoned(0, 5));
    assert!(!callback_abandoned(5, 5));
    assert!(callback_abandoned(5, 0));
    assert!(callback_abandoned(5, 6));
}

#[test]
fn listener_limits_and_loopback() {
    assert!(accept_connection(31));
    assert!(!accept_connection(32));
    assert!(check_listen_address(true).is_ok());
    match check_listen_address(false) {
        Err(Error::Invalid(m)) => assert_eq!(m, "ACP listener must bind a loopback address"),
        _ => panic!(),
    }
    match check_bridge_address(false) {
        Err(Error::Invalid(m)) => assert_eq!(m, "bridge target must be loopback"),
        _ => panic!(),
    }
}

#[test]
fn peer_messages_are_read_as_json() {
    let mut r = FrameReader::new();
    let line = b"{\"jsonrpc\":\"2.0\",\"id\":-3,\"method\":\"initialize\",\"params\":{\"protocolVersion\":1}}\n";
    match read_message(&mut r, line) {
        PeerRead::Message(n, value, m) => {
            assert_eq!(n, line.len());
            assert_eq!(value["id"], -3);
            assert_eq!(m.jsonrpc.as_deref(), Some("2.0"));
            assert_eq!(m.method.as_deref(), Some("initialize"));
            assert!(matches!(m.id, Some(RpcId::Signed(-3))));
            assert!(m.protocol_version_is_one);
            let mut a = Attachment::new();
            assert!(matches!(a.receive(&m, 0), PeerAction::Accept));
        }
        _ => panic!("expected a message"),
    }
    assert!(matches!(read_message(&mut r, b"not json\n"), PeerRead::Failed(Error::Json(_))));
    assert!(matches!(read_message(&mut r, b"{\"a\""), PeerRead::Continue(4)));
    assert!(matches!(read_message(&mut r, b""), PeerRead::Failed(Error::Invalid(_))));
}

#[test]
fn engine_output_is_decoded_into_messages() {
    let mut d = LineDecoder::new();
    let out = b"{\"jsonrpc\":\"2.0\",\"id\":9,\"result\":{}}\n{\"jsonrpc\":\"2.0\",\"method\":\"session/update\",\"params\":{\"sessionId\":\"s\",\"update\":{\"sessionUpdate\":\"agent_message_chunk\",\"content\":{\"text\":\"hi\"}}}}\n{\"id\":";
    let batch = decode_messages(&mut d, out);
    assert!(!batch.stop);
    assert_eq!(batch.messages.len(), 2);
    assert!(matches!(classify(&batch.messages[0].1), EngineMessage::Reply(9)));
    assert_eq!(batch.messages[0].0["id"], 9);
    assert_eq!(batch.messages[1].0["params"]["sessionId"], "s");
    let event = &batch.messages[1].1;
    assert!(matches!(classify(event), EngineMessage::Event));
    assert_eq!(event.update.session_id.as_deref(), Some("s"));
    assert_eq!(event.update.kind.as_deref(), Some("agent_message_chunk"));
    assert_eq!(event.update.text.as_deref(), Some("hi"));
    let batch = decode_messages(&mut d, b"1}\ngarbage\n{\"id\":2}\n");
    assert_eq!(batch.messages.len(), 1);
    assert_eq!(batch.messages[0].0["id"], 1);
    assert!(batch.stop);
}

#[test]
fn message_ids_by_json_kind() {
    let mut r = FrameReader::new();
    let mut id_of = |line: &[u8]| match read_message(&mut r, line) {
        PeerRead::Message(_, _, m) => m,
        _ => panic!("expected a message"),
    };
    assert!(matches!(id_of(b"{\"id\":\"a\"}\n").id, Some(RpcId::Text(ref t)) if t == "a"));
    assert!(matches!(id_of(b"{\"id\":18446744073709551615}\n").id, Some(RpcId::Unsigned(u64::MAX))));
    assert!(matches!(id_of(b"{\"id\":7}\n").id, Some(RpcId::Unsigned(7))));
    assert!(matches!(id_of(b"{\"id\":null}\n").id, Some(RpcId::Other)));
    assert!(matches!(id_of(b"{\"id\":1.5}\n").id, Some(RpcId::Other)));
    assert!(id_of(b"{\"method\":\"x\"}\n").id.is_none());
    assert!(!id_of(b"{\"params\":{\"protocolVersion\":1.0}}\n").protocol_version_is_one);
    assert!(!id_of(b"{\"params\":{\"protocolVersion\":\"1\"}}\n").protocol_version_is_one);
    assert!(id_of(b"[1,2]\n").method.is_none());
}
