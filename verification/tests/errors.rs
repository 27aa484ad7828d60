use harnel::error::{invalid, INTERNAL_ERROR, INVALID_PARAMS};
use harnel::text::{push_decimal, push_signed_decimal, to_hex_lower, contains_text, starts_with, ends_with};
use harnel::{Error, NativeError, RpcError};

#[test]
fn error_messages() {
    assert_eq!(Error::Closed.message(), "harness is closed");
    assert_eq!(Error::Busy.message(), "request capacity exceeded");
    assert_eq!(Error::Lagged(12).message(), "event subscriber missed 12 events");
    assert_eq!(Error::Timeout.message(), "request timed out");
    assert_eq!(invalid("bad").message(), "bad");
    assert_eq!(Error::Io("disk".into()).message(), "disk");
    assert_eq!(Error::Json("eof".into()).message(), "eof");
    let native = Error::Native(NativeError { code: -3, message: "boom".into() });
    assert_eq!(native.message(), "native runtime error -3: boom");
    let rpc = Error::Rpc(RpcError { code: -32000, message: "nope".into(), data: None });
    assert_eq!(rpc.message(), "nope (RPC -32000)");
}

#[test]
fn rpc_error_objects() {
    let e = invalid("missing sessionId").rpc();
    assert_eq!(e.code, INVALID_PARAMS);
    assert_eq!(e.message, "missing sessionId");
    let e = Error::Timeout.rpc();
    assert_eq!(e.code, INTERNAL_ERROR);
    assert_eq!(e.message, "request timed out");
    let original = RpcError { code: 7, message: "x".into(), data: Some(serde_json::Value::Bool(true)) };
    let e = Error::Rpc(original.clone()).rpc();
    assert_eq!(e.code, 7);
    assert_eq!(e.message, "x");
    assert_eq!(e.data, Some(serde_json::Value::Bool(true)));
}

#[test]
fn decimal_and_hex_renderings() {
    let mut s = String::new();
    push_decimal(&mut s, 0);
    push_decimal(&mut s, 9);
    push_decimal(&mut s, 18446744073709551615);
    assert_eq!(s, "0918446744073709551615");
    let mut s = String::new();
    push_signed_decimal(&mut s, i64::MIN);
    assert_eq!(s, "-9223372036854775808");
    assert_eq!(to_hex_lower(&[0x00, 0xab, 0x0f, 0xf0]), "00ab0ff0");
}

#[test]
fn text_searches() {
    assert!(contains_text("x86_64-pc-windows-msvc", "windows"));
    assert!(!contains_text("x86_64-unknown-linux-gnu", "windows"));
    assert!(!contains_text("win", "windows"));
    assert!(starts_with("_harnel/tool", "_harnel/"));
    assert!(!starts_with("_harn", "_harnel/"));
    assert!(ends_with("zig.zip", ".zip"));
    assert!(!ends_with("zip", ".zip"));
}
