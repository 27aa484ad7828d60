use harnel::runtime::{settle_poll, settle_received, Builder, Event, LoginMethod, Polled, Provider, Received};
use harnel::tool::{default_host_reply, plan_host_call, HostCall, HostReply, ToolOutput};
use harnel::Error;

#[test]
fn builder_defaults_and_setters() {
    let b = Builder::new("/work".into());
    assert_eq!(b.workspace_path(), "/work");
    assert!(b.state_dir_path().is_none());
    assert!(b.native_tools_enabled());
    assert_eq!(b.chosen_provider(), Provider::Gateway);
    let b = b
        .state_dir("/state".into())
        .model("openai/gpt-5".into())
        .provider(Provider::Codex)
        .api_key("k".into())
        .base_url("https://x/v1".into())
        .instructions("be brief".into())
        .native_tools(false);
    assert_eq!(b.state_dir_path().map(|s| s.as_str()), Some("/state"));
    assert_eq!(b.model_id().map(|s| s.as_str()), Some("openai/gpt-5"));
    assert_eq!(b.chosen_provider(), Provider::Codex);
    assert_eq!(b.api_key_value().map(|s| s.as_str()), Some("k"));
    assert_eq!(b.base_url_value().map(|s| s.as_str()), Some("https://x/v1"));
    assert_eq!(b.instructions_text().map(|s| s.as_str()), Some("be brief"));
    assert!(!b.native_tools_enabled());
}

#[test]
fn later_environment_entry_wins() {
    let b = Builder::new(".".into()).env("A".into(), "1".into()).env("B".into(), "2".into()).env("A".into(), "3".into());
    let mut entries: Vec<(String, String)> = b.environment_entries().clone();
    entries.sort();
    assert_eq!(entries, vec![("A".to_string(), "3".to_string()), ("B".to_string(), "2".to_string())]);
}

#[test]
fn provider_and_login_names() {
    for p in [Provider::Gateway, Provider::Codex, Provider::Grok] {
        assert_eq!(Provider::from_name(p.name()), Some(p));
    }
    assert_eq!(Provider::from_name("openai"), None);
    assert_eq!(Provider::default(), Provider::Gateway);
    assert_eq!(LoginMethod::DeviceCode.name(), "device_code");
    assert_eq!(LoginMethod::Browser.name(), "browser");
}

fn event(n: u64) -> Event {
    Event {
        sequence: n,
        method: "session/update".into(),
        params: serde_json::Value::Null,
        update: harnel::session::MessageChunk { session_id: None, kind: None, text: None },
    }
}

#[test]
fn event_polling_outcomes() {
    assert_eq!(settle_poll(Polled::Event(event(4)), false).unwrap().unwrap().sequence, 4);
    assert!(settle_poll(Polled::Empty, false).unwrap().is_none());
    assert!(matches!(settle_poll(Polled::Empty, true), Err(Error::Closed)));
    assert!(matches!(settle_poll(Polled::Lagged(3), false), Err(Error::Lagged(3))));
    assert!(matches!(settle_poll(Polled::Closed, false), Err(Error::Closed)));
    assert_eq!(settle_received(Received::Event(event(9))).unwrap().sequence, 9);
    assert!(matches!(settle_received(Received::Lagged(2)), Err(Error::Lagged(2))));
    assert!(matches!(settle_received(Received::Closed), Err(Error::Closed)));
}

#[test]
fn subscription_reports_lag_then_continues() {
    let (tx, rx) = tokio::sync::broadcast::channel(2);
    let (_closed_tx, closed_rx) = tokio::sync::watch::channel(false);
    let mut events = harnel::runtime::Events::new(rx, closed_rx);
    assert!(events.try_recv().unwrap().is_none());
    for n in 1..=4 {
        tx.send(event(n)).unwrap();
    }
    assert!(matches!(events.try_recv(), Err(Error::Lagged(2))));
    assert_eq!(events.try_recv().unwrap().unwrap().sequence, 3);
    assert_eq!(events.try_recv().unwrap().unwrap().sequence, 4);
    drop(tx);
    assert!(matches!(events.try_recv(), Err(Error::Closed)));
}

#[test]
fn closed_harness_ends_the_subscription() {
    let (_tx, rx) = tokio::sync::broadcast::channel::<Event>(2);
    let (closed_tx, closed_rx) = tokio::sync::watch::channel(false);
    let mut events = harnel::runtime::Events::new(rx, closed_rx);
    closed_tx.send_replace(true);
    assert!(matches!(events.try_recv(), Err(Error::Closed)));
}

#[test]
fn tool_outputs() {
    let ok = ToolOutput::text("7 items available".into());
    assert_eq!(ok.output, "7 items available");
    assert!(!ok.is_error);
    let bad = ToolOutput::failure("no such sku".into());
    assert!(bad.is_error);
}

#[test]
fn default_handler_declines_permissions_and_fails_others() {
    assert_eq!(default_host_reply("session/request_permission").unwrap(), HostReply::PermissionCancelled);
    match default_host_reply("fs/read_text_file") {
        Err(Error::Invalid(m)) => assert_eq!(m, "No host handler for fs/read_text_file"),
        _ => panic!(),
    }
    assert!(matches!(plan_host_call(true, true), HostCall::RunTool));
    assert!(matches!(plan_host_call(false, false), HostCall::AskHandler));
    match plan_host_call(true, false) {
        HostCall::Fail(Error::Invalid(m)) => assert_eq!(m, "host tool is not registered"),
        _ => panic!(),
    }
}

#[test]
fn workspace_must_be_a_directory() {
    assert!(harnel::runtime::check_workspace(true).is_ok());
    match harnel::runtime::check_workspace(false) {
        Err(Error::Invalid(m)) => assert_eq!(m, "workspace must be a directory"),
        _ => panic!(),
    }
}
