use harnel::cli::{parse_args, ArgFacts, Command};
use harnel::runtime::Provider;
use harnel::Error;

fn parse_with(args: &[&str], addresses: &[&str], env: &[(&str, &str)], cwd_fails: bool) -> harnel::Result<Command> {
    let args: Vec<String> = args.iter().map(|s| s.to_string()).collect();
    let facts = args
        .iter()
        .map(|a| ArgFacts {
            is_socket_address: addresses.contains(&a.as_str()),
            env_value: env.iter().find(|(k, _)| *k == a).map(|(_, v)| v.to_string()),
        })
        .collect();
    let cwd = if cwd_fails { Some(Error::Io("no cwd".into())) } else { None };
    parse_args(&args, &facts, cwd)
}

fn parse(args: &[&str]) -> harnel::Result<Command> {
    parse_with(args, &["127.0.0.1:7788"], &[("MY_KEY", "secret")], false)
}

fn invalid(r: harnel::Result<Command>) -> String {
    match r {
        Err(Error::Invalid(m)) => m,
        _ => panic!("expected an invalid-argument error"),
    }
}

#[test]
fn help_and_version() {
    assert!(matches!(parse(&[]), Ok(Command::Help)));
    assert!(matches!(parse(&["-h"]), Ok(Command::Help)));
    assert!(matches!(parse(&["--version"]), Ok(Command::Version)));
    assert!(matches!(parse(&["acp", "--model", "m", "--help"]), Ok(Command::Help)));
    assert_eq!(invalid(parse(&["serve"])), "unknown command serve; use --help");
}

#[test]
fn run_needs_a_prompt_and_no_transport() {
    assert_eq!(invalid(parse(&["run"])), "run requires a prompt");
    match parse(&["run", "Explain", "--model", "openai/gpt-5", "--api-key-env", "MY_KEY"]) {
        Ok(Command::Run { options, prompt }) => {
            assert_eq!(prompt, "Explain");
            assert_eq!(options.model.as_deref(), Some("openai/gpt-5"));
            assert_eq!(options.api_key.as_deref(), Some("secret"));
            assert!(options.native_tools);
            assert_eq!(options.provider, Provider::Gateway);
        }
        _ => panic!("expected run"),
    }
    assert_eq!(invalid(parse(&["run", "x", "--stdio"])), "transport options require acp");
}

#[test]
fn acp_serving_options() {
    match parse(&["acp", "--stdio", "--listen", "127.0.0.1:7788", "--provider", "grok", "--no-native-tools", "--workspace", "/w", "--state-dir", "/s", "--base-url", "https://p/v1"]) {
        Ok(Command::Serve { options, stdio, listen }) => {
            assert!(stdio);
            assert_eq!(listen.as_deref(), Some("127.0.0.1:7788"));
            assert_eq!(options.provider, Provider::Grok);
            assert!(!options.native_tools);
            assert_eq!(options.workspace.as_deref(), Some("/w"));
            assert_eq!(options.state_dir.as_deref(), Some("/s"));
            assert_eq!(options.base_url.as_deref(), Some("https://p/v1"));
        }
        _ => panic!("expected serve"),
    }
}

#[test]
fn flag_errors() {
    assert_eq!(invalid(parse(&["acp", "--model"])), "--model requires a value");
    assert_eq!(invalid(parse(&["acp", "--provider", "openai"])), "provider must be gateway, codex, or grok");
    assert_eq!(invalid(parse(&["acp", "--api-key-env", "UNSET"])), "environment variable UNSET is unset or not UTF-8");
    assert_eq!(invalid(parse(&["acp", "--listen", "nowhere"])), "invalid listener address");
    assert_eq!(invalid(parse(&["acp", "--connect", "nowhere"])), "invalid connection address");
    assert_eq!(invalid(parse(&["acp", "--bogus", "1"])), "unknown option --bogus");
}

#[test]
fn connect_is_a_bridge_only_for_acp() {
    match parse(&["acp", "--connect", "127.0.0.1:7788"]) {
        Ok(Command::Bridge(a)) => assert_eq!(a, "127.0.0.1:7788"),
        _ => panic!("expected bridge"),
    }
    assert_eq!(invalid(parse(&["acp", "--connect", "127.0.0.1:7788", "--listen", "127.0.0.1:7788"])), "--connect requires acp without --listen");
    assert_eq!(invalid(parse(&["run", "p", "--connect", "127.0.0.1:7788"])), "--connect requires acp without --listen");
}

#[test]
fn current_directory_failure_comes_after_command_checks() {
    assert!(matches!(parse_with(&["acp"], &[], &[], true), Err(Error::Io(_))));
    assert!(matches!(parse_with(&["--help"], &[], &[], true), Ok(Command::Help)));
    assert_eq!(invalid(parse_with(&["run"], &[], &[], true)), "run requires a prompt");
}
