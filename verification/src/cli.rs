//! The `harnel` command line: which command to run and with what options.
use vstd::prelude::*;
use crate::error::{invalid, Error, ErrorView, Result};
use crate::runtime::{provider_from_name, Provider};
use crate::text::{opt_view, str_eq};

verus! {

/// What the program knows of one argument besides its text: whether it is a
/// socket address, and the value of the environment variable it names.
pub struct ArgFacts {
    pub is_socket_address: bool,
    pub env_value: Option<String>,
}

pub struct ArgFactsView {
    pub is_socket_address: bool,
    pub env_value: Option<Seq<char>>,
}

impl View for ArgFacts {
    type V = ArgFactsView;

    open spec fn view(&self) -> ArgFactsView {
        ArgFactsView {
            is_socket_address: self.is_socket_address,
            env_value: match self.env_value {
                Some(v) => Some(v@),
                None => None,
            },
        }
    }
}

/// The options that configure a harness.
pub struct Options {
    /// The working directory; the current one when absent.
    pub workspace: Option<String>,
    pub state_dir: Option<String>,
    pub model: Option<String>,
    pub provider: Provider,
    pub base_url: Option<String>,
    pub api_key: Option<String>,
    pub native_tools: bool,
}

/// What the command line asks for.
pub enum Command {
    Help,
    Version,
    /// Connect stdio to a running listener at this address.
    Bridge(String),
    /// Run one prompt and print the answer.
    Run { options: Options, prompt: String },
    /// Serve ACP on stdio and/or a listener.
    Serve { options: Options, stdio: bool, listen: Option<String> },
}

/// The options and transports gathered while reading the flags.
pub struct Draft {
    pub workspace: Option<Seq<char>>,
    pub state_dir: Option<Seq<char>>,
    pub model: Option<Seq<char>>,
    pub provider: Provider,
    pub base_url: Option<Seq<char>>,
    pub api_key: Option<Seq<char>>,
    pub native_tools: bool,
    pub stdio: bool,
    pub listen: Option<Seq<char>>,
    pub connect: Option<Seq<char>>,
}

pub open spec fn initial_draft() -> Draft {
    Draft {
        workspace: None,
        state_dir: None,
        model: None,
        provider: Provider::Gateway,
        base_url: None,
        api_key: None,
        native_tools: true,
        stdio: false,
        listen: None,
        connect: None,
    }
}

/// The outcome of reading the flags.
pub enum Scan {
    Help,
    Done(Draft),
    Fail(ErrorView),
}

/// Reads the flags from position `i`: `--help` stops with help, `--stdio`
/// and `--no-native-tools` stand alone, every other flag takes the next
/// argument as its value.
pub open spec fn scan_flags(args: Seq<Seq<char>>, facts: Seq<ArgFactsView>, i: int, d: Draft) -> Scan
    decreases args.len() - i,
{
    if i < 0 || i >= args.len() {
        Scan::Done(d)
    } else {
        let flag = args[i];
        if flag == "--help"@ {
            Scan::Help
        } else if flag == "--stdio"@ {
            scan_flags(args, facts, i + 1, Draft { stdio: true, ..d })
        } else if flag == "--no-native-tools"@ {
            scan_flags(args, facts, i + 1, Draft { native_tools: false, ..d })
        } else if i + 1 >= args.len() {
            Scan::Fail(ErrorView::Invalid(flag + " requires a value"@))
        } else {
            let value = args[i + 1];
            if flag == "--workspace"@ {
                scan_flags(args, facts, i + 2, Draft { workspace: Some(value), ..d })
            } else if flag == "--state-dir"@ {
                scan_flags(args, facts, i + 2, Draft { state_dir: Some(value), ..d })
            } else if flag == "--model"@ {
                scan_flags(args, facts, i + 2, Draft { model: Some(value), ..d })
            } else if flag == "--provider"@ {
                match provider_from_name(value) {
                    Some(p) => scan_flags(args, facts, i + 2, Draft { provider: p, ..d }),
                    None => Scan::Fail(
                        ErrorView::Invalid("provider must be gateway, codex, or grok"@),
                    ),
                }
            } else if flag == "--base-url"@ {
                scan_flags(args, facts, i + 2, Draft { base_url: Some(value), ..d })
            } else if flag == "--api-key-env"@ {
                match facts[i + 1].env_value {
                    Some(v) => scan_flags(args, facts, i + 2, Draft { api_key: Some(v), ..d }),
                    None => Scan::Fail(
                        ErrorView::Invalid(
                            "environment variable "@ + value + " is unset or not UTF-8"@,
                        ),
                    ),
                }
            } else if flag == "--listen"@ {
                if facts[i + 1].is_socket_address {
                    scan_flags(args, facts, i + 2, Draft { listen: Some(value), ..d })
                } else {
                    Scan::Fail(ErrorView::Invalid("invalid listener address"@))
                }
            } else if flag == "--connect"@ {
                if facts[i + 1].is_socket_address {
                    scan_flags(args, facts, i + 2, Draft { connect: Some(value), ..d })
                } else {
                    Scan::Fail(ErrorView::Invalid("invalid connection address"@))
                }
            } else {
                Scan::Fail(ErrorView::Invalid("unknown option "@ + flag))
            }
        }
    }
}

/// A flag that takes the next argument as its value.
pub open spec fn takes_value(flag: Seq<char>) -> bool {
    flag != "--stdio"@ && flag != "--no-native-tools"@
}

/// Position `j` of `args` is read as a flag when the flags are read from
/// position `i`: every flag is followed by the next one, after its value if
/// it takes one.
pub open spec fn flag_at(args: Seq<Seq<char>>, i: int, j: int) -> bool
    decreases j - i,
{
    if i < 0 || j < i || j >= args.len() {
        false
    } else if i == j {
        true
    } else if takes_value(args[i]) {
        i + 2 <= j && flag_at(args, i + 2, j)
    } else {
        flag_at(args, i + 1, j)
    }
}

/// Reading the flags from position `i` turns stdio on exactly when it was on
/// already or `--stdio` is read as one of the flags; nothing else (a
/// listener address among them) turns it on.
pub proof fn lemma_scan_stdio(args: Seq<Seq<char>>, facts: Seq<ArgFactsView>, i: int, d: Draft)
    requires
        0 <= i,
    ensures
        scan_flags(args, facts, i, d) matches Scan::Done(r) ==> (r.stdio <==> (d.stdio || exists|j: int|
            i <= j < args.len() && #[trigger] flag_at(args, i, j) && args[j] == "--stdio"@)),
    decreases args.len() - i,
{
    if i >= args.len() {
        return;
    }
    let flag = args[i];
    assert(flag_at(args, i, i));
    if flag == "--help"@ {
        return;
    }
    if flag == "--stdio"@ {
        lemma_scan_stdio(args, facts, i + 1, Draft { stdio: true, ..d });
        return;
    }
    if flag == "--no-native-tools"@ {
        let d2 = Draft { native_tools: false, ..d };
        assert(scan_flags(args, facts, i, d) == scan_flags(args, facts, i + 1, d2));
        lemma_scan_stdio(args, facts, i + 1, d2);
        assert forall|j: int| i < j < args.len() implies flag_at(args, i, j) == flag_at(args, i + 1, j) by {}
        if exists|j: int| i <= j < args.len() && #[trigger] flag_at(args, i, j) && args[j] == "--stdio"@ {
            let j = choose|j: int| i <= j < args.len() && #[trigger] flag_at(args, i, j) && args[j] == "--stdio"@;
            assert(j != i);
            assert(flag_at(args, i + 1, j));
        }
        if exists|j: int| i + 1 <= j < args.len() && #[trigger] flag_at(args, i + 1, j) && args[j] == "--stdio"@ {
            let j = choose|j: int| i + 1 <= j < args.len() && #[trigger] flag_at(args, i + 1, j) && args[j] == "--stdio"@;
            assert(flag_at(args, i, j));
        }
        return;
    }
    if i + 1 >= args.len() {
        return;
    }
    assert(takes_value(flag));
    assert forall|j: int| i + 2 <= j < args.len() implies flag_at(args, i, j) == flag_at(args, i + 2, j) by {}
    assert(!flag_at(args, i, i + 1));
    if exists|j: int| i <= j < args.len() && #[trigger] flag_at(args, i, j) && args[j] == "--stdio"@ {
        let j = choose|j: int| i <= j < args.len() && #[trigger] flag_at(args, i, j) && args[j] == "--stdio"@;
        assert(j != i && j != i + 1);
        assert(flag_at(args, i + 2, j));
    }
    if exists|j: int| i + 2 <= j < args.len() && #[trigger] flag_at(args, i + 2, j) && args[j] == "--stdio"@ {
        let j = choose|j: int| i + 2 <= j < args.len() && #[trigger] flag_at(args, i + 2, j) && args[j] == "--stdio"@;
        assert(flag_at(args, i, j));
    }
    let value = args[i + 1];
    if flag == "--workspace"@ {
        lemma_scan_stdio(args, facts, i + 2, Draft { workspace: Some(value), ..d });
    } else if flag == "--state-dir"@ {
        lemma_scan_stdio(args, facts, i + 2, Draft { state_dir: Some(value), ..d });
    } else if flag == "--model"@ {
        lemma_scan_stdio(args, facts, i + 2, Draft { model: Some(value), ..d });
    } else if flag == "--provider"@ {
        match provider_from_name(value) {
            Some(p) => lemma_scan_stdio(args, facts, i + 2, Draft { provider: p, ..d }),
            None => {},
        }
    } else if flag == "--base-url"@ {
        lemma_scan_stdio(args, facts, i + 2, Draft { base_url: Some(value), ..d });
    } else if flag == "--api-key-env"@ {
        match facts[i + 1].env_value {
            Some(v) => lemma_scan_stdio(args, facts, i + 2, Draft { api_key: Some(v), ..d }),
            None => {},
        }
    } else if flag == "--listen"@ {
        if facts[i + 1].is_socket_address {
            lemma_scan_stdio(args, facts, i + 2, Draft { listen: Some(value), ..d });
        }
    } else if flag == "--connect"@ {
        if facts[i + 1].is_socket_address {
            lemma_scan_stdio(args, facts, i + 2, Draft { connect: Some(value), ..d });
        }
    }
}

/// `acp` serves stdio exactly when `--stdio` is given as one of its flags:
/// `acp --listen ADDRESS` alone serves only the listener (the program serves
/// stdio as well only when no listener is asked for).
pub proof fn lemma_serve_stdio(args: Seq<Seq<char>>, facts: Seq<ArgFactsView>, cwd_error: Option<ErrorView>)
    ensures
        parse_command(args, facts, cwd_error) matches Ok(CommandView::Serve { stdio, .. }) ==> (stdio
            <==> exists|j: int| 1 <= j < args.len() && #[trigger] flag_at(args, 1, j) && args[j] == "--stdio"@),
{
    lemma_scan_stdio(args, facts, 1, initial_draft());
    lemma_scan_stdio(args, facts, 2, initial_draft());
}

pub struct OptionsView {
    pub workspace: Option<Seq<char>>,
    pub state_dir: Option<Seq<char>>,
    pub model: Option<Seq<char>>,
    pub provider: Provider,
    pub base_url: Option<Seq<char>>,
    pub api_key: Option<Seq<char>>,
    pub native_tools: bool,
}

pub enum CommandView {
    Help,
    Version,
    Bridge(Seq<char>),
    Run { options: OptionsView, prompt: Seq<char> },
    Serve { options: OptionsView, stdio: bool, listen: Option<Seq<char>> },
}

pub open spec fn draft_options(d: Draft) -> OptionsView {
    OptionsView {
        workspace: d.workspace,
        state_dir: d.state_dir,
        model: d.model,
        provider: d.provider,
        base_url: d.base_url,
        api_key: d.api_key,
        native_tools: d.native_tools,
    }
}

/// The command that the arguments (after the program name) ask for. The
/// first argument is the command (help when absent); `run` takes the prompt
/// next; `cwd_error`, the failure to read the current directory, is
/// reported once the command is known to need it.
pub open spec fn parse_command(
    args: Seq<Seq<char>>,
    facts: Seq<ArgFactsView>,
    cwd_error: Option<ErrorView>,
) -> core::result::Result<CommandView, ErrorView> {
    let command = if args.len() == 0 { "--help"@ } else { args[0] };
    if command == "--help"@ || command == "-h"@ {
        Ok(CommandView::Help)
    } else if command == "--version"@ {
        Ok(CommandView::Version)
    } else if command != "acp"@ && command != "run"@ {
        Err(ErrorView::Invalid("unknown command "@ + command + "; use --help"@))
    } else if command == "run"@ && args.len() < 2 {
        Err(ErrorView::Invalid("run requires a prompt"@))
    } else if cwd_error is Some {
        Err(cwd_error->0)
    } else {
        let start = if command == "run"@ { 2int } else { 1int };
        match scan_flags(args, facts, start, initial_draft()) {
            Scan::Help => Ok(CommandView::Help),
            Scan::Fail(e) => Err(e),
            Scan::Done(d) => if d.connect is Some {
                if command != "acp"@ || d.listen is Some {
                    Err(ErrorView::Invalid("--connect requires acp without --listen"@))
                } else {
                    Ok(CommandView::Bridge(d.connect->0))
                }
            } else if command == "run"@ && (d.stdio || d.listen is Some) {
                Err(ErrorView::Invalid("transport options require acp"@))
            } else if command == "run"@ {
                Ok(CommandView::Run { options: draft_options(d), prompt: args[1] })
            } else {
                Ok(CommandView::Serve { options: draft_options(d), stdio: d.stdio, listen: d.listen })
            },
        }
    }
}

impl View for Options {
    type V = OptionsView;

    open spec fn view(&self) -> OptionsView {
        OptionsView {
            workspace: opt_view(self.workspace),
            state_dir: opt_view(self.state_dir),
            model: opt_view(self.model),
            provider: self.provider,
            base_url: opt_view(self.base_url),
            api_key: opt_view(self.api_key),
            native_tools: self.native_tools,
        }
    }
}

impl View for Command {
    type V = CommandView;

    open spec fn view(&self) -> CommandView {
        match self {
            Command::Help => CommandView::Help,
            Command::Version => CommandView::Version,
            Command::Bridge(a) => CommandView::Bridge(a@),
            Command::Run { options, prompt } => CommandView::Run { options: options@, prompt: prompt@ },
            Command::Serve { options, stdio, listen } => CommandView::Serve {
                options: options@,
                stdio: *stdio,
                listen: opt_view(*listen),
            },
        }
    }
}

pub open spec fn command_result_view(r: Result<Command>) -> core::result::Result<CommandView, ErrorView> {
    match r {
        Ok(c) => Ok(c@),
        Err(e) => Err(e@),
    }
}

pub open spec fn arg_views(args: Seq<String>) -> Seq<Seq<char>> {
    args.map_values(|s: String| s@)
}

pub open spec fn fact_views(facts: Seq<ArgFacts>) -> Seq<ArgFactsView> {
    facts.map_values(|f: ArgFacts| f@)
}

/// The exec form of [`Draft`].
struct DraftBox {
    workspace: Option<String>,
    state_dir: Option<String>,
    model: Option<String>,
    provider: Provider,
    base_url: Option<String>,
    api_key: Option<String>,
    native_tools: bool,
    stdio: bool,
    listen: Option<String>,
    connect: Option<String>,
}

impl View for DraftBox {
    type V = Draft;

    closed spec fn view(&self) -> Draft {
        Draft {
            workspace: opt_view(self.workspace),
            state_dir: opt_view(self.state_dir),
            model: opt_view(self.model),
            provider: self.provider,
            base_url: opt_view(self.base_url),
            api_key: opt_view(self.api_key),
            native_tools: self.native_tools,
            stdio: self.stdio,
            listen: opt_view(self.listen),
            connect: opt_view(self.connect),
        }
    }
}

fn message_with(prefix: &str, middle: &str, suffix: &str) -> (e: Error)
    ensures
        e@ == ErrorView::Invalid(prefix@ + middle@ + suffix@),
{
    let mut s = String::from_str(prefix);
    s.append(middle);
    s.append(suffix);
    Error::Invalid(s)
}

/// Reads the flags; see [`scan_flags`].
fn scan(args: &Vec<String>, facts: &Vec<ArgFacts>, start: usize) -> (r: Result<Option<DraftBox>>)
    requires
        facts@.len() == args@.len(),
        start <= args@.len(),
    ensures
        match scan_flags(arg_views(args@), fact_views(facts@), start as int, initial_draft()) {
            Scan::Help => r matches Ok(None),
            Scan::Done(d) => r matches Ok(Some(b)) && b@ == d,
            Scan::Fail(e) => r matches Err(x) && x@ == e,
        },
{
    let ghost a = arg_views(args@);
    let ghost f = fact_views(facts@);
    let mut d = DraftBox {
        workspace: None,
        state_dir: None,
        model: None,
        provider: Provider::Gateway,
        base_url: None,
        api_key: None,
        native_tools: true,
        stdio: false,
        listen: None,
        connect: None,
    };
    let mut i = start;
    while i < args.len()
        invariant
            start <= i <= args@.len(),
            facts@.len() == args@.len(),
            a == arg_views(args@),
            f == fact_views(facts@),
            scan_flags(a, f, i as int, d@) == scan_flags(a, f, start as int, initial_draft()),
        decreases args@.len() - i,
    {
        let flag = &args[i];
        assert(a[i as int] == flag@);
        if str_eq(flag.as_str(), "--help") {
            return Ok(None);
        }
        if str_eq(flag.as_str(), "--stdio") {
            d.stdio = true;
            i = i + 1;
            continue;
        }
        if str_eq(flag.as_str(), "--no-native-tools") {
            d.native_tools = false;
            i = i + 1;
            continue;
        }
        if i + 1 >= args.len() {
            proof {
                reveal_strlit("");
                assert(flag@ + ""@ =~= flag@);
            }
            return Err(message_with(flag.as_str(), "", " requires a value"));
        }
        let value = &args[i + 1];
        assert(a[i + 1] == value@);
        assert(f[i + 1] == facts@[i + 1]@);
        if str_eq(flag.as_str(), "--workspace") {
            d.workspace = Some(value.clone());
        } else if str_eq(flag.as_str(), "--state-dir") {
            d.state_dir = Some(value.clone());
        } else if str_eq(flag.as_str(), "--model") {
            d.model = Some(value.clone());
        } else if str_eq(flag.as_str(), "--provider") {
            match Provider::from_name(value.as_str()) {
                Some(p) => {
                    d.provider = p;
                },
                None => {
                    return Err(invalid("provider must be gateway, codex, or grok"));
                },
            }
        } else if str_eq(flag.as_str(), "--base-url") {
            d.base_url = Some(value.clone());
        } else if str_eq(flag.as_str(), "--api-key-env") {
            match &facts[i + 1].env_value {
                Some(v) => {
                    d.api_key = Some(v.clone());
                },
                None => {
                    return Err(
                        message_with("environment variable ", value.as_str(), " is unset or not UTF-8"),
                    );
                },
            }
        } else if str_eq(flag.as_str(), "--listen") {
            if facts[i + 1].is_socket_address {
                d.listen = Some(value.clone());
            } else {
                return Err(invalid("invalid listener address"));
            }
        } else if str_eq(flag.as_str(), "--connect") {
            if facts[i + 1].is_socket_address {
                d.connect = Some(value.clone());
            } else {
                return Err(invalid("invalid connection address"));
            }
        } else {
            proof {
                reveal_strlit("");
                assert("unknown option "@ + flag@ + ""@ =~= "unknown option "@ + flag@);
            }
            return Err(message_with("unknown option ", flag.as_str(), ""));
        }
        i = i + 2;
    }
    Ok(Some(d))
}

/// Reads the command line (the arguments after the program name). `facts`
/// tells, for each argument, whether it is a socket address and what the
/// environment variable it names holds; `cwd_error` is the failure to read
/// the current directory, if it failed.
pub fn parse_args(args: &Vec<String>, facts: &Vec<ArgFacts>, cwd_error: Option<Error>) -> (r: Result<Command>)
    requires
        facts@.len() == args@.len(),
    ensures
        command_result_view(r) == parse_command(
            arg_views(args@),
            fact_views(facts@),
            match cwd_error {
                Some(e) => Some(e@),
                None => None,
            },
        ),
        r matches Ok(Command::Serve { stdio, .. }) ==> (stdio <==> exists|j: int|
            1 <= j < args@.len() && #[trigger] flag_at(arg_views(args@), 1, j) && args@[j]@ == "--stdio"@),
{
    let ghost a = arg_views(args@);
    proof {
        let c: Option<ErrorView> = if cwd_error is Some { Some(cwd_error->0@) } else { None };
        lemma_serve_stdio(a, fact_views(facts@), c);
    }
    let command: String = if args.len() == 0 {
        String::from_str("--help")
    } else {
        args[0].clone()
    };
    assert(command@ == if a.len() == 0 { "--help"@ } else { a[0] });
    if str_eq(command.as_str(), "--help") || str_eq(command.as_str(), "-h") {
        return Ok(Command::Help);
    }
    if str_eq(command.as_str(), "--version") {
        return Ok(Command::Version);
    }
    let is_run = str_eq(command.as_str(), "run");
    let is_acp = str_eq(command.as_str(), "acp");
    if !is_acp && !is_run {
        return Err(message_with("unknown command ", command.as_str(), "; use --help"));
    }
    if is_run && args.len() < 2 {
        return Err(invalid("run requires a prompt"));
    }
    match cwd_error {
        Some(e) => {
            return Err(e);
        },
        None => {},
    }
    let start: usize = if is_run { 2 } else { 1 };
    let d = match scan(args, facts, start) {
        Ok(Some(d)) => d,
        Ok(None) => {
            return Ok(Command::Help);
        },
        Err(e) => {
            return Err(e);
        },
    };
    let options = Options {
        workspace: d.workspace,
        state_dir: d.state_dir,
        model: d.model,
        provider: d.provider,
        base_url: d.base_url,
        api_key: d.api_key,
        native_tools: d.native_tools,
    };
    match d.connect {
        Some(address) => {
            if !is_acp || d.listen.is_some() {
                return Err(invalid("--connect requires acp without --listen"));
            }
            return Ok(Command::Bridge(address));
        },
        None => {},
    }
    if is_run {
        if d.stdio || d.listen.is_some() {
            return Err(invalid("transport options require acp"));
        }
        assert(a[1] == args@[1]@);
        return Ok(Command::Run { options, prompt: args[1].clone() });
    }
    Ok(Command::Serve { options, stdio: d.stdio, listen: d.listen })
}

} // verus!
