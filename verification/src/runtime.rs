//! Harness configuration, providers, and the event subscription.
use vstd::prelude::*;
use crate::error::{Error, ErrorView, Result};
use crate::text::{opt_view, str_eq};

verus! {

/// The model provider a harness starts with.
#[derive(Debug, Clone, Copy, PartialEq, Eq, Structural)]
pub enum Provider {
    Gateway,
    Codex,
    Grok,
}

impl Default for Provider {
    fn default() -> (p: Provider)
        ensures
            p == Provider::Gateway,
    {
        Provider::Gateway
    }
}

/// The lowercase protocol name of a provider.
pub open spec fn provider_name(p: Provider) -> Seq<char> {
    match p {
        Provider::Gateway => "gateway"@,
        Provider::Codex => "codex"@,
        Provider::Grok => "grok"@,
    }
}

impl Provider {
    /// The provider's name in protocol messages.
    pub fn name(&self) -> (s: &'static str)
        ensures
            s@ == provider_name(*self),
    {
        match self {
            Provider::Gateway => "gateway",
            Provider::Codex => "codex",
            Provider::Grok => "grok",
        }
    }

    /// The provider with this name, if any.
    pub fn from_name(name: &str) -> (p: Option<Provider>)
        ensures
            p == provider_from_name(name@),
    {
        if str_eq(name, "gateway") {
            Some(Provider::Gateway)
        } else if str_eq(name, "codex") {
            Some(Provider::Codex)
        } else if str_eq(name, "grok") {
            Some(Provider::Grok)
        } else {
            None
        }
    }
}

/// The provider that a name denotes, if any.
pub open spec fn provider_from_name(name: Seq<char>) -> Option<Provider> {
    if name == "gateway"@ {
        Some(Provider::Gateway)
    } else if name == "codex"@ {
        Some(Provider::Codex)
    } else if name == "grok"@ {
        Some(Provider::Grok)
    } else {
        None
    }
}

/// Every provider is found again by its name.
pub proof fn lemma_provider_names(p: Provider)
    ensures
        provider_from_name(provider_name(p)) == Some(p),
{
    reveal_strlit("gateway");
    reveal_strlit("codex");
    reveal_strlit("grok");
    assert("gateway"@.len() != "codex"@.len());
    assert("gateway"@.len() != "grok"@.len());
    assert("codex"@.len() != "grok"@.len());
}

/// How an authorization flow is completed. Device codes work without a
/// browser or callback listener on the host.
#[derive(Debug, Clone, Copy, PartialEq, Eq, Structural)]
pub enum LoginMethod {
    DeviceCode,
    Browser,
}

/// The protocol name of a login method.
pub open spec fn login_method_name(m: LoginMethod) -> Seq<char> {
    match m {
        LoginMethod::DeviceCode => "device_code"@,
        LoginMethod::Browser => "browser"@,
    }
}

impl LoginMethod {
    /// The method's name in protocol messages.
    pub fn name(&self) -> (s: &'static str)
        ensures
            s@ == login_method_name(*self),
    {
        match self {
            LoginMethod::DeviceCode => "device_code",
            LoginMethod::Browser => "browser",
        }
    }
}

/// A notification from the engine, numbered in the order it was published.
#[derive(Debug, Clone)]
pub struct Event {
    pub sequence: u64,
    pub method: String,
    pub params: serde_json::Value,
    /// The text-output members of `params`, read with the message.
    pub update: crate::session::MessageChunk,
}

/// Declares `tokio::sync::broadcast::Receiver` as an opaque type: a
/// subscriber's end of the event channel.
#[verifier::external_type_specification]
#[verifier::external_body]
#[verifier::reject_recursive_types(T)]
pub struct ExBroadcastReceiver<T>(tokio::sync::broadcast::Receiver<T>);

/// Declares `tokio::sync::watch::Receiver` as an opaque type: the observer
/// of the harness's closed flag.
#[verifier::external_type_specification]
#[verifier::external_body]
#[verifier::reject_recursive_types(T)]
pub struct ExWatchReceiver<T>(tokio::sync::watch::Receiver<T>);

/// What polling the event channel found.
pub enum Polled {
    Event(Event),
    /// Nothing is queued now.
    Empty,
    /// This many events were overwritten before they were read.
    Lagged(u64),
    /// The channel has no sender left.
    Closed,
}

/// `tokio::sync::broadcast::Receiver::try_recv`: takes the next queued
/// event without waiting. What it finds depends on the channel, so nothing
/// is stated of it.
#[verifier::external_body]
fn poll_events(receiver: &mut tokio::sync::broadcast::Receiver<Event>) -> Polled {
    match receiver.try_recv() {
        Ok(event) => Polled::Event(event),
        Err(tokio::sync::broadcast::error::TryRecvError::Empty) => Polled::Empty,
        Err(tokio::sync::broadcast::error::TryRecvError::Lagged(n)) => Polled::Lagged(n),
        Err(tokio::sync::broadcast::error::TryRecvError::Closed) => Polled::Closed,
    }
}

/// `tokio::sync::watch::Receiver::borrow`: the flag's current value, which
/// another task may change at any time, so nothing is stated of it.
#[verifier::external_body]
fn watch_value(flag: &tokio::sync::watch::Receiver<bool>) -> bool {
    *flag.borrow()
}

/// What polling yields: a queued event; nothing, while the harness is open;
/// the number of events missed by a slow subscriber; or the end.
pub open spec fn poll_result(polled: Polled, closed: bool) -> core::result::Result<Option<Event>, ErrorView> {
    match polled {
        Polled::Event(e) => Ok(Some(e)),
        Polled::Empty => if closed { Err(ErrorView::Closed) } else { Ok(None) },
        Polled::Lagged(n) => Err(ErrorView::Lagged(n)),
        Polled::Closed => Err(ErrorView::Closed),
    }
}

/// The view of a result that carries an error.
pub open spec fn result_view<T>(r: Result<T>) -> core::result::Result<T, ErrorView> {
    match r {
        Ok(t) => Ok(t),
        Err(e) => Err(e@),
    }
}

/// Turns a poll of the event channel into the subscriber's result.
pub fn settle_poll(polled: Polled, closed: bool) -> (r: Result<Option<Event>>)
    ensures
        result_view(r) == poll_result(polled, closed),
        polled matches Polled::Event(e) ==> r == Ok::<Option<Event>, Error>(Some(e)),
{
    match polled {
        Polled::Event(e) => Ok(Some(e)),
        Polled::Empty => if closed { Err(Error::Closed) } else { Ok(None) },
        Polled::Lagged(n) => Err(Error::Lagged(n)),
        Polled::Closed => Err(Error::Closed),
    }
}

/// A queued event is delivered whatever the harness's closed flag says;
/// the subscription ends only when nothing is queued and the harness is
/// closed, or when the channel itself has ended; nothing queued while the
/// harness is open is no event and no error.
pub proof fn lemma_queued_events_first(polled: Polled, closed: bool)
    ensures
        polled matches Polled::Event(e) ==> poll_result(polled, closed) == Ok::<Option<Event>, ErrorView>(Some(e)),
        poll_result(polled, closed) == Err::<Option<Event>, ErrorView>(ErrorView::Closed) <==> (polled is Closed
            || (polled is Empty && closed)),
        poll_result(polled, closed) == Ok::<Option<Event>, ErrorView>(None) <==> (polled is Empty && !closed),
{
}

/// What waiting on the event channel yielded.
pub enum Received {
    Event(Event),
    Lagged(u64),
    Closed,
}

/// Turns a wait on the event channel into the subscriber's result: a slow
/// subscriber learns how many events it missed and can continue.
pub fn settle_received(received: Received) -> (r: Result<Event>)
    ensures
        received matches Received::Event(e) ==> r == Ok::<Event, Error>(e),
        received matches Received::Lagged(n) ==> (r matches Err(e) && e@ == ErrorView::Lagged(n)),
        received is Closed ==> (r matches Err(e) && e@ == ErrorView::Closed),
{
    match received {
        Received::Event(e) => Ok(e),
        Received::Lagged(n) => Err(Error::Lagged(n)),
        Received::Closed => Err(Error::Closed),
    }
}

/// A subscription to the harness's events.
pub struct Events {
    receiver: tokio::sync::broadcast::Receiver<Event>,
    closed: tokio::sync::watch::Receiver<bool>,
}

impl Events {
    /// The event channel's receiver.
    pub closed spec fn event_receiver(&self) -> tokio::sync::broadcast::Receiver<Event> {
        self.receiver
    }

    /// The receiver of the harness's closed flag.
    pub closed spec fn closed_receiver(&self) -> tokio::sync::watch::Receiver<bool> {
        self.closed
    }

    /// A subscription made of the event channel's receiver and the
    /// receiver of the harness's closed flag.
    pub fn new(
        receiver: tokio::sync::broadcast::Receiver<Event>,
        closed: tokio::sync::watch::Receiver<bool>,
    ) -> (e: Events)
        ensures
            e.event_receiver() == receiver,
            e.closed_receiver() == closed,
    {
        Events { receiver, closed }
    }

    /// The two receivers, for waiting on them.
    pub fn receivers(&mut self) -> (r: (
        &mut tokio::sync::broadcast::Receiver<Event>,
        &mut tokio::sync::watch::Receiver<bool>,
    ))
        ensures
            *r.0 == old(self).event_receiver(),
            *r.1 == old(self).closed_receiver(),
            final(self).event_receiver() == *final(r.0),
            final(self).closed_receiver() == *final(r.1),
    {
        (&mut self.receiver, &mut self.closed)
    }

    /// Returns the next queued event without waiting: `None` while nothing
    /// is queued and the harness is open, `Lagged` after missed events, and
    /// `Closed` once nothing more will come.
    pub fn try_recv(&mut self) -> (r: Result<Option<Event>>)
        ensures
            r is Ok || (r matches Err(e) && (e@ is Lagged || e@ == ErrorView::Closed)),
    {
        let polled = poll_events(&mut self.receiver);
        let closed = match &polled {
            Polled::Empty => watch_value(&self.closed),
            _ => false,
        };
        settle_poll(polled, closed)
    }
}

/// The configuration of a harness before its engine starts.
pub struct Builder {
    workspace: String,
    state_dir: Option<String>,
    model: Option<String>,
    provider: Provider,
    api_key: Option<String>,
    base_url: Option<String>,
    instructions: Option<String>,
    native_tools: bool,
    environment: Vec<(String, String)>,
    environment_map: Ghost<Map<Seq<char>, Seq<char>>>,
}

/// The plain view of a builder.
pub struct BuilderView {
    pub workspace: Seq<char>,
    pub state_dir: Option<Seq<char>>,
    pub model: Option<Seq<char>>,
    pub provider: Provider,
    pub api_key: Option<Seq<char>>,
    pub base_url: Option<Seq<char>>,
    pub instructions: Option<Seq<char>>,
    pub native_tools: bool,
    pub environment: Map<Seq<char>, Seq<char>>,
}

impl View for Builder {
    type V = BuilderView;

    closed spec fn view(&self) -> BuilderView {
        BuilderView {
            workspace: self.workspace@,
            state_dir: opt_view(self.state_dir),
            model: opt_view(self.model),
            provider: self.provider,
            api_key: opt_view(self.api_key),
            base_url: opt_view(self.base_url),
            instructions: opt_view(self.instructions),
            native_tools: self.native_tools,
            environment: self.environment_map@,
        }
    }
}

/// The environment entries name each variable once, and the map holds
/// exactly their values.
spec fn entries_match(e: Seq<(String, String)>, m: Map<Seq<char>, Seq<char>>) -> bool {
    &&& forall|i: int, j: int| #![trigger e[i], e[j]] 0 <= i < j < e.len() ==> e[i].0@ != e[j].0@
    &&& forall|i: int| #![trigger e[i]] 0 <= i < e.len() ==> m.contains_key(e[i].0@) && m[e[i].0@] == e[i].1@
    &&& forall|k: Seq<char>| #[trigger] m.contains_key(k) ==> exists|i: int| 0 <= i < e.len() && e[i].0@ == k
}

impl Builder {
    /// The environment list holds each name once, and exactly the mapping.
    pub closed spec fn wf(&self) -> bool {
        entries_match(self.environment@, self.environment_map@)
    }

    /// A configuration for this workspace: a temporary profile, the
    /// gateway provider, native tools enabled, and nothing else set.
    pub fn new(workspace: String) -> (b: Builder)
        ensures
            b.wf(),
            b@ == (BuilderView {
                workspace: workspace@,
                state_dir: None,
                model: None,
                provider: Provider::Gateway,
                api_key: None,
                base_url: None,
                instructions: None,
                native_tools: true,
                environment: Map::empty(),
            }),
    {
        Builder {
            workspace,
            state_dir: None,
            model: None,
            provider: Provider::Gateway,
            api_key: None,
            base_url: None,
            instructions: None,
            native_tools: true,
            environment: Vec::new(),
            environment_map: Ghost(Map::empty()),
        }
    }

    /// Keeps the engine's state (credentials, saved sessions) under `path`.
    pub fn state_dir(self, path: String) -> (b: Builder)
        requires
            self.wf(),
        ensures
            b.wf(),
            b@ == (BuilderView { state_dir: Some(path@), ..self@ }),
    {
        Builder { state_dir: Some(path), ..self }
    }

    pub fn model(self, model: String) -> (b: Builder)
        requires
            self.wf(),
        ensures
            b.wf(),
            b@ == (BuilderView { model: Some(model@), ..self@ }),
    {
        Builder { model: Some(model), ..self }
    }

    pub fn provider(self, provider: Provider) -> (b: Builder)
        requires
            self.wf(),
        ensures
            b.wf(),
            b@ == (BuilderView { provider, ..self@ }),
    {
        Builder { provider: provider, ..self }
    }

    pub fn api_key(self, key: String) -> (b: Builder)
        requires
            self.wf(),
        ensures
            b.wf(),
            b@ == (BuilderView { api_key: Some(key@), ..self@ }),
    {
        Builder { api_key: Some(key), ..self }
    }

    /// A Responses-compatible base URL; provider credentials remain
    /// instance-local.
    pub fn base_url(self, url: String) -> (b: Builder)
        requires
            self.wf(),
        ensures
            b.wf(),
            b@ == (BuilderView { base_url: Some(url@), ..self@ }),
    {
        Builder { base_url: Some(url), ..self }
    }

    pub fn instructions(self, instructions: String) -> (b: Builder)
        requires
            self.wf(),
        ensures
            b.wf(),
            b@ == (BuilderView { instructions: Some(instructions@), ..self@ }),
    {
        Builder { instructions: Some(instructions), ..self }
    }

    pub fn native_tools(self, enabled: bool) -> (b: Builder)
        requires
            self.wf(),
        ensures
            b.wf(),
            b@ == (BuilderView { native_tools: enabled, ..self@ }),
    {
        Builder { native_tools: enabled, ..self }
    }

    /// An environment entry for this instance only; a later entry with the
    /// same name replaces an earlier one. The host environment never changes.
    pub fn env(self, name: String, value: String) -> (b: Builder)
        requires
            self.wf(),
        ensures
            b.wf(),
            b@ == (BuilderView { environment: self@.environment.insert(name@, value@), ..self@ }),
    {
        let ghost s = self;
        let mut b = self;
        let ghost before = b.environment@;
        let ghost map = b.environment_map@;
        let mut i: usize = 0;
        while i < b.environment.len()
            invariant
                b == s,
                s == self,
                s.wf(),
                before == s.environment@,
                map == s.environment_map@,
                i <= before.len(),
                forall|j: int| 0 <= j < i ==> before[j].0@ != name@,
            decreases before.len() - i,
        {
            if b.environment[i].0 == name {
                let old_entry_name = b.environment[i].0.clone();
                assert(old_entry_name@ == name@);
                b.environment.set(i, (old_entry_name, value));
                b.environment_map = Ghost(map.insert(name@, value@));
                proof {
                    let e = b.environment@;
                    assert forall|x: int| 0 <= x < e.len() implies #[trigger] b.environment_map@.contains_key(e[x].0@)
                        && b.environment_map@[e[x].0@] == e[x].1@ by {
                        if x != i {
                            assert(e[x] == before[x]);
                            assert(before[x].0@ != before[i as int].0@);
                        }
                    }
                    assert forall|k: Seq<char>| #[trigger] b.environment_map@.contains_key(k) implies exists|x: int| 0 <= x < e.len() && e[x].0@ == k by {
                        if k == name@ {
                            assert(e[i as int].0@ == k);
                        } else {
                            let x = choose|x: int| 0 <= x < before.len() && before[x].0@ == k;
                            assert(e[x] == before[x] || x == i);
                            assert(e[x].0@ == k);
                        }
                    }
                    assert forall|p: int, q: int| 0 <= p < q < e.len() implies e[p].0@ != e[q].0@ by {
                        assert(e[p].0@ == before[p].0@);
                        assert(e[q].0@ == before[q].0@);
                    }
                    assert(b.environment_map@ == s@.environment.insert(name@, value@));
                }
                return b;
            }
            i = i + 1;
        }
        b.environment.push((name, value));
        b.environment_map = Ghost(map.insert(name@, value@));
        proof {
            let e = b.environment@;
            assert(e.len() == before.len() + 1);
            assert forall|x: int| 0 <= x < e.len() implies #[trigger] b.environment_map@.contains_key(e[x].0@)
                && b.environment_map@[e[x].0@] == e[x].1@ by {
                if x < before.len() {
                    assert(e[x] == before[x]);
                }
            }
            assert forall|k: Seq<char>| #[trigger] b.environment_map@.contains_key(k) implies exists|x: int| 0 <= x < e.len() && e[x].0@ == k by {
                if k == name@ {
                    assert(e[before.len() as int].0@ == k);
                } else {
                    let x = choose|x: int| 0 <= x < before.len() && before[x].0@ == k;
                    assert(e[x] == before[x]);
                }
            }
            assert forall|p: int, q: int| 0 <= p < q < e.len() implies e[p].0@ != e[q].0@ by {
                assert(e[p] == before[p]);
                if q < before.len() {
                    assert(e[q] == before[q]);
                }
            }
        }
        b
    }

    /// The workspace directory, as given.
    pub fn workspace_path(&self) -> (s: &String)
        ensures
            s@ == self@.workspace,
    {
        &self.workspace
    }

    /// The profile directory, when one was given.
    pub fn state_dir_path(&self) -> (s: Option<&String>)
        ensures
            opt_ref_view(s) == self@.state_dir,
    {
        self.state_dir.as_ref()
    }

    pub fn model_id(&self) -> (s: Option<&String>)
        ensures
            opt_ref_view(s) == self@.model,
    {
        self.model.as_ref()
    }

    pub fn chosen_provider(&self) -> (p: Provider)
        ensures
            p == self@.provider,
    {
        self.provider
    }

    pub fn api_key_value(&self) -> (s: Option<&String>)
        ensures
            opt_ref_view(s) == self@.api_key,
    {
        self.api_key.as_ref()
    }

    pub fn base_url_value(&self) -> (s: Option<&String>)
        ensures
            opt_ref_view(s) == self@.base_url,
    {
        self.base_url.as_ref()
    }

    pub fn instructions_text(&self) -> (s: Option<&String>)
        ensures
            opt_ref_view(s) == self@.instructions,
    {
        self.instructions.as_ref()
    }

    pub fn native_tools_enabled(&self) -> (b: bool)
        ensures
            b == self@.native_tools,
    {
        self.native_tools
    }

    /// The environment entries, each name once, in no particular order.
    pub fn environment_entries(&self) -> (e: &Vec<(String, String)>)
        requires
            self.wf(),
        ensures
            forall|i: int, j: int| 0 <= i < j < e@.len() ==> e@[i].0@ != e@[j].0@,
            forall|i: int| 0 <= i < e@.len() ==> #[trigger] self@.environment.contains_key(e@[i].0@)
                && self@.environment[e@[i].0@] == e@[i].1@,
            forall|k: Seq<char>| #[trigger] self@.environment.contains_key(k) ==> exists|i: int| 0 <= i < e@.len() && e@[i].0@ == k,
    {
        &self.environment
    }
}

pub open spec fn opt_ref_view(s: Option<&String>) -> Option<Seq<char>> {
    match s {
        Some(s) => Some(s@),
        None => None,
    }
}

/// Seconds a control request may wait for its reply (a prompt waits for
/// its turn to end instead).
pub const CONTROL_TIMEOUT_SECS: u64 = 60;
/// Seconds a host callback may run.
pub const CALLBACK_TIMEOUT_SECS: u64 = 300;
/// Events buffered for each subscriber before a slow one lags.
pub const EVENT_CAPACITY: usize = 512;

/// The outcome of shutting the engine down: its exit code must be zero.
pub fn shutdown_result(exit_code: u32) -> (r: Result<()>)
    ensures
        exit_code == 0 ==> r is Ok,
        exit_code != 0 ==> (r matches Err(e) && e@ == ErrorView::Invalid(
            "native engine exited with an error"@,
        )),
{
    if exit_code == 0 {
        Ok(())
    } else {
        Err(crate::error::invalid("native engine exited with an error"))
    }
}

/// The id of a session that the engine created: its reply must carry a
/// string `sessionId`.
pub fn created_session_id(session_id: Option<String>) -> (r: Result<String>)
    ensures
        session_id matches Some(s) ==> r == Ok::<String, Error>(s),
        session_id is None ==> (r matches Err(e) && e@ == ErrorView::Invalid(
            "native session response lacks sessionId"@,
        )),
{
    match session_id {
        Some(s) => Ok(s),
        None => Err(crate::error::invalid("native session response lacks sessionId")),
    }
}

/// A harness works in a directory.
pub fn check_workspace(is_dir: bool) -> (r: Result<()>)
    ensures
        is_dir ==> r is Ok,
        !is_dir ==> (r matches Err(e) && e@ == ErrorView::Invalid("workspace must be a directory"@)),
{
    if is_dir {
        Ok(())
    } else {
        Err(crate::error::invalid("workspace must be a directory"))
    }
}

} // verus!
