//! Correlation of requests with their replies, and admission of requests to
//! the native engine: a bounded set of outstanding requests, one active
//! root turn, and the closed state after the engine's output ends.
use vstd::prelude::*;
use crate::error::{Error, ErrorView, Result};

verus! {

/// Outstanding requests that the harness lets wait on the engine at once.
pub const MAX_PENDING: usize = 128;
/// Outstanding host requests that the harness lets wait on one ACP peer.
pub const MAX_PEER_REPLIES: usize = 32;

/// Hands out request ids and tracks which of them still await a reply.
pub struct Correlator {
    pending: Vec<u64>,
    next_id: u64,
    capacity: usize,
}

impl Correlator {
    /// The ids that await a reply.
    pub closed spec fn pending(&self) -> Set<u64> {
        self.pending@.to_set()
    }

    /// The id the next request receives.
    pub closed spec fn next_id(&self) -> u64 {
        self.next_id
    }

    /// How many requests may wait at once.
    pub closed spec fn capacity(&self) -> nat {
        self.capacity as nat
    }

    pub closed spec fn wf(&self) -> bool {
        &&& self.pending@.no_duplicates()
        &&& self.pending@.len() <= self.capacity
        &&& forall|i: int| 0 <= i < self.pending@.len() ==> #[trigger] self.pending@[i] < self.next_id
    }

    /// The number of requests that await a reply.
    pub closed spec fn count(&self) -> nat {
        self.pending@.len()
    }

    pub proof fn lemma_count(&self)
        requires
            self.wf(),
        ensures
            self.count() == self.pending().len(),
            self.count() <= self.capacity(),
    {
        self.pending@.unique_seq_to_set();
    }

    /// A correlator with no request outstanding; the first id is 1.
    pub fn new(capacity: usize) -> (c: Correlator)
        ensures
            c.wf(),
            c.pending() == Set::<u64>::empty(),
            c.next_id() == 1,
            c.capacity() == capacity,
    {
        let c = Correlator { pending: Vec::new(), next_id: 1, capacity };
        proof {
            c.pending@.unique_seq_to_set();
        }
        c
    }

    /// The id the next request receives.
    pub fn peek_next_id(&self) -> (id: u64)
        ensures
            id == self.next_id(),
    {
        self.next_id
    }

    /// The number of requests that await a reply.
    pub fn len(&self) -> (n: usize)
        requires
            self.wf(),
        ensures
            n == self.count(),
    {
        self.pending.len()
    }

    /// Allocates the next id. The id is used up even when the request is
    /// refused because `capacity` requests already wait.
    pub fn open(&mut self) -> (r: Result<u64>)
        requires
            old(self).wf(),
            old(self).next_id() < u64::MAX,
        ensures
            final(self).wf(),
            final(self).next_id() == old(self).next_id() + 1,
            final(self).capacity() == old(self).capacity(),
            old(self).count() >= old(self).capacity() ==> (r matches Err(e) && e@ == ErrorView::Busy
                && final(self).pending() == old(self).pending() && final(self).count() == old(self).count()),
            old(self).count() < old(self).capacity() ==> r == Ok::<u64, Error>(old(self).next_id())
                && !old(self).pending().contains(old(self).next_id())
                && final(self).pending() == old(self).pending().insert(old(self).next_id())
                && final(self).count() == old(self).count() + 1,
    {
        let id = self.next_id;
        self.next_id = self.next_id + 1;
        if self.pending.len() >= self.capacity {
            return Err(Error::Busy);
        }
        let ghost before = self.pending@;
        proof {
            if before.contains(id) {
                let i = choose|i: int| 0 <= i < before.len() && before[i] == id;
                assert(before[i] < id);
            }
        }
        self.pending.push(id);
        proof {
            assert(self.pending@ == before.push(id));
            before.lemma_push_to_set_commute(id);
            assert forall|i: int, j: int| 0 <= i < j < self.pending@.len() implies self.pending@[i] != self.pending@[j] by {
                if j == before.len() {
                    assert(before.contains(self.pending@[i]));
                }
            }
        }
        Ok(id)
    }

    /// Stops waiting for `id`; reports whether it was outstanding.
    pub fn settle(&mut self, id: u64) -> (found: bool)
        requires
            old(self).wf(),
        ensures
            final(self).wf(),
            found == old(self).pending().contains(id),
            final(self).pending() == old(self).pending().remove(id),
            final(self).next_id() == old(self).next_id(),
            final(self).capacity() == old(self).capacity(),
            found ==> final(self).count() + 1 == old(self).count(),
            !found ==> final(self).count() == old(self).count(),
    {
        let ghost before = self.pending@;
        let mut i: usize = 0;
        while i < self.pending.len()
            invariant
                self.pending@ == before,
                self.next_id == old(self).next_id,
                self.capacity == old(self).capacity,
                old(self).pending@ == before,
                self.wf(),
                i <= before.len(),
                forall|j: int| 0 <= j < i ==> before[j] != id,
            decreases before.len() - i,
        {
            if self.pending[i] == id {
                self.pending.remove(i);
                proof {
                    let after = self.pending@;
                    assert(after =~= before.remove(i as int));
                    assert forall|x: u64| after.to_set().contains(x) == before.to_set().remove(id).contains(x) by {
                        if x == id {
                            if after.contains(x) {
                                let k = choose|k: int| 0 <= k < after.len() && after[k] == x;
                                if k < i {
                                    assert(after[k] == before[k]);
                                } else {
                                    assert(after[k] == before[k + 1]);
                                }
                            }
                        } else {
                            if before.contains(x) {
                                let k = choose|k: int| 0 <= k < before.len() && before[k] == x;
                                if k < i {
                                    assert(after[k] == x);
                                } else {
                                    assert(after[k - 1] == x);
                                }
                            }
                            if after.contains(x) {
                                let k = choose|k: int| 0 <= k < after.len() && after[k] == x;
                                if k < i {
                                    assert(before[k] == x);
                                } else {
                                    assert(before[k + 1] == x);
                                }
                            }
                        }
                    }
                    assert(after.to_set() =~= before.to_set().remove(id));
                    assert(before.contains(id));
                    assert forall|a: int, b: int| 0 <= a < b < after.len() implies after[a] != after[b] by {
                        let a2 = if a < i { a } else { a + 1 };
                        let b2 = if b < i { b } else { b + 1 };
                        assert(after[a] == before[a2]);
                        assert(after[b] == before[b2]);
                    }
                    assert forall|k: int| 0 <= k < after.len() implies #[trigger] after[k] < self.next_id by {
                        if k < i {
                            assert(after[k] == before[k]);
                        } else {
                            assert(after[k] == before[k + 1]);
                        }
                    }
                }
                return true;
            }
            i = i + 1;
        }
        proof {
            assert(!before.contains(id));
            assert(before.to_set().remove(id) =~= before.to_set());
        }
        false
    }

    /// Forgets every outstanding request.
    pub fn clear(&mut self)
        requires
            old(self).wf(),
        ensures
            final(self).wf(),
            final(self).pending() == Set::<u64>::empty(),
            final(self).count() == 0,
            final(self).next_id() == old(self).next_id(),
            final(self).capacity() == old(self).capacity(),
    {
        self.pending.clear();
        proof {
            assert(self.pending@.to_set() =~= Set::<u64>::empty());
        }
    }
}

/// The root turn in progress: the id of its prompt request, its session,
/// and the handler of host requests that its originator supplied.
pub struct Turn<H> {
    pub id: u64,
    pub session_id: String,
    pub handler: Option<H>,
}

/// An admitted request: its id, and whether it holds the root turn.
#[derive(Clone, Copy)]
pub struct Ticket {
    pub id: u64,
    pub turn: bool,
}

/// `ticket` was admitted as the root turn that is still in progress.
pub open spec fn holds_turn(ticket: Ticket, active: Option<(u64, Seq<char>)>) -> bool {
    ticket.turn && match active {
        Some(t) => t.0 == ticket.id,
        None => false,
    }
}

/// The session of the root turn in progress.
pub open spec fn turn_session(active: Option<(u64, Seq<char>)>) -> Seq<char> {
    match active {
        Some(t) => t.1,
        None => Seq::empty(),
    }
}

/// The harness's view of its requests to the native engine; `H` is how a
/// host request is handled.
pub struct Broker<H> {
    requests: Correlator,
    closed: bool,
    active: Option<Turn<H>>,
    default_handler: H,
    turn_marker: u64,
    sequence: u64,
}

impl<H> Broker<H> {
    pub closed spec fn pending(&self) -> Set<u64> {
        self.requests.pending()
    }

    pub closed spec fn count(&self) -> nat {
        self.requests.count()
    }

    pub closed spec fn next_id(&self) -> u64 {
        self.requests.next_id()
    }

    /// The engine's output has ended; no request can be answered.
    pub closed spec fn is_closed(&self) -> bool {
        self.closed
    }

    /// The root turn in progress: its request id and session id.
    pub closed spec fn active(&self) -> Option<(u64, Seq<char>)> {
        match &self.active {
            Some(t) => Some((t.id, t.session_id@)),
            None => None,
        }
    }

    /// The harness's own handler of host requests.
    pub closed spec fn default_handler(&self) -> H {
        self.default_handler
    }

    /// Who answers the engine's requests to the host: the handler that the
    /// originator of the root turn supplied, else the harness's own.
    pub closed spec fn callback_route(&self) -> H {
        match &self.active {
            Some(t) => match t.handler {
                Some(h) => h,
                None => self.default_handler,
            },
            None => self.default_handler,
        }
    }

    /// The id of the prompt that holds the root turn, 0 when none does; host
    /// callbacks made during a turn are abandoned when it changes.
    pub closed spec fn turn_marker(&self) -> u64 {
        self.turn_marker
    }

    /// The sequence number the next published event receives.
    pub closed spec fn sequence(&self) -> u64 {
        self.sequence
    }

    pub closed spec fn wf(&self) -> bool {
        &&& self.requests.wf()
        &&& self.requests.capacity() == MAX_PENDING
    }

    /// A broker for a freshly started engine: open, idle, ids and event
    /// sequence numbers starting at 1.
    pub fn new(default_handler: H) -> (b: Broker<H>)
        ensures
            b.wf(),
            b.default_handler() == default_handler,
            b.callback_route() == default_handler,
            b.pending() == Set::<u64>::empty(),
            b.count() == 0,
            b.next_id() == 1,
            !b.is_closed(),
            b.active() is None,
            b.turn_marker() == 0,
            b.sequence() == 1,
    {
        let requests = Correlator::new(MAX_PENDING);
        proof {
            requests.lemma_count();
        }
        Broker { requests, closed: false, active: None, default_handler, turn_marker: 0, sequence: 1 }
    }

    /// Admits a request. A closed engine refuses everything; beyond
    /// [`MAX_PENDING`] outstanding requests, or for a second prompt while a
    /// root turn runs, the request is refused as busy. A refused request
    /// still uses up its id. An admitted prompt takes the root turn in the
    /// session it names (the empty id when it names none), and its host
    /// requests go to `handler` (the harness's own when absent).
    pub fn submit(&mut self, is_prompt: bool, session_id: Option<&str>, handler: Option<H>) -> (r: Result<Ticket>)
        requires
            old(self).wf(),
            old(self).next_id() < u64::MAX,
        ensures
            final(self).wf(),
            final(self).default_handler() == old(self).default_handler(),
            final(self).is_closed() == old(self).is_closed(),
            final(self).sequence() == old(self).sequence(),
            old(self).is_closed() ==> (r matches Err(e) && e@ == ErrorView::Closed)
                && final(self).next_id() == old(self).next_id()
                && final(self).pending() == old(self).pending()
                && final(self).count() == old(self).count()
                && final(self).active() == old(self).active()
                && final(self).turn_marker() == old(self).turn_marker(),
            !old(self).is_closed() ==> final(self).next_id() == old(self).next_id() + 1,
            !old(self).is_closed() && (old(self).count() >= MAX_PENDING || (is_prompt
                && old(self).active() is Some)) ==> (r matches Err(e) && e@ == ErrorView::Busy)
                && final(self).pending() == old(self).pending()
                && final(self).count() == old(self).count()
                && final(self).active() == old(self).active()
                && final(self).turn_marker() == old(self).turn_marker(),
            !old(self).is_closed() && old(self).count() < MAX_PENDING && !(is_prompt
                && old(self).active() is Some) ==> r == Ok::<Ticket, Error>(
                Ticket { id: old(self).next_id(), turn: is_prompt },
            ) && !old(self).pending().contains(old(self).next_id()) && final(self).pending()
                == old(self).pending().insert(old(self).next_id()) && final(self).count()
                == old(self).count() + 1,
            !old(self).is_closed() && old(self).count() < MAX_PENDING && is_prompt && old(self).active() is None ==> final(self).active() == Some(
                (
                    old(self).next_id(),
                    match session_id {
                        Some(s) => s@,
                        None => Seq::<char>::empty(),
                    },
                ),
            ) && final(self).turn_marker() == old(self).next_id(),
            !is_prompt ==> final(self).active() == old(self).active() && final(self).turn_marker()
                == old(self).turn_marker(),
            r is Ok && is_prompt ==> final(self).callback_route() == match handler {
                Some(h) => h,
                None => old(self).default_handler(),
            },
            r is Err ==> final(self).callback_route() == old(self).callback_route(),
            !is_prompt ==> final(self).callback_route() == old(self).callback_route(),
    {
        if self.closed {
            return Err(Error::Closed);
        }
        let id = match self.requests.open() {
            Ok(id) => id,
            Err(e) => return Err(e),
        };
        if is_prompt {
            if self.active.is_some() {
                self.requests.settle(id);
                return Err(Error::Busy);
            }
            let session = match session_id {
                Some(s) => s.to_owned(),
                None => String::new(),
            };
            self.active = Some(Turn { id, session_id: session, handler });
            self.turn_marker = id;
        }
        Ok(Ticket { id, turn: is_prompt })
    }

    /// Ends an admitted request, whether it was answered or abandoned. A
    /// request that holds the root turn gives it up; if it was not answered,
    /// the session id of that turn is returned so that the turn is cancelled.
    pub fn release(&mut self, ticket: Ticket, complete: bool) -> (cancel: Option<String>)
        requires
            old(self).wf(),
        ensures
            final(self).wf(),
            final(self).pending() == old(self).pending().remove(ticket.id),
            final(self).next_id() == old(self).next_id(),
            final(self).is_closed() == old(self).is_closed(),
            final(self).sequence() == old(self).sequence(),
            final(self).default_handler() == old(self).default_handler(),
            holds_turn(ticket, old(self).active()) ==> final(self).callback_route() == old(self).default_handler(),
            !holds_turn(ticket, old(self).active()) ==> final(self).callback_route() == old(self).callback_route(),
            holds_turn(ticket, old(self).active()) ==> final(self).active() is None
                && final(self).turn_marker() == 0 && (complete ==> cancel is None)
                && (!complete ==> (cancel matches Some(s) && s@ == turn_session(old(self).active()))),
            !holds_turn(ticket, old(self).active()) ==> final(self).active() == old(self).active()
                && final(self).turn_marker() == old(self).turn_marker() && cancel is None,
    {
        self.requests.settle(ticket.id);
        if ticket.turn {
            let holds = match &self.active {
                Some(t) => t.id == ticket.id,
                None => false,
            };
            if holds {
                let mut taken: Option<Turn<H>> = None;
                std::mem::swap(&mut taken, &mut self.active);
                self.turn_marker = 0;
                if complete {
                    return None;
                }
                return match taken {
                    Some(t) => Some(t.session_id),
                    None => None,
                };
            }
        }
        None
    }

    /// Takes the reply to `id` off the outstanding set; reports whether a
    /// request was waiting for it.
    pub fn deliver(&mut self, id: u64) -> (found: bool)
        requires
            old(self).wf(),
        ensures
            final(self).wf(),
            found == old(self).pending().contains(id),
            final(self).pending() == old(self).pending().remove(id),
            final(self).next_id() == old(self).next_id(),
            final(self).is_closed() == old(self).is_closed(),
            final(self).active() == old(self).active(),
            final(self).callback_route() == old(self).callback_route(),
            final(self).turn_marker() == old(self).turn_marker(),
            final(self).sequence() == old(self).sequence(),
    {
        self.requests.settle(id)
    }

    /// Records that the engine's output ended: every waiting request fails
    /// and no new request is admitted.
    pub fn shut(&mut self)
        requires
            old(self).wf(),
        ensures
            final(self).wf(),
            final(self).is_closed(),
            final(self).pending() == Set::<u64>::empty(),
            final(self).count() == 0,
            final(self).next_id() == old(self).next_id(),
            final(self).active() == old(self).active(),
            final(self).callback_route() == old(self).callback_route(),
            final(self).turn_marker() == old(self).turn_marker(),
            final(self).sequence() == old(self).sequence(),
    {
        self.requests.clear();
        self.closed = true;
    }

    /// The id the next request receives.
    pub fn peek_next_id(&self) -> (id: u64)
        ensures
            id == self.next_id(),
    {
        self.requests.peek_next_id()
    }

    /// Whether the engine's output has ended.
    pub fn closed(&self) -> (c: bool)
        ensures
            c == self.is_closed(),
    {
        self.closed
    }

    /// The current turn marker.
    pub fn turn(&self) -> (t: u64)
        ensures
            t == self.turn_marker(),
    {
        self.turn_marker
    }

    /// The handler for a request that the engine makes of the host now.
    pub fn callback_handler(&self) -> (h: &H)
        ensures
            *h == self.callback_route(),
    {
        match &self.active {
            Some(t) => match &t.handler {
                Some(h) => h,
                None => &self.default_handler,
            },
            None => &self.default_handler,
        }
    }

    /// Whether a root turn is in progress.
    pub fn has_active_turn(&self) -> (b: bool)
        ensures
            b == self.active() is Some,
    {
        self.active.is_some()
    }

    /// Number of requests that await a reply.
    pub fn outstanding(&self) -> (n: usize)
        requires
            self.wf(),
        ensures
            n == self.count(),
    {
        self.requests.len()
    }

    /// Assigns the next event sequence number; sequence numbers wrap.
    pub fn next_sequence(&mut self) -> (s: u64)
        ensures
            s == old(self).sequence(),
            final(self).sequence() == if old(self).sequence() == u64::MAX { 0 } else { (old(self).sequence() + 1) as u64 },
            final(self).pending() == old(self).pending(),
            final(self).count() == old(self).count(),
            final(self).next_id() == old(self).next_id(),
            final(self).is_closed() == old(self).is_closed(),
            final(self).active() == old(self).active(),
            final(self).callback_route() == old(self).callback_route(),
            final(self).turn_marker() == old(self).turn_marker(),
            final(self).wf() == old(self).wf(),
    {
        let s = self.sequence;
        self.sequence = if s == u64::MAX { 0 } else { s + 1 };
        s
    }
}

/// A request that is admitted (its fresh id joins the outstanding set, as
/// `submit` and `open` state) and later released or settled (its id leaves
/// it, as `release` and `settle` state) leaves the outstanding set as it was.
pub proof fn lemma_request_lifecycle(outstanding: Set<u64>, id: u64)
    requires
        !outstanding.contains(id),
    ensures
        outstanding.insert(id).remove(id) == outstanding,
{
    assert(outstanding.insert(id).remove(id) =~= outstanding);
}

} // verus!
