//! What holds of a server over its whole life, whatever order things happen in.
use std::convert::Infallible;

use http_body_util::Full;
use hyper::body::Bytes;
use hyper::Response;
use vstd::prelude::*;

use crate::addr::law_addr_text_is_unique;
use crate::addr::SocketAddr;
use crate::handler::answers;
use crate::server::ServerView;
use crate::tasks::accept_action;
use crate::tasks::AcceptAction;
use crate::tasks::AcceptEvent;
use crate::tasks::ConnectionEvent;
use crate::uri::shown_target;
use crate::uri::url_text;

verus! {

/// Something that happens to a server, or to one of its tasks. Connections and
/// requests are told apart by numbers. `E` stands for errors of every kind.
pub enum Event<E> {
    /// Something happened to the task that accepts connections.
    Accepting(AcceptEvent<nat, E>),
    /// A request arrived on a connection, and the handler was called on it.
    Arrived { connection: nat, request: nat },
    /// The handler of a request finished, and the client was sent the answer.
    Handled {
        request: nat,
        outcome: Result<Response<Full<Bytes>>, E>,
        answer: Result<Response<Full<Bytes>>, Infallible>,
    },
    /// A request was given up while its handler was running.
    Aborted(nat),
    /// The task that serves a connection came to its end.
    Ended { connection: nat, event: ConnectionEvent<E> },
    /// The server was told to close.
    Closed,
    /// A reference to the server was made.
    Cloned,
    /// A reference to the server was given up.
    Dropped,
}

/// A request that was handled: what its handler came to, and what the client was
/// answered.
pub struct Exchange<E> {
    pub outcome: Result<Response<Full<Bytes>>, E>,
    pub answer: Result<Response<Full<Bytes>>, Infallible>,
}

/// All that has become of a server.
pub struct Books<E> {
    /// The server itself.
    pub server: ServerView,
    /// The number of references to it.
    pub handles: int,
    /// Whether the task that accepts connections is running.
    pub accepting: bool,
    /// The connections that were accepted.
    pub accepted: Set<nat>,
    /// The connections whose tasks are running.
    pub open: Set<nat>,
    /// The requests that arrived, each with its connection.
    pub arrived: Map<nat, nat>,
    /// The requests that were handled.
    pub handled: Map<nat, Exchange<E>>,
    /// The requests that were given up.
    pub aborted: Set<nat>,
}

impl<E> Books<E> {
    /// A server that has just begun to listen, with one reference to it.
    pub open spec fn start(addr: SocketAddr) -> Books<E> {
        Books {
            server: ServerView::fresh(addr),
            handles: 1,
            accepting: true,
            accepted: Set::empty(),
            open: Set::empty(),
            arrived: Map::empty(),
            handled: Map::empty(),
            aborted: Set::empty(),
        }
    }

    /// The requests whose handlers are running.
    pub open spec fn pending(self) -> Set<nat> {
        self.arrived.dom().difference(self.handled.dom()).difference(self.aborted)
    }

    /// Whether all tasks of the server have come to their end.
    pub open spec fn is_over(self) -> bool {
        !self.accepting && self.open =~= Set::<nat>::empty()
    }

    /// Whether an event can happen next.
    ///
    /// A task hears of a close only if the server was closed. A request arrives
    /// once, on a connection whose task is running; it is handled or given up
    /// only while its handler is running, and is answered as it should be. The
    /// handlers of a connection run within its task, so the task ends after
    /// they have finished or been given up. Only one who has a reference to the
    /// server can copy it, give it up or close the server.
    pub open spec fn allows(self, event: Event<E>) -> bool {
        match event {
            Event::Accepting(event) => self.accepting && match event {
                AcceptEvent::Closed => self.server.closed,
                AcceptEvent::Accepted(connection) => !self.accepted.contains(connection),
                AcceptEvent::Failed(_) => true,
            },
            Event::Arrived { connection, request } => {
                &&& self.open.contains(connection)
                &&& !self.arrived.contains_key(request)
            },
            Event::Handled { request, outcome, answer } => {
                &&& self.pending().contains(request)
                &&& answers(outcome, answer)
            },
            Event::Aborted(request) => self.pending().contains(request),
            Event::Ended { connection, event } => {
                &&& self.open.contains(connection)
                &&& forall|request: nat| #[trigger]
                    self.pending().contains(request) ==> self.arrived[request] != connection
                &&& event is Closed ==> self.server.closed
            },
            Event::Closed => self.handles > 0,
            Event::Cloned => self.handles > 0,
            Event::Dropped => self.handles > 0,
        }
    }

    /// What becomes of a server by an event. The tasks do as the server's
    /// decisions tell them. A request that arrives is begun, one whose handler
    /// finishes is completed, one that is given up is aborted. Closing closes
    /// the server, and so does giving up the last reference to it. Where all its
    /// tasks have ended, there is none left to be told, and closing fails.
    pub open spec fn next(self, event: Event<E>) -> Books<E> {
        match event {
            Event::Accepting(event) => match accept_action(event) {
                AcceptAction::Serve(connection) => Books {
                    accepted: self.accepted.insert(connection),
                    open: self.open.insert(connection),
                    ..self
                },
                AcceptAction::Stop => Books { accepting: false, ..self },
                AcceptAction::ReportAndStop(_) => Books { accepting: false, ..self },
            },
            Event::Arrived { connection, request } => Books {
                server: self.server.begin(),
                arrived: self.arrived.insert(request, connection),
                ..self
            },
            Event::Handled { request, outcome, answer } => Books {
                server: self.server.complete(),
                handled: self.handled.insert(request, Exchange { outcome, answer }),
                ..self
            },
            Event::Aborted(request) => Books {
                server: self.server.abort(),
                aborted: self.aborted.insert(request),
                ..self
            },
            Event::Ended { connection, .. } => Books {
                open: self.open.remove(connection),
                ..self
            },
            Event::Closed => Books {
                server: if self.is_over() {
                    self.server
                } else {
                    self.server.close()
                },
                ..self
            },
            Event::Cloned => Books { handles: self.handles + 1, ..self },
            Event::Dropped => Books {
                server: if self.handles == 1 && !self.is_over() {
                    self.server.close()
                } else {
                    self.server
                },
                handles: self.handles - 1,
                ..self
            },
        }
    }

    /// What the books of a server have in common at any time.
    pub open spec fn is_sound(self) -> bool {
        &&& self.handles >= 0
        &&& self.handles == 0 ==> self.server.closed || self.is_over()
        &&& self.open.finite()
        &&& self.open.subset_of(self.accepted)
        &&& self.arrived.dom().finite()
        &&& self.handled.dom().finite()
        &&& self.aborted.finite()
        &&& self.handled.dom().subset_of(self.arrived.dom())
        &&& self.aborted.subset_of(self.arrived.dom())
        &&& self.handled.dom().disjoint(self.aborted)
        &&& forall|request: nat| #[trigger]
            self.handled.contains_key(request) ==> answers(
                self.handled[request].outcome,
                self.handled[request].answer,
            )
        &&& forall|request: nat| #[trigger]
            self.pending().contains(request) ==> self.open.contains(self.arrived[request])
        &&& self.server.req_count == self.handled.dom().len()
        &&& self.server.concurrent_req_count == self.pending().len()
        &&& self.server.req_count + self.server.concurrent_req_count + self.aborted.len()
            == self.arrived.dom().len()
        &&& self.server.signals.len() > 0
        &&& self.server.signals[0] == 0u8
        &&& forall|i: int|
            0 < i < self.server.signals.len() ==> #[trigger] self.server.signals[i] == 1u8
        &&& self.server.closed <==> self.server.signals.len() > 1
    }
}

/// What becomes of a server that listens on `addr` by a history.
pub open spec fn run<E>(addr: SocketAddr, events: Seq<Event<E>>) -> Books<E>
    decreases events.len(),
{
    if events.len() == 0 {
        Books::start(addr)
    } else {
        run(addr, events.drop_last()).next(events.last())
    }
}

/// The server after a history.
pub open spec fn after<E>(addr: SocketAddr, events: Seq<Event<E>>) -> ServerView {
    run(addr, events).server
}

/// Whether a history is possible: each event can happen when it does.
pub open spec fn is_possible<E>(addr: SocketAddr, events: Seq<Event<E>>) -> bool
    decreases events.len(),
{
    events.len() > 0 ==> {
        &&& is_possible(addr, events.drop_last())
        &&& run(addr, events.drop_last()).allows(events.last())
    }
}

/// An event that can happen keeps the books sound.
proof fn lemma_next_is_sound<E>(books: Books<E>, event: Event<E>)
    requires
        books.is_sound(),
        books.allows(event),
    ensures
        books.next(event).is_sound(),
{
    let next = books.next(event);
    match event {
        Event::Arrived { connection, request } => {
            assert(next.pending() =~= books.pending().insert(request));
            assert(!books.pending().contains(request));
        },
        Event::Handled { request, outcome, answer } => {
            assert(next.handled.dom() =~= books.handled.dom().insert(request));
            assert(next.pending() =~= books.pending().remove(request));
        },
        Event::Aborted(request) => {
            assert(next.pending() =~= books.pending().remove(request));
        },
        Event::Ended { connection, .. } => {
            assert(next.pending() == books.pending());
        },
        _ => {
            assert(next.pending() == books.pending());
        },
    }
}

/// The books are sound after every possible history.
pub proof fn law_books_are_sound<E>(addr: SocketAddr, events: Seq<Event<E>>)
    requires
        is_possible(addr, events),
    ensures
        run(addr, events).is_sound(),
        after(addr, events).addr == addr,
    decreases events.len(),
{
    if events.len() > 0 {
        law_books_are_sound(addr, events.drop_last());
        lemma_next_is_sound(run(addr, events.drop_last()), events.last());
    } else {
        assert(run(addr, events).pending() =~= Set::empty());
    }
}

/// The counts of a server are what they are meant to be: the first is the
/// number of requests that were handled, the second the number of those whose
/// handlers are running now. A request that was given up is in neither.
pub proof fn law_counts<E>(addr: SocketAddr, events: Seq<Event<E>>)
    requires
        is_possible(addr, events),
    ensures
        after(addr, events).req_count == run(addr, events).handled.dom().len(),
        after(addr, events).concurrent_req_count == run(addr, events).pending().len(),
{
    law_books_are_sound(addr, events);
}

/// No request is lost: the requests that were handled, those whose handlers are
/// running and those that were given up are as many as arrived.
pub proof fn law_no_request_is_lost<E>(addr: SocketAddr, events: Seq<Event<E>>)
    requires
        is_possible(addr, events),
    ensures
        after(addr, events).req_count + after(addr, events).concurrent_req_count + run(
            addr,
            events,
        ).aborted.len() == run(addr, events).arrived.dom().len(),
{
    law_books_are_sound(addr, events);
}

/// Once every request that arrived has been handled, the server has counted
/// exactly the requests that were sent to it, and none is in progress.
pub proof fn law_all_handled<E>(addr: SocketAddr, events: Seq<Event<E>>)
    requires
        is_possible(addr, events),
        run(addr, events).handled.dom() == run(addr, events).arrived.dom(),
    ensures
        after(addr, events).req_count == run(addr, events).arrived.dom().len(),
        after(addr, events).concurrent_req_count == 0,
{
    law_books_are_sound(addr, events);
    assert(run(addr, events).pending() =~= Set::empty());
}

/// Once every running request has been given up, none is in progress.
pub proof fn law_all_given_up<E>(addr: SocketAddr, events: Seq<Event<E>>)
    requires
        is_possible(addr, events),
        run(addr, events).pending() == Set::<nat>::empty(),
    ensures
        after(addr, events).concurrent_req_count == 0,
{
    law_books_are_sound(addr, events);
}

/// A request that is completed or given up was counted when it began, so the
/// number of requests in progress never falls below zero.
pub proof fn law_finish_was_begun<E>(addr: SocketAddr, events: Seq<Event<E>>, event: Event<E>)
    requires
        is_possible(addr, events.push(event)),
        event is Handled || event is Aborted,
    ensures
        after(addr, events).concurrent_req_count > 0,
{
    assert(events.push(event).drop_last() =~= events);
    law_books_are_sound(addr, events);
    let pending = run(addr, events).pending();
    if pending.len() == 0 {
        assert(pending =~= Set::empty());
    }
}

/// The number of handled requests never decreases.
pub proof fn law_req_count_grows<E>(
    addr: SocketAddr,
    earlier: Seq<Event<E>>,
    later: Seq<Event<E>>,
)
    ensures
        after(addr, earlier).req_count <= after(addr, earlier + later).req_count,
    decreases later.len(),
{
    if later.len() == 0 {
        assert(earlier + later =~= earlier);
    } else {
        assert((earlier + later).drop_last() =~= earlier + later.drop_last());
        law_req_count_grows(addr, earlier, later.drop_last());
    }
}

/// Whether an event tells the tasks of a server to close: there is a task to be
/// told, and the server is told to close or loses its last reference.
pub open spec fn notifies<E>(books: Books<E>, event: Event<E>) -> bool {
    &&& books.accepting || exists|connection: nat| #[trigger] books.open.contains(connection)
    &&& event is Closed || event is Dropped && books.handles == 1
}

/// The tasks of a server are notified of a close, and of nothing else, once for
/// each event that tells them to close; and the server is closed exactly if they
/// have been.
pub proof fn law_tasks_are_notified_of_closes_only<E>(
    addr: SocketAddr,
    events: Seq<Event<E>>,
    event: Event<E>,
)
    requires
        is_possible(addr, events.push(event)),
    ensures
        after(addr, events).signals[0] == 0u8,
        forall|i: int|
            0 < i < after(addr, events).signals.len() ==> #[trigger] after(addr, events).signals[i]
                == 1u8,
        after(addr, events).closed <==> after(addr, events).signals.len() > 1,
        notifies(run(addr, events), event) ==> after(addr, events.push(event)).signals == after(
            addr,
            events,
        ).signals.push(1u8),
        !notifies(run(addr, events), event) ==> after(addr, events.push(event)).signals == after(
            addr,
            events,
        ).signals,
{
    assert(events.push(event).drop_last() =~= events);
    law_books_are_sound(addr, events);
    let books = run(addr, events);
    assert(books.is_over() <==> !books.accepting && !exists|connection: nat| #[trigger]
        books.open.contains(connection));
}

/// A closed server stays closed.
pub proof fn law_closed_for_good<E>(
    addr: SocketAddr,
    earlier: Seq<Event<E>>,
    later: Seq<Event<E>>,
)
    requires
        after(addr, earlier).closed,
    ensures
        after(addr, earlier + later).closed,
    decreases later.len(),
{
    if later.len() == 0 {
        assert(earlier + later =~= earlier);
    } else {
        assert((earlier + later).drop_last() =~= earlier + later.drop_last());
        law_closed_for_good(addr, earlier, later.drop_last());
    }
}

/// A server is closed only if it was told to, or no reference to it is left; and
/// then it is closed, unless all its tasks have ended.
pub proof fn law_closed_when<E>(addr: SocketAddr, events: Seq<Event<E>>)
    requires
        is_possible(addr, events),
    ensures
        after(addr, events).closed ==> events.contains(Event::Closed) || run(addr, events).handles
            == 0,
        events.contains(Event::Closed) || run(addr, events).handles == 0 ==> after(
            addr,
            events,
        ).closed || run(addr, events).is_over(),
    decreases events.len(),
{
    law_books_are_sound(addr, events);
    if events.len() > 0 {
        let earlier = events.drop_last();
        law_closed_when(addr, earlier);
        law_books_are_sound(addr, earlier);
        assert(events.contains(Event::Closed) <==> earlier.contains(Event::Closed)
            || events.last() == Event::<E>::Closed) by {
            if earlier.contains(Event::Closed) {
                let i = earlier.index_of(Event::Closed);
                assert(events[i] == Event::<E>::Closed);
            }
            if events.contains(Event::Closed) {
                let i = events.index_of(Event::Closed);
                if i < earlier.len() {
                    assert(earlier[i] == Event::<E>::Closed);
                }
            }
            if events.last() == Event::<E>::Closed {
                assert(events[events.len() - 1] == Event::<E>::Closed);
            }
        }
    }
}

/// Whether the listener of a server never fails in a history.
pub open spec fn listener_works<E>(events: Seq<Event<E>>) -> bool {
    forall|i: int|
        0 <= i < events.len() ==> !((#[trigger] events[i]) matches Event::Accepting(
            AcceptEvent::Failed(_),
        ))
}

/// A server whose listener works goes on accepting as long as it is not closed:
/// every new connection is served.
pub proof fn law_open_server_accepts<E>(addr: SocketAddr, events: Seq<Event<E>>)
    requires
        is_possible(addr, events),
        listener_works(events),
        !after(addr, events).closed,
    ensures
        run(addr, events).accepting,
        forall|connection: nat|
            !(#[trigger] run(addr, events).accepted.contains(connection)) ==> {
                let event = Event::<E>::Accepting(AcceptEvent::Accepted(connection));
                &&& run(addr, events).allows(event)
                &&& run(addr, events).next(event).open.contains(connection)
            },
    decreases events.len(),
{
    if events.len() > 0 {
        let earlier = events.drop_last();
        assert(events[events.len() - 1] == events.last());
        assert forall|i: int| 0 <= i < earlier.len() implies !((#[trigger] earlier[i])
            matches Event::Accepting(AcceptEvent::Failed(_))) by {
            assert(earlier[i] == events[i]);
        }
        law_open_server_accepts(addr, earlier);
    }
}

/// A server that nobody tells to close, and whose listener works, stays open and
/// goes on accepting as long as a reference to it is left, and is closed once
/// the last one is given up.
pub proof fn law_open_while_referenced<E>(addr: SocketAddr, events: Seq<Event<E>>)
    requires
        is_possible(addr, events),
        listener_works(events),
        !events.contains(Event::Closed),
    ensures
        run(addr, events).handles > 0 ==> !after(addr, events).closed && run(
            addr,
            events,
        ).accepting,
        run(addr, events).handles == 0 ==> after(addr, events).closed,
        run(addr, events).handles >= 0,
{
    law_books_are_sound(addr, events);
    law_closed_when(addr, events);
    if !after(addr, events).closed {
        law_open_server_accepts(addr, events);
    }
}

/// Every prefix of a possible history is possible, and its next event can
/// happen.
proof fn lemma_prefix<E>(addr: SocketAddr, events: Seq<Event<E>>, i: int)
    requires
        is_possible(addr, events),
        0 <= i <= events.len(),
    ensures
        is_possible(addr, events.take(i)),
        i < events.len() ==> run(addr, events.take(i)).allows(events[i]),
        i < events.len() ==> run(addr, events.take(i + 1)) == run(addr, events.take(i)).next(
            events[i],
        ),
    decreases events.len() - i,
{
    if i == events.len() {
        assert(events.take(i) =~= events);
    } else {
        lemma_prefix(addr, events, i + 1);
        assert(events.take(i + 1).drop_last() =~= events.take(i));
        assert(events.take(i + 1).last() == events[i]);
    }
}

/// What has happened to a request stays happened.
proof fn lemma_books_grow<E>(addr: SocketAddr, events: Seq<Event<E>>, m: int, n: int)
    requires
        is_possible(addr, events),
        0 <= m <= n <= events.len(),
    ensures
        run(addr, events.take(m)).arrived.dom().subset_of(run(addr, events.take(n)).arrived.dom()),
        run(addr, events.take(m)).handled.dom().subset_of(run(addr, events.take(n)).handled.dom()),
        run(addr, events.take(m)).aborted.subset_of(run(addr, events.take(n)).aborted),
    decreases n - m,
{
    if m < n {
        lemma_books_grow(addr, events, m, n - 1);
        lemma_prefix(addr, events, n - 1);
    }
}

/// Whether an event is the arrival of a request, and the call of the handler on
/// it.
pub open spec fn calls_handler<E>(event: Event<E>, request: nat) -> bool {
    event matches Event::Arrived { request: r, .. } && r == request
}

/// Whether an event finishes a request, well or not.
pub open spec fn finishes<E>(event: Event<E>, request: nat) -> bool {
    match event {
        Event::Handled { request: r, .. } => r == request,
        Event::Aborted(r) => r == request,
        _ => false,
    }
}

/// A request that is in the books has come there by an event.
proof fn lemma_where_from<E>(addr: SocketAddr, events: Seq<Event<E>>, n: int, request: nat)
    requires
        is_possible(addr, events),
        0 <= n <= events.len(),
    ensures
        run(addr, events.take(n)).arrived.contains_key(request) ==> exists|k: int|
            0 <= k < n && #[trigger] calls_handler(events[k], request),
        run(addr, events.take(n)).handled.contains_key(request) || run(
            addr,
            events.take(n),
        ).aborted.contains(request) ==> exists|k: int|
            0 <= k < n && #[trigger] finishes(events[k], request),
    decreases n,
{
    if n > 0 {
        lemma_where_from(addr, events, n - 1, request);
        lemma_prefix(addr, events, n - 1);
        let books = run(addr, events.take(n - 1));
        let next = run(addr, events.take(n));
        assert(next == books.next(events[n - 1]));
        if next.arrived.contains_key(request) && !books.arrived.contains_key(request) {
            assert(calls_handler(events[n - 1], request));
        }
        if next.handled.contains_key(request) && !books.handled.contains_key(request) {
            assert(finishes(events[n - 1], request));
        }
        if next.aborted.contains(request) && !books.aborted.contains(request) {
            assert(finishes(events[n - 1], request));
        }
    } else {
        assert(events.take(n) =~= Seq::empty());
    }
}

/// The handler is not called twice on a request.
pub proof fn law_one_call_per_request<E>(
    addr: SocketAddr,
    events: Seq<Event<E>>,
    i: int,
    j: int,
    request: nat,
)
    requires
        is_possible(addr, events),
        0 <= i < events.len(),
        0 <= j < events.len(),
        calls_handler(events[i], request),
        calls_handler(events[j], request),
    ensures
        i == j,
{
    lemma_prefix(addr, events, i);
    lemma_prefix(addr, events, j);
    if i < j {
        lemma_books_grow(addr, events, i + 1, j);
        assert(run(addr, events.take(i + 1)).arrived.dom().contains(request));
    } else if j < i {
        lemma_books_grow(addr, events, j + 1, i);
        assert(run(addr, events.take(j + 1)).arrived.dom().contains(request));
    }
}

/// Each request is finished once: it is not answered twice, nor both answered
/// and given up.
pub proof fn law_one_end_per_request<E>(
    addr: SocketAddr,
    events: Seq<Event<E>>,
    i: int,
    j: int,
    request: nat,
)
    requires
        is_possible(addr, events),
        0 <= i < events.len(),
        0 <= j < events.len(),
        finishes(events[i], request),
        finishes(events[j], request),
    ensures
        i == j,
{
    lemma_prefix(addr, events, i);
    lemma_prefix(addr, events, j);
    if i < j {
        lemma_books_grow(addr, events, i + 1, j);
        let books = run(addr, events.take(i + 1));
        assert(books.handled.dom().contains(request) || books.aborted.contains(request));
    } else if j < i {
        lemma_books_grow(addr, events, j + 1, i);
        let books = run(addr, events.take(j + 1));
        assert(books.handled.dom().contains(request) || books.aborted.contains(request));
    }
}

/// However many requests come on however many connections: each one that is
/// answered is one that the handler was called on before, and its answer is the
/// one to the outcome of that call. Each one that the handler was called on is
/// answered later, given up later, or still being handled.
pub proof fn law_every_request_gets_its_answer<E>(addr: SocketAddr, events: Seq<Event<E>>, i: int)
    requires
        is_possible(addr, events),
        0 <= i < events.len(),
    ensures
        events[i] matches Event::Handled { request, outcome, answer } ==> {
            &&& answers(outcome, answer)
            &&& exists|k: int| 0 <= k < i && #[trigger] calls_handler(events[k], request)
        },
        events[i] matches Event::Arrived { request, .. } ==> {
            ||| run(addr, events).pending().contains(request)
            ||| exists|k: int| i < k < events.len() && #[trigger] finishes(events[k], request)
        },
{
    lemma_prefix(addr, events, i);
    match events[i] {
        Event::Handled { request, .. } => {
            lemma_where_from(addr, events, i, request);
        },
        Event::Arrived { request, .. } => {
            let n = events.len() as int;
            assert(events.take(n) =~= events);
            lemma_books_grow(addr, events, i + 1, n);
            assert(run(addr, events.take(i + 1)).arrived.dom().contains(request));
            if !run(addr, events).pending().contains(request) {
                lemma_where_from(addr, events, n, request);
                let k = choose|k: int| 0 <= k < n && #[trigger] finishes(events[k], request);
                lemma_prefix(addr, events, k);
                if k < i {
                    lemma_books_grow(addr, events, k, i);
                    assert(run(addr, events.take(k)).arrived.dom().contains(request));
                }
            }
        },
        _ => {},
    }
}

/// Once all tasks of a server have come to their end, every request that had
/// arrived was handled or given up. From then on the handler is never called
/// again, nothing more is handled, and the counts and the address stay as they
/// are, with no request in progress.
pub proof fn law_nothing_happens_after_the_end<E>(
    addr: SocketAddr,
    earlier: Seq<Event<E>>,
    later: Seq<Event<E>>,
)
    requires
        is_possible(addr, earlier + later),
        run(addr, earlier).is_over(),
    ensures
        run(addr, earlier).pending() == Set::<nat>::empty(),
        run(addr, earlier + later).is_over(),
        run(addr, earlier + later).arrived == run(addr, earlier).arrived,
        run(addr, earlier + later).handled == run(addr, earlier).handled,
        run(addr, earlier + later).aborted == run(addr, earlier).aborted,
        after(addr, earlier + later).req_count == after(addr, earlier).req_count,
        after(addr, earlier + later).concurrent_req_count == 0,
        after(addr, earlier + later).addr == addr,
    decreases later.len(),
{
    let events = earlier + later;
    law_books_are_sound(addr, events);
    if later.len() == 0 {
        assert(events =~= earlier);
        assert(run(addr, earlier).pending() =~= Set::empty()) by {
            assert forall|request: nat| !run(addr, earlier).pending().contains(request) by {
                if run(addr, earlier).pending().contains(request) {
                    assert(run(addr, earlier).open.contains(run(addr, earlier).arrived[request]));
                }
            }
        }
    } else {
        assert(events.drop_last() =~= earlier + later.drop_last());
        law_nothing_happens_after_the_end(addr, earlier, later.drop_last());
        assert(run(addr, earlier + later.drop_last()).pending() =~= Set::empty());
    }
}

/// What a task that hears of the close has to do: whether an event gives up a
/// request, or is a task that ends because the server was closed.
pub open spec fn is_hearing<E>(event: Event<E>) -> bool {
    match event {
        Event::Aborted(_) => true,
        Event::Ended { event, .. } => event is Closed,
        Event::Accepting(event) => event is Closed,
        _ => false,
    }
}

/// A closed server comes to its end by its tasks hearing of the close, whatever
/// state it was closed in: there is nothing else to wait for. All requests in
/// progress are given up on the way, and none is handled or arrives.
pub proof fn law_hearing_the_close_ends_all<E>(addr: SocketAddr, earlier: Seq<Event<E>>) -> (later:
    Seq<Event<E>>)
    requires
        is_possible(addr, earlier),
        after(addr, earlier).closed,
    ensures
        forall|i: int| 0 <= i < later.len() ==> is_hearing(#[trigger] later[i]),
        is_possible(addr, earlier + later),
        run(addr, earlier + later).is_over(),
        run(addr, earlier + later).arrived == run(addr, earlier).arrived,
        run(addr, earlier + later).handled == run(addr, earlier).handled,
        run(addr, earlier + later).aborted =~= run(addr, earlier).aborted.union(
            run(addr, earlier).pending(),
        ),
        after(addr, earlier + later).req_count == after(addr, earlier).req_count,
        after(addr, earlier + later).concurrent_req_count == 0,
    decreases
            run(addr, earlier).pending().len() + run(addr, earlier).open.len() + (if run(
                addr,
                earlier,
            ).accepting {
                1nat
            } else {
                0nat
            }),
{
    let books = run(addr, earlier);
    law_books_are_sound(addr, earlier);
    if books.is_over() {
        assert(earlier + Seq::<Event<E>>::empty() =~= earlier);
        law_nothing_happens_after_the_end(addr, earlier, Seq::empty());
        Seq::empty()
    } else {
        let event: Event<E> = if books.pending().len() > 0 {
            Event::Aborted(books.pending().choose())
        } else if books.open.len() > 0 {
            Event::Ended { connection: books.open.choose(), event: ConnectionEvent::Closed }
        } else {
            Event::Accepting(AcceptEvent::Closed)
        };
        if books.pending().len() > 0 {
            assert(books.pending().contains(books.pending().choose()));
            assert(books.next(event).pending() =~= books.pending().remove(
                books.pending().choose(),
            ));
        } else {
            assert(books.pending() =~= Set::empty());
            assert(books.next(event).pending() =~= Set::empty());
            if books.open.len() > 0 {
                assert(books.open.contains(books.open.choose()));
            } else {
                assert(books.open =~= Set::empty());
            }
        }
        assert(books.allows(event));
        let now = earlier.push(event);
        assert(now.drop_last() =~= earlier);
        assert(run(addr, now) == books.next(event));
        let rest = law_hearing_the_close_ends_all(addr, now);
        assert(earlier + (seq![event] + rest) =~= now + rest);
        seq![event] + rest
    }
}

/// Something that happens to one of several servers, which are told apart by
/// numbers.
pub struct Step<E> {
    pub server: nat,
    pub event: Event<E>,
}

/// What becomes of several servers, which listen on the addresses `addrs`, by
/// what happens to them.
pub open spec fn run_all<E>(addrs: Map<nat, SocketAddr>, steps: Seq<Step<E>>) -> Map<
    nat,
    Books<E>,
>
    decreases steps.len(),
{
    if steps.len() == 0 {
        addrs.map_values(|addr: SocketAddr| Books::start(addr))
    } else {
        let all = run_all(addrs, steps.drop_last());
        let step = steps.last();
        all.insert(step.server, all[step.server].next(step.event))
    }
}

/// What happens to one of several servers.
pub open spec fn own<E>(steps: Seq<Step<E>>, server: nat) -> Seq<Event<E>>
    decreases steps.len(),
{
    if steps.len() == 0 {
        Seq::empty()
    } else if steps.last().server == server {
        own(steps.drop_last(), server).push(steps.last().event)
    } else {
        own(steps.drop_last(), server)
    }
}

/// Servers do not touch each other: what becomes of one is a matter of what
/// happens to it alone.
pub proof fn law_servers_are_independent<E>(
    addrs: Map<nat, SocketAddr>,
    steps: Seq<Step<E>>,
    server: nat,
)
    requires
        addrs.contains_key(server),
    ensures
        run_all(addrs, steps).contains_key(server),
        run_all(addrs, steps)[server] == run(addrs[server], own(steps, server)),
    decreases steps.len(),
{
    if steps.len() > 0 {
        law_servers_are_independent(addrs, steps.drop_last(), server);
        if steps.last().server == server {
            assert(own(steps, server).drop_last() =~= own(steps.drop_last(), server));
        }
    }
}

/// Whatever happens to other servers, be they closed or given up, leaves a
/// server with its counts, its tasks and its requests.
pub proof fn law_other_servers_change_nothing<E>(
    addrs: Map<nat, SocketAddr>,
    earlier: Seq<Step<E>>,
    later: Seq<Step<E>>,
    server: nat,
)
    requires
        addrs.contains_key(server),
        forall|i: int| 0 <= i < later.len() ==> (#[trigger] later[i]).server != server,
    ensures
        run_all(addrs, earlier + later)[server] == run_all(addrs, earlier)[server],
    decreases later.len(),
{
    if later.len() == 0 {
        assert(earlier + later =~= earlier);
    } else {
        assert((earlier + later).drop_last() =~= earlier + later.drop_last());
        assert((earlier + later).last() == later.last());
        law_other_servers_change_nothing(addrs, earlier, later.drop_last(), server);
    }
}

/// A server keeps the address that it was started with, and servers with
/// different addresses have different URLs for a path.
pub proof fn law_servers_have_their_own_urls<E>(
    addrs: Map<nat, SocketAddr>,
    steps: Seq<Step<E>>,
    first: nat,
    second: nat,
    target: Seq<char>,
)
    requires
        addrs.contains_key(first),
        addrs.contains_key(second),
        addrs[first].port != addrs[second].port || addrs[first].octets@ != addrs[second].octets@,
        is_possible(addrs[first], own(steps, first)),
        is_possible(addrs[second], own(steps, second)),
    ensures
        run_all(addrs, steps)[first].server.addr == addrs[first],
        run_all(addrs, steps)[second].server.addr == addrs[second],
        url_text(addrs[first], target) != url_text(addrs[second], target),
{
    law_servers_are_independent(addrs, steps, first);
    law_servers_are_independent(addrs, steps, second);
    law_books_are_sound(addrs[first], own(steps, first));
    law_books_are_sound(addrs[second], own(steps, second));
    if url_text(addrs[first], target) == url_text(addrs[second], target) {
        let (a, b) = (addrs[first].text(), addrs[second].text());
        let scheme = "http"@ + "://"@;
        let n = scheme.len() as int;
        assert(url_text(addrs[first], target).len() == n + a.len() + shown_target(target).len());
        assert(url_text(addrs[second], target).len() == n + b.len() + shown_target(target).len());
        assert(a =~= url_text(addrs[first], target).subrange(n, n + a.len()));
        assert(b =~= url_text(addrs[second], target).subrange(n, n + b.len()));
        law_addr_text_is_unique(addrs[first], addrs[second]);
    }
}

} // verus!
