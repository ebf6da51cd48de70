//! The state of a server, and what each thing that happens to it changes.
use std::convert::Infallible;

use http_body_util::Full;
use hyper::body::Bytes;
use hyper::Response;
use tokio::sync::watch;
use vstd::prelude::*;

use crate::addr::SocketAddr;
use crate::duration::Duration;
use crate::error::Error;
use crate::handler::answers;
use crate::handler::built_response;
use crate::handler::run_handler;
use crate::uri;
use crate::uri::Url;
use crate::wait::look;
use crate::wait::verdict;
use crate::wait::Verdict;
use crate::wait::Wait;
use crate::wait::POLL_MILLIS;

verus! {

/// The sending half of a `watch` channel of tokio. Verus sees nothing inside it.
#[verifier::external_type_specification]
#[verifier::external_body]
#[verifier::reject_recursive_types(T)]
pub struct ExSender<T>(tokio::sync::watch::Sender<T>);

/// The receiving half of a `watch` channel of tokio. Verus sees nothing inside
/// it.
#[verifier::external_type_specification]
#[verifier::external_body]
#[verifier::reject_recursive_types(T)]
pub struct ExReceiver<T>(tokio::sync::watch::Receiver<T>);

/// What there is to say of a `watch` channel by its only sender. First, all the
/// values that the channel has held, in order: the one it was made with, and one
/// more for each send that succeeded, of which all receivers were notified. It
/// holds the last of them. Second, whether a receiver of the channel is left at
/// the time of the sender's next send.
pub uninterp spec fn held(sender: watch::Sender<u8>) -> (Seq<u8>, bool);

/// Whether a sender and a receiver are the two ends of one `watch` channel, so
/// that the receiver finds in it what the sender sent.
pub uninterp spec fn joined(sender: watch::Sender<u8>, receiver: watch::Receiver<u8>) -> bool;

/// Calls `tokio::sync::watch::channel`.
///
/// What is trusted: the two ends are of one channel, which holds the value it
/// was made with, and has held no other.
#[verifier::external_body]
fn watch_channel(initial: u8) -> (ends: (watch::Sender<u8>, watch::Receiver<u8>))
    ensures
        held(ends.0).0 == seq![initial],
        joined(ends.0, ends.1),
{
    watch::channel(initial)
}

/// Calls `tokio::sync::watch::Sender::send` on the only sender of its channel.
///
/// What is trusted: the call succeeds exactly if a receiver is left at that
/// time. Where it succeeds, the channel has held one more value, the one sent;
/// where it fails, the value comes back and the channel has held what it had.
/// Either way the sender stays with its channel. When a receiver goes is left
/// unsaid: the receivers belong to tasks that run on their own, so whether one
/// will be left at a later send is not known after this one.
#[verifier::external_body]
fn watch_send(sender: &mut watch::Sender<u8>, value: u8) -> (sent: Result<(), u8>)
    ensures
        sent is Ok <==> held(*old(sender)).1,
        sent is Ok ==> held(*final(sender)).0 == held(*old(sender)).0.push(value),
        sent matches Err(back) ==> back == value && held(*final(sender)).0
            == held(*old(sender)).0,
        forall|receiver: watch::Receiver<u8>| #[trigger]
            joined(*final(sender), receiver) == joined(*old(sender), receiver),
{
    sender.send(value).map_err(|error| error.0)
}

/// What a server's tasks find in its close channel while the server is open.
pub const OPEN: u8 = 0;

/// What a server's tasks find in its close channel once the server is closed.
pub const CLOSED: u8 = 1;

/// Closing failed: none of the server's tasks is left to be told.
#[derive(Debug, Clone, Copy, PartialEq, Eq, Structural)]
pub struct CloseError;

/// How the attempt to listen went.
#[derive(Debug)]
pub enum Listen {
    /// The listener is bound to this address.
    Bound(SocketAddr),
    /// The listener could not be bound.
    BindFailed(std::io::Error),
    /// The listener is bound, but its address could not be found out.
    AddressFailed(std::io::Error),
}

/// A server, as far as anyone can tell from outside.
pub struct ServerView {
    /// The address on which the server listens.
    pub addr: SocketAddr,
    /// The number of requests that have been handled.
    pub req_count: nat,
    /// The number of requests that are being handled: their handlers were
    /// started, and have neither finished nor been given up.
    pub concurrent_req_count: nat,
    /// Whether the server was closed.
    pub closed: bool,
    /// What the server's tasks found in its close channel, one value after the
    /// other. The first is there from the start; of each later one the tasks
    /// were notified.
    pub signals: Seq<u8>,
}

impl ServerView {
    /// A server that has just begun to listen.
    pub open spec fn fresh(addr: SocketAddr) -> ServerView {
        ServerView {
            addr,
            req_count: 0,
            concurrent_req_count: 0,
            closed: false,
            signals: seq![OPEN],
        }
    }

    /// The server after a handler was started.
    pub open spec fn begin(self) -> ServerView {
        ServerView { concurrent_req_count: self.concurrent_req_count + 1, ..self }
    }

    /// The server after a handler has finished.
    pub open spec fn complete(self) -> ServerView {
        ServerView {
            req_count: self.req_count + 1,
            concurrent_req_count: (self.concurrent_req_count - 1) as nat,
            ..self
        }
    }

    /// The server after a handler was given up before it finished.
    pub open spec fn abort(self) -> ServerView {
        ServerView { concurrent_req_count: (self.concurrent_req_count - 1) as nat, ..self }
    }

    /// The server after it was closed.
    pub open spec fn close(self) -> ServerView {
        ServerView { closed: true, signals: self.signals.push(CLOSED), ..self }
    }
}

/// A server that listens on a port of the loopback interface.
#[derive(Debug)]
pub struct Server {
    close_tx: watch::Sender<u8>,
    addr: SocketAddr,
    req_count: u64,
    concurrent_req_count: u64,
}

impl View for Server {
    type V = ServerView;

    closed spec fn view(&self) -> ServerView {
        ServerView {
            addr: self.addr,
            req_count: self.req_count as nat,
            concurrent_req_count: self.concurrent_req_count as nat,
            closed: held(self.close_tx).0.last() == CLOSED,
            signals: held(self.close_tx).0,
        }
    }
}

impl Server {
    /// Whether a task that has this receiver hears of it when the server is
    /// closed.
    pub closed spec fn is_heard_by(&self, receiver: watch::Receiver<u8>) -> bool {
        joined(self.close_tx, receiver)
    }

    /// Whether one of the server's tasks is left to be told when the server is
    /// next told to close.
    pub closed spec fn has_listener(&self) -> bool {
        held(self.close_tx).1
    }

    /// Whether the same tasks hear of it when this server or `other` is closed.
    pub open spec fn is_heard_like(&self, other: Server) -> bool {
        forall|receiver: watch::Receiver<u8>| #[trigger]
            self.is_heard_by(receiver) == other.is_heard_by(receiver)
    }
}

/// What closing a server comes to, given what became of the word to its tasks.
pub fn close_result(sent: Result<(), u8>) -> (result: Result<(), CloseError>)
    ensures
        result == match sent {
            Ok(_) => Ok::<(), CloseError>(()),
            Err(_) => Err::<(), CloseError>(CloseError),
        },
{
    match sent {
        Ok(_) => Ok(()),
        Err(_) => Err(CloseError),
    }
}

impl Server {
    /// The server of a listener, with no request handled yet and none in
    /// progress, and the receiver by which its tasks learn that it was closed.
    /// Fails as the attempt to listen failed.
    pub fn new(listen: Listen) -> (result: Result<(Server, watch::Receiver<u8>), Error>)
        ensures
            match listen {
                Listen::Bound(addr) => {
                    &&& result is Ok
                    &&& result->Ok_0.0@ == ServerView::fresh(addr)
                    &&& result->Ok_0.0.is_heard_by(result->Ok_0.1)
                },
                Listen::BindFailed(error) => result == Err::<(Server, watch::Receiver<u8>), Error>(
                    Error::BindTCPListener(error),
                ),
                Listen::AddressFailed(error) => result == Err::<
                    (Server, watch::Receiver<u8>),
                    Error,
                >(Error::GetTCPListenerAddress(error)),
            },
    {
        match listen {
            Listen::Bound(addr) => {
                let (close_tx, close_rx) = watch_channel(OPEN);
                Ok((Server { close_tx, addr, req_count: 0, concurrent_req_count: 0 }, close_rx))
            },
            Listen::BindFailed(error) => Err(Error::BindTCPListener(error)),
            Listen::AddressFailed(error) => Err(Error::GetTCPListenerAddress(error)),
        }
    }

    /// Returns the address on which the server listens.
    pub fn addr(&self) -> (addr: SocketAddr)
        ensures
            addr == self@.addr,
    {
        self.addr
    }

    /// Returns a valid request URL for the given path and query string.
    pub fn url(&self, path_and_query: &str) -> (url: Url)
        requires
            uri::is_path_and_query(path_and_query@),
        ensures
            uri::is_url_of(url, self@.addr, path_and_query@),
    {
        self.try_url(path_and_query).unwrap()
    }

    /// Returns a valid request URL for the given path and query string, or
    /// `None` if the string is not acceptable.
    pub fn try_url(&self, path_and_query: &str) -> (url: Option<Url>)
        ensures
            url is Some <==> uri::is_path_and_query(path_and_query@),
            url matches Some(url) ==> uri::is_url_of(url, self@.addr, path_and_query@),
    {
        uri::try_url(&self.addr, path_and_query)
    }

    /// Returns the number of requests that the server has handled.
    pub fn req_count(&self) -> (count: u64)
        ensures
            count == self@.req_count,
    {
        self.req_count
    }

    /// Returns the number of requests that the server is handling.
    pub fn concurrent_req_count(&self) -> (count: u64)
        ensures
            count == self@.concurrent_req_count,
    {
        self.concurrent_req_count
    }

    /// Looks whether the number of handled requests is `count`, in a wait that
    /// began `elapsed` ago.
    pub fn await_req_count(&self, count: u64, elapsed: Duration, timeout: Duration) -> (wait: Wait)
        ensures
            match verdict(self@.req_count, count as nat, elapsed@, timeout@) {
                Verdict::Reached => wait == Wait::Done(Ok(())),
                Verdict::TimedOut => wait matches Wait::Done(
                    Err(Error::AwaitReqCountTimeout { current_count, target_count, timeout: allowed }),
                ) && current_count == self@.req_count && target_count == count && allowed
                    == timeout,
                Verdict::Undecided => wait matches Wait::Again(pause) && pause@ == POLL_MILLIS
                    * 1_000_000,
            },
    {
        let current_count = self.req_count();
        match look(current_count, count, &elapsed, &timeout) {
            Verdict::Reached => Wait::Done(Ok(())),
            Verdict::TimedOut => Wait::Done(
                Err(Error::AwaitReqCountTimeout { current_count, target_count: count, timeout }),
            ),
            Verdict::Undecided => Wait::Again(Duration::from_millis(POLL_MILLIS)),
        }
    }

    /// Looks whether the number of requests in progress is `count`, in a wait
    /// that began `elapsed` ago.
    pub fn await_concurrent_req_count(&self, count: u64, elapsed: Duration, timeout: Duration) -> (wait:
        Wait)
        ensures
            match verdict(self@.concurrent_req_count, count as nat, elapsed@, timeout@) {
                Verdict::Reached => wait == Wait::Done(Ok(())),
                Verdict::TimedOut => wait matches Wait::Done(
                    Err(Error::AwaitConcurrentReqCountTimeout { current_count, target_count, timeout: allowed }),
                ) && current_count == self@.concurrent_req_count && target_count == count && allowed
                    == timeout,
                Verdict::Undecided => wait matches Wait::Again(pause) && pause@ == POLL_MILLIS
                    * 1_000_000,
            },
    {
        let current_count = self.concurrent_req_count();
        match look(current_count, count, &elapsed, &timeout) {
            Verdict::Reached => Wait::Done(Ok(())),
            Verdict::TimedOut => Wait::Done(
                Err(
                    Error::AwaitConcurrentReqCountTimeout {
                        current_count,
                        target_count: count,
                        timeout,
                    },
                ),
            ),
            Verdict::Undecided => Wait::Again(Duration::from_millis(POLL_MILLIS)),
        }
    }

    /// Notes that the handling of a request begins.
    pub fn begin_request(&mut self)
        requires
            old(self)@.concurrent_req_count < u64::MAX,
        ensures
            final(self)@ == old(self)@.begin(),
            final(self).is_heard_like(*old(self)),
            final(self).has_listener() == old(self).has_listener(),
    {
        self.concurrent_req_count = self.concurrent_req_count + 1;
    }

    /// Notes that the handler of a request has finished, and gives the answer to
    /// its outcome. The request is counted before the answer can be sent.
    pub fn complete_request<E>(&mut self, outcome: Result<Response<Full<Bytes>>, E>) -> (answer:
        Result<Response<Full<Bytes>>, Infallible>)
        requires
            old(self)@.concurrent_req_count > 0,
            old(self)@.req_count < u64::MAX,
        ensures
            final(self)@ == old(self)@.complete(),
            final(self).is_heard_like(*old(self)),
            final(self).has_listener() == old(self).has_listener(),
            answers(outcome, answer),
    {
        let answer = run_handler(outcome);
        self.concurrent_req_count = self.concurrent_req_count - 1;
        self.req_count = self.req_count + 1;
        answer
    }

    /// Notes that the handling of a request was given up before its handler had
    /// finished. The request is no longer in progress, and does not count as
    /// handled.
    pub fn abort_request(&mut self)
        requires
            old(self)@.concurrent_req_count > 0,
        ensures
            final(self)@ == old(self)@.abort(),
            final(self).is_heard_like(*old(self)),
            final(self).has_listener() == old(self).has_listener(),
    {
        self.concurrent_req_count = self.concurrent_req_count - 1;
    }

    /// Kills the server: tells all its tasks to end, with the requests that they
    /// are handling. Does not wait for them. Fails if there is none left, and
    /// only then.
    pub fn close(&mut self) -> (result: Result<(), CloseError>)
        ensures
            result is Ok <==> old(self).has_listener(),
            final(self)@ == match result {
                Ok(_) => old(self)@.close(),
                Err(_) => old(self)@,
            },
            final(self).is_heard_like(*old(self)),
    {
        close_result(watch_send(&mut self.close_tx, CLOSED))
    }

    /// Gives up one of `handles` references to the server. Closes the server if
    /// it is the last one, and says how that went.
    pub fn release(&mut self, handles: usize) -> (closed: Option<Result<(), CloseError>>)
        ensures
            closed is Some <==> handles == 1,
            closed matches Some(result) ==> (result is Ok <==> old(self).has_listener()),
            closed is None ==> final(self).has_listener() == old(self).has_listener(),
            final(self)@ == match closed {
                Some(Ok(_)) => old(self)@.close(),
                Some(Err(_)) => old(self)@,
                None => old(self)@,
            },
            final(self).is_heard_like(*old(self)),
    {
        if handles == 1 {
            Some(self.close())
        } else {
            None
        }
    }
}

/// A listener that is bound always makes a server: it gives the listener's
/// address, counts nothing yet, and is open. Its tasks hear of it when it is
/// closed, and have been notified of nothing so far.
pub proof fn law_new_server(
    addr: SocketAddr,
    result: Result<(Server, watch::Receiver<u8>), Error>,
    given: SocketAddr,
    handled: u64,
    running: u64,
)
    requires
        call_ensures(Server::new, (Listen::Bound(addr),), result),
        call_ensures(Server::addr, (&result->Ok_0.0,), given),
        call_ensures(Server::req_count, (&result->Ok_0.0,), handled),
        call_ensures(Server::concurrent_req_count, (&result->Ok_0.0,), running),
    ensures
        result is Ok,
        given == addr,
        handled == 0,
        running == 0,
        !result->Ok_0.0@.closed,
        result->Ok_0.0@.signals.len() == 1,
        result->Ok_0.0@.signals[0] == 0u8,
        result->Ok_0.0.is_heard_by(result->Ok_0.1),
{
}

/// A failed attempt to listen makes no server, and its error is passed on as what
/// it is.
pub proof fn law_failed_listen(
    error: std::io::Error,
    unbound: Result<(Server, watch::Receiver<u8>), Error>,
    unknown: Result<(Server, watch::Receiver<u8>), Error>,
)
    requires
        call_ensures(Server::new, (Listen::BindFailed(error),), unbound),
        call_ensures(Server::new, (Listen::AddressFailed(error),), unknown),
    ensures
        unbound is Err,
        unbound->Err_0 == Error::BindTCPListener(error),
        unknown is Err,
        unknown->Err_0 == Error::GetTCPListenerAddress(error),
{
}

/// What can be asked of a server: its address and its two counts.
pub open spec fn tells(server: Server, addr: SocketAddr, handled: u64, running: u64) -> bool {
    &&& call_ensures(Server::addr, (&server,), addr)
    &&& call_ensures(Server::req_count, (&server,), handled)
    &&& call_ensures(Server::concurrent_req_count, (&server,), running)
}

/// Whether a server's tasks are as they were: they were notified of nothing, hear
/// of the same close, and there is one to be told of it as before.
pub open spec fn leaves_tasks_alone(before: Server, after: Server) -> bool {
    &&& after@.signals == before@.signals
    &&& after@.closed == before@.closed
    &&& after.has_listener() == before.has_listener()
    &&& forall|receiver: watch::Receiver<u8>| #[trigger]
        after.is_heard_by(receiver) == before.is_heard_by(receiver)
}

/// A request that begins adds one to the requests in progress, and changes
/// nothing else.
pub proof fn law_begin_request(
    server: &mut Server,
    addr: SocketAddr,
    handled: u64,
    running: u64,
    addr_after: SocketAddr,
    handled_after: u64,
    running_after: u64,
)
    requires
        tells(*server, addr, handled, running),
        call_ensures(Server::begin_request, (server,), ()),
        tells(*final(server), addr_after, handled_after, running_after),
    ensures
        addr_after == addr,
        handled_after == handled,
        running_after == running + 1,
        leaves_tasks_alone(*old(server), *final(server)),
{
}

/// A request that is completed moves from the requests in progress to those that
/// were handled, and nothing else changes. A response is answered with itself, a
/// failure with the status 500 and the text `Internal Server Error`.
pub proof fn law_complete_request<E>(
    server: &mut Server,
    outcome: Result<Response<Full<Bytes>>, E>,
    answer: Result<Response<Full<Bytes>>, Infallible>,
    addr: SocketAddr,
    handled: u64,
    running: u64,
    addr_after: SocketAddr,
    handled_after: u64,
    running_after: u64,
)
    requires
        running > 0,
        tells(*server, addr, handled, running),
        call_ensures(Server::complete_request::<E>, (server, outcome), answer),
        tells(*final(server), addr_after, handled_after, running_after),
    ensures
        addr_after == addr,
        handled_after == handled + 1,
        running_after == running - 1,
        leaves_tasks_alone(*old(server), *final(server)),
        answer is Ok,
        outcome is Ok ==> answer->Ok_0 == outcome->Ok_0,
        outcome is Err ==> built_response(500, "Internal Server Error"@) == Some(answer->Ok_0),
{
}

/// A request that is given up is no longer in progress, and nothing else
/// changes: it was not handled.
pub proof fn law_abort_request(
    server: &mut Server,
    addr: SocketAddr,
    handled: u64,
    running: u64,
    addr_after: SocketAddr,
    handled_after: u64,
    running_after: u64,
)
    requires
        running > 0,
        tells(*server, addr, handled, running),
        call_ensures(Server::abort_request, (server,), ()),
        tells(*final(server), addr_after, handled_after, running_after),
    ensures
        addr_after == addr,
        handled_after == handled,
        running_after == running - 1,
        leaves_tasks_alone(*old(server), *final(server)),
{
}

/// Whether a server has told its tasks to close, as it does when there is one to
/// be told: they were notified once, the server is closed, and the tasks hear of
/// it still.
pub open spec fn tells_tasks_to_close(before: Server, after: Server) -> bool {
    &&& after@.closed
    &&& after@.signals.len() == before@.signals.len() + 1
    &&& after@.signals.drop_last() == before@.signals
    &&& after@.signals.last() == 1u8
    &&& forall|receiver: watch::Receiver<u8>| #[trigger]
        after.is_heard_by(receiver) == before.is_heard_by(receiver)
}

/// Closing fails only if there is no task left to be told, whatever has been
/// counted and however often the server was closed before. Otherwise the tasks
/// are told, just once. Neither way does it change the address or a count.
pub proof fn law_close(
    server: &mut Server,
    result: Result<(), CloseError>,
    addr: SocketAddr,
    handled: u64,
    running: u64,
    addr_after: SocketAddr,
    handled_after: u64,
    running_after: u64,
)
    requires
        tells(*server, addr, handled, running),
        call_ensures(Server::close, (server,), result),
        tells(*final(server), addr_after, handled_after, running_after),
    ensures
        result is Err <==> !old(server).has_listener(),
        result is Ok ==> tells_tasks_to_close(*old(server), *final(server)),
        result is Err ==> final(server)@.signals == old(server)@.signals && final(server)@.closed
            == old(server)@.closed,
        addr_after == addr,
        handled_after == handled,
        running_after == running,
{
    if result is Ok {
        assert(final(server)@.signals.drop_last() =~= server@.signals);
    }
}

/// Giving up the last reference to a server does what closing it does, and comes
/// to the same result.
pub proof fn law_last_release_closes(
    released: &mut Server,
    closed: &mut Server,
    release: Option<Result<(), CloseError>>,
    close: Result<(), CloseError>,
)
    requires
        *released == *closed,
        call_ensures(Server::release, (released, 1), release),
        call_ensures(Server::close, (closed,), close),
    ensures
        release is Some,
        release->0 is Ok <==> close is Ok,
        close is Ok <==> old(released).has_listener(),
        final(released)@ == final(closed)@,
        close is Ok ==> tells_tasks_to_close(*old(released), *final(released)),
        final(released).is_heard_like(*final(closed)),
{
    if close is Ok {
        assert(final(released)@.signals.drop_last() =~= released@.signals);
    }
}

/// Giving up a reference that is not the last one does nothing.
pub proof fn law_other_release_does_nothing(
    server: &mut Server,
    handles: usize,
    release: Option<Result<(), CloseError>>,
)
    requires
        handles != 1,
        call_ensures(Server::release, (server, handles), release),
    ensures
        release is None,
        final(server)@ == old(server)@,
        leaves_tasks_alone(*old(server), *final(server)),
{
}

/// A request that is begun and then given up leaves no trace.
pub proof fn law_begun_and_given_up(server: &mut Server, again: &mut Server)
    requires
        call_ensures(Server::begin_request, (server,), ()),
        *again == *final(server),
        call_ensures(Server::abort_request, (again,), ()),
    ensures
        final(again)@ == old(server)@,
        leaves_tasks_alone(*old(server), *final(again)),
{
}

/// The word to a server's tasks that could not be given is an error, and the only
/// one.
pub proof fn law_close_result(sent: Result<(), u8>, result: Result<(), CloseError>)
    requires
        call_ensures(close_result, (sent,), result),
    ensures
        result is Ok <==> sent is Ok,
{
}

/// What a server says of its tasks is what there is to say of its close channel:
/// what the channel has held, whether it holds the word to close, who receives
/// it, and whether anyone does.
proof fn lemma_tasks_are_told_by_the_channel(server: Server, receiver: watch::Receiver<u8>)
    ensures
        server@.signals == held(server.close_tx).0,
        server@.closed <==> held(server.close_tx).0.last() == 1u8,
        server.has_listener() == held(server.close_tx).1,
        server.is_heard_by(receiver) == joined(server.close_tx, receiver),
{
}

/// A server has a URL for a legal target, by both ways to ask for it. It is the
/// one that the `http` crate builds of the target and a text that names the
/// server's address, and is written with just these.
pub proof fn law_server_url(
    server: Server,
    target: &str,
    path: Seq<char>,
    tail: Seq<char>,
    addr: SocketAddr,
    url: Url,
    tried: Option<Url>,
)
    requires
        uri::is_legal_target(target@, path, tail),
        call_ensures(Server::addr, (&server,), addr),
        call_ensures(Server::url, (&server, target), url),
        call_ensures(Server::try_url, (&server, target), tried),
    ensures
        tried is Some,
        uri::is_http_uri(url.uri, addr, target@),
        uri::is_http_uri(tried->0.uri, addr, target@),
        path.len() > 0 ==> uri::is_http_text(url.text@, addr, target@),
        path.len() == 0 ==> uri::is_http_text(url.text@, addr, "/"@ + target@),
        tried->0.uri == url.uri,
        tried->0.text@ == url.text@,
{
    uri::lemma_legal_target(target@, path, tail);
    uri::lemma_url_names_addr(url, addr, target@);
    uri::lemma_url_names_addr(tried->0, addr, target@);
}

/// Whatever the target: a URL of a server is the one that the `http` crate builds
/// of just that target and a text that names the server's address; and there is
/// one exactly if the address itself has one.
pub proof fn law_server_url_is_built_of_target(
    server: Server,
    target: &str,
    addr: SocketAddr,
    tried: Option<Url>,
    of_addr: Option<Url>,
)
    requires
        call_ensures(Server::addr, (&server,), addr),
        call_ensures(Server::try_url, (&server, target), tried),
        call_ensures(uri::try_url, (&addr, target), of_addr),
    ensures
        tried is Some <==> of_addr is Some,
        tried is Some ==> uri::is_http_uri(tried->0.uri, addr, target@),
        tried is Some ==> tried->0.uri == of_addr->0.uri,
        tried is Some ==> tried->0.text@ == of_addr->0.text@,
{
    if tried is Some {
        uri::lemma_url_names_addr(tried->0, addr, target@);
    }
}

/// A wait for the number of handled requests is over, and well, exactly if the
/// server tells the awaited number; it fails exactly if it tells another and more
/// than the allowed time has passed, with an error that holds the numbers and
/// that time; else it goes on in ten milliseconds.
pub proof fn law_await_req_count(
    server: Server,
    count: u64,
    elapsed: Duration,
    timeout: Duration,
    current: u64,
    wait: Wait,
)
    requires
        call_ensures(Server::req_count, (&server,), current),
        call_ensures(Server::await_req_count, (&server, count, elapsed, timeout), wait),
    ensures
        wait is Done && wait->Done_0 is Ok <==> current == count,
        wait is Done && wait->Done_0 is Err <==> current != count && elapsed@ > timeout@,
        wait is Done && wait->Done_0 is Err ==> wait->Done_0->Err_0
            == (Error::AwaitReqCountTimeout {
            current_count: current,
            target_count: count,
            timeout,
        }),
        wait is Again <==> current != count && elapsed@ <= timeout@,
        wait is Again ==> wait->Again_0@ == 10_000_000,
{
}

/// A wait for the number of requests in progress is over, and well, exactly if
/// the server tells the awaited number; it fails exactly if it tells another and
/// more than the allowed time has passed, with an error that holds the numbers
/// and that time; else it goes on in ten milliseconds.
pub proof fn law_await_concurrent_req_count(
    server: Server,
    count: u64,
    elapsed: Duration,
    timeout: Duration,
    current: u64,
    wait: Wait,
)
    requires
        call_ensures(Server::concurrent_req_count, (&server,), current),
        call_ensures(Server::await_concurrent_req_count, (&server, count, elapsed, timeout), wait),
    ensures
        wait is Done && wait->Done_0 is Ok <==> current == count,
        wait is Done && wait->Done_0 is Err <==> current != count && elapsed@ > timeout@,
        wait is Done && wait->Done_0 is Err ==> wait->Done_0->Err_0
            == (Error::AwaitConcurrentReqCountTimeout {
            current_count: current,
            target_count: count,
            timeout,
        }),
        wait is Again <==> current != count && elapsed@ <= timeout@,
        wait is Again ==> wait->Again_0@ == 10_000_000,
{
}

} // verus!
