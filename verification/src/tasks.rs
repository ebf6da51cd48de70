//! What the server's background tasks do with what happens to them: the task
//! that accepts connections, and the task that serves one.
use vstd::prelude::*;

verus! {

/// What can happen to the task that accepts connections.
#[derive(Debug)]
pub enum AcceptEvent<S, E> {
    /// The server was closed.
    Closed,
    /// A client connected.
    Accepted(S),
    /// The listener failed.
    Failed(E),
}

/// What the task that accepts connections does.
#[derive(Debug)]
pub enum AcceptAction<S, E> {
    /// Serve the connection in a task of its own, and go on accepting.
    Serve(S),
    /// End the task.
    Stop,
    /// Report the error, and end the task.
    ReportAndStop(E),
}

/// What can happen to the task that serves a connection.
#[derive(Debug)]
pub enum ConnectionEvent<E> {
    /// The server was closed.
    Closed,
    /// The connection came to its end.
    Served(Result<(), E>),
}

/// What the task that accepts connections does about an event.
pub open spec fn accept_action<S, E>(event: AcceptEvent<S, E>) -> AcceptAction<S, E> {
    match event {
        AcceptEvent::Closed => AcceptAction::Stop,
        AcceptEvent::Accepted(stream) => AcceptAction::Serve(stream),
        AcceptEvent::Failed(error) => AcceptAction::ReportAndStop(error),
    }
}

/// Decides what the task that accepts connections does about an event. Closing
/// the server ends it without a word; a failing listener ends it with a report.
pub fn accept_step<S, E>(event: AcceptEvent<S, E>) -> (action: AcceptAction<S, E>)
    ensures
        action == accept_action(event),
        action == match event {
            AcceptEvent::Closed => AcceptAction::<S, E>::Stop,
            AcceptEvent::Accepted(stream) => AcceptAction::<S, E>::Serve(stream),
            AcceptEvent::Failed(error) => AcceptAction::<S, E>::ReportAndStop(error),
        },
{
    match event {
        AcceptEvent::Closed => AcceptAction::Stop,
        AcceptEvent::Accepted(stream) => AcceptAction::Serve(stream),
        AcceptEvent::Failed(error) => AcceptAction::ReportAndStop(error),
    }
}

/// Decides what the task that serves a connection has to report when it ends:
/// nothing if the server was closed under it or the connection ended well, else
/// the error.
pub fn connection_step<E>(event: ConnectionEvent<E>) -> (report: Option<E>)
    ensures
        report == match event {
            ConnectionEvent::Closed => None::<E>,
            ConnectionEvent::Served(Ok(_)) => None::<E>,
            ConnectionEvent::Served(Err(error)) => Some(error),
        },
{
    match event {
        ConnectionEvent::Closed => None,
        ConnectionEvent::Served(Ok(_)) => None,
        ConnectionEvent::Served(Err(error)) => Some(error),
    }
}

/// A connection is served exactly if one was accepted, and it is that one; an
/// error is reported exactly if the listener failed, and it is that one; and
/// without either the task ends exactly if the server was closed.
pub proof fn law_accept_step<S, E>(event: AcceptEvent<S, E>, action: AcceptAction<S, E>)
    requires
        call_ensures(accept_step::<S, E>, (event,), action),
    ensures
        action is Serve <==> event is Accepted,
        action is Serve ==> action->Serve_0 == event->Accepted_0,
        action is ReportAndStop <==> event is Failed,
        action is ReportAndStop ==> action->ReportAndStop_0 == event->Failed_0,
        action is Stop <==> event is Closed,
{
}

/// A connection reports an error exactly if it ended with one, and it is that
/// one.
pub proof fn law_connection_step<E>(event: ConnectionEvent<E>, report: Option<E>)
    requires
        call_ensures(connection_step::<E>, (event,), report),
    ensures
        report is Some <==> event is Served && event->Served_0 is Err,
        report is Some ==> report->0 == event->Served_0->Err_0,
{
}

/// The connections that a listener serves, in order, if these events happen to
/// it: it acts on one event after the other until an action ends its task.
pub open spec fn served<S, E>(events: Seq<AcceptEvent<S, E>>) -> Seq<S>
    decreases events.len(),
{
    if events.len() == 0 {
        Seq::empty()
    } else {
        match accept_action(events[0]) {
            AcceptAction::Serve(stream) => seq![stream] + served(events.skip(1)),
            _ => Seq::empty(),
        }
    }
}

/// As long as nothing but connections happens, every one of them is served, in
/// the order in which they came.
pub proof fn law_every_connection_is_served<S, E>(events: Seq<AcceptEvent<S, E>>)
    requires
        forall|i: int| 0 <= i < events.len() ==> (#[trigger] events[i]) is Accepted,
    ensures
        served(events).len() == events.len(),
        forall|i: int| 0 <= i < events.len() ==> #[trigger] served(events)[i] == events[i]->Accepted_0,
    decreases events.len(),
{
    if events.len() > 0 {
        let rest = events.skip(1);
        law_every_connection_is_served(rest);
        assert forall|i: int| 0 <= i < events.len() implies #[trigger] served(events)[i]
            == events[i]->Accepted_0 by {
            if i > 0 {
                assert(served(events)[i] == served(rest)[i - 1]);
                assert(rest[i - 1] == events[i]);
            }
        }
    }
}

/// Once the server was closed, or the listener failed, nothing that comes
/// after is served: the connections served are those before the end.
pub proof fn law_nothing_is_served_after_the_end<S, E>(
    earlier: Seq<AcceptEvent<S, E>>,
    end: AcceptEvent<S, E>,
    later: Seq<AcceptEvent<S, E>>,
)
    requires
        end is Closed || end is Failed,
    ensures
        served(earlier + seq![end] + later) == served(earlier),
    decreases earlier.len(),
{
    let events = earlier + seq![end] + later;
    if earlier.len() == 0 {
        assert(events[0] == end);
    } else {
        assert(events[0] == earlier[0]);
        assert(events.skip(1) =~= earlier.skip(1) + seq![end] + later);
        law_nothing_is_served_after_the_end(earlier.skip(1), end, later);
    }
}

} // verus!
