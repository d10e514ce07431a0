//! The life of one accepted connection: one request is read, parsed,
//! dispatched and answered, then the connection is closed.
//!
//! The connection decides and the caller acts: each function takes what
//! happened on the socket or at the store and says what to do next.

use crate::bytes::copy;
use crate::handlers::{
    complete, completed, create_user_begun, handle_create_user, law_same_request_same_step,
    law_unregistered_is_404, malformed_request, malformed_request_response, not_found,
    process_request_and_response, processed, Step, StepView,
};
use crate::http::{encode, encoded, Request, RequestView};
use crate::parser::{parse_request, parsed};
use crate::router::{matches_by_prefix, matches_exactly, RouteView, Router};
use crate::store::{Query, QueryKind, QueryView, Reply, ReplyView, User, UserView};
use vstd::prelude::*;

verus! {

/// Why a connection was closed before its time.
#[derive(Clone, Copy, Debug, PartialEq, Eq, Structural)]
pub enum ConnError {
    /// Reading from the socket failed.
    Read,
    /// Writing to the socket failed.
    Write,
    /// Something was reported that the connection was not waiting for.
    OutOfOrder,
}

/// What a dispatched request is waiting for.
#[derive(Clone, Copy, Debug, PartialEq, Eq, Structural)]
pub enum Pending {
    /// The body is being decoded as a user.
    Decode,
    /// The store is carrying out an operation of this kind.
    Store(QueryKind),
}

/// The stages of a connection.
#[derive(Clone, Copy, Debug, PartialEq, Eq, Structural)]
pub enum Stage {
    Reading,
    Parsed,
    Dispatching,
    Writing,
    Closed,
}

/// A connection and what it holds at its stage.
#[derive(Debug)]
pub enum Connection {
    /// Nothing was read yet.
    Reading,
    /// A request was read and parsed.
    Parsed(Request),
    /// A handler is at work on the request.
    Dispatching(Pending),
    /// The response is being written.
    Writing,
    /// The connection is over; the error, if there was one, is for whoever
    /// supervises the connection's task.
    Closed(Option<ConnError>),
}

pub enum ConnectionView {
    Reading,
    Parsed(RequestView),
    Dispatching(Pending),
    Writing,
    Closed(Option<ConnError>),
}

impl View for Connection {
    type V = ConnectionView;

    open spec fn view(&self) -> ConnectionView {
        match self {
            Connection::Reading => ConnectionView::Reading,
            Connection::Parsed(request) => ConnectionView::Parsed(request@),
            Connection::Dispatching(pending) => ConnectionView::Dispatching(*pending),
            Connection::Writing => ConnectionView::Writing,
            Connection::Closed(error) => ConnectionView::Closed(*error),
        }
    }
}

/// What the caller has to do next.
#[derive(Debug)]
pub enum Action {
    /// Hand the connection to the router.
    Route,
    /// Decode these bytes as a user and report what they hold.
    Decode(Vec<u8>),
    /// Carry this operation out on the store and report how it ended.
    Ask(Query),
    /// Write these bytes to the socket and report how that went.
    Write(Vec<u8>),
    /// Close the socket; the error, if any, goes to the supervisor.
    Close(Option<ConnError>),
}

pub enum ActionView {
    Route,
    Decode(Seq<u8>),
    Ask(QueryView),
    Write(Seq<u8>),
    Close(Option<ConnError>),
}

impl View for Action {
    type V = ActionView;

    open spec fn view(&self) -> ActionView {
        match self {
            Action::Route => ActionView::Route,
            Action::Decode(body) => ActionView::Decode(body@),
            Action::Ask(query) => ActionView::Ask(query@),
            Action::Write(bytes) => ActionView::Write(bytes@),
            Action::Close(error) => ActionView::Close(*error),
        }
    }
}

impl ConnectionView {
    pub open spec fn stage(self) -> Stage {
        match self {
            ConnectionView::Reading => Stage::Reading,
            ConnectionView::Parsed(_) => Stage::Parsed,
            ConnectionView::Dispatching(_) => Stage::Dispatching,
            ConnectionView::Writing => Stage::Writing,
            ConnectionView::Closed(_) => Stage::Closed,
        }
    }

    /// A report that the connection was not waiting for closes it.
    pub open spec fn out_of_order() -> (ConnectionView, ActionView) {
        (
            ConnectionView::Closed(Some(ConnError::OutOfOrder)),
            ActionView::Close(Some(ConnError::OutOfOrder)),
        )
    }

    /// After a read that gave `bytes`. No bytes mean that the peer has closed:
    /// so does the connection. Bytes that hold a request are parsed; bytes
    /// that hold none are answered with 400.
    pub open spec fn received(self, bytes: Seq<u8>) -> (ConnectionView, ActionView) {
        match self {
            ConnectionView::Reading => if bytes.len() == 0 {
                (ConnectionView::Closed(None), ActionView::Close(None))
            } else {
                match parsed(bytes) {
                    Ok(request) => (ConnectionView::Parsed(request), ActionView::Route),
                    Err(_) => (
                        ConnectionView::Writing,
                        ActionView::Write(encoded(malformed_request())),
                    ),
                }
            },
            _ => Self::out_of_order(),
        }
    }

    /// After a read that failed.
    pub open spec fn read_failed(self) -> (ConnectionView, ActionView) {
        match self {
            ConnectionView::Reading => (
                ConnectionView::Closed(Some(ConnError::Read)),
                ActionView::Close(Some(ConnError::Read)),
            ),
            _ => Self::out_of_order(),
        }
    }

    /// What follows from a handler's step.
    pub open spec fn after_step(
        step: StepView,
        request_body: Seq<u8>,
    ) -> (ConnectionView, ActionView) {
        match step {
            StepView::Respond(response) => (
                ConnectionView::Writing,
                ActionView::Write(encoded(response)),
            ),
            StepView::Decode => (
                ConnectionView::Dispatching(Pending::Decode),
                ActionView::Decode(request_body),
            ),
            StepView::Ask(query) => (
                ConnectionView::Dispatching(Pending::Store(query.kind())),
                ActionView::Ask(query),
            ),
        }
    }

    /// After the parsed request was routed with this table.
    pub open spec fn dispatched(self, routes: Seq<RouteView>) -> (ConnectionView, ActionView) {
        match self {
            ConnectionView::Parsed(request) => Self::after_step(
                processed(routes, request),
                request.body,
            ),
            _ => Self::out_of_order(),
        }
    }

    /// After the body was decoded: `user` is what it holds.
    pub open spec fn decoded(self, user: Option<UserView>) -> (ConnectionView, ActionView) {
        match self {
            ConnectionView::Dispatching(Pending::Decode) => Self::after_step(
                create_user_begun(user),
                Seq::empty(),
            ),
            _ => Self::out_of_order(),
        }
    }

    /// After the store's operation ended with `reply`.
    pub open spec fn replied(self, reply: ReplyView) -> (ConnectionView, ActionView) {
        match self {
            ConnectionView::Dispatching(Pending::Store(kind)) => (
                ConnectionView::Writing,
                ActionView::Write(encoded(completed(kind, reply))),
            ),
            _ => Self::out_of_order(),
        }
    }

    /// After the response was written: the connection is closed, whatever the
    /// client asked about keeping it.
    pub open spec fn written(self) -> (ConnectionView, ActionView) {
        match self {
            ConnectionView::Writing => (ConnectionView::Closed(None), ActionView::Close(None)),
            _ => Self::out_of_order(),
        }
    }

    /// After a write that failed.
    pub open spec fn write_failed(self) -> (ConnectionView, ActionView) {
        match self {
            ConnectionView::Writing => (
                ConnectionView::Closed(Some(ConnError::Write)),
                ActionView::Close(Some(ConnError::Write)),
            ),
            _ => Self::out_of_order(),
        }
    }
}

fn out_of_order() -> (r: (Connection, Action))
    ensures
        (r.0@, r.1@) == ConnectionView::out_of_order(),
{
    (Connection::Closed(Some(ConnError::OutOfOrder)), Action::Close(Some(ConnError::OutOfOrder)))
}

fn after_step(step: Step, request_body: &[u8]) -> (r: (Connection, Action))
    ensures
        (r.0@, r.1@) == ConnectionView::after_step(step@, request_body@),
{
    match step {
        Step::Respond(response) => (Connection::Writing, Action::Write(encode(&response))),
        Step::Decode => (
            Connection::Dispatching(Pending::Decode),
            Action::Decode(copy(request_body)),
        ),
        Step::Ask(query) => (
            Connection::Dispatching(Pending::Store(query.kind())),
            Action::Ask(query),
        ),
    }
}

impl Connection {
    /// A connection that was just accepted.
    pub fn new() -> (c: Connection)
        ensures
            c@ == ConnectionView::Reading,
    {
        Connection::Reading
    }

    /// The connection's stage.
    pub fn stage(&self) -> (s: Stage)
        ensures
            s == self@.stage(),
    {
        match self {
            Connection::Reading => Stage::Reading,
            Connection::Parsed(_) => Stage::Parsed,
            Connection::Dispatching(_) => Stage::Dispatching,
            Connection::Writing => Stage::Writing,
            Connection::Closed(_) => Stage::Closed,
        }
    }

    /// Reports the bytes of the one read.
    pub fn received(self, bytes: &[u8]) -> (r: (Connection, Action))
        ensures
            (r.0@, r.1@) == self@.received(bytes@),
    {
        match self {
            Connection::Reading => {
                if bytes.len() == 0 {
                    (Connection::Closed(None), Action::Close(None))
                } else {
                    match parse_request(bytes) {
                        Ok(request) => (Connection::Parsed(request), Action::Route),
                        Err(_) => (
                            Connection::Writing,
                            Action::Write(encode(&malformed_request_response())),
                        ),
                    }
                }
            },
            _ => out_of_order(),
        }
    }

    /// Reports that the read failed.
    pub fn read_failed(self) -> (r: (Connection, Action))
        ensures
            (r.0@, r.1@) == self@.read_failed(),
    {
        match self {
            Connection::Reading => (
                Connection::Closed(Some(ConnError::Read)),
                Action::Close(Some(ConnError::Read)),
            ),
            _ => out_of_order(),
        }
    }

    /// Routes the parsed request and takes the first step of its handler.
    pub fn dispatch(self, router: &Router) -> (r: (Connection, Action))
        ensures
            (r.0@, r.1@) == self@.dispatched(router@),
    {
        match self {
            Connection::Parsed(request) => {
                let step = process_request_and_response(router, &request);
                after_step(step, request.body())
            },
            _ => out_of_order(),
        }
    }

    /// Reports what the body holds.
    pub fn decoded(self, user: Option<User>) -> (r: (Connection, Action))
        ensures
            (r.0@, r.1@) == self@.decoded(
                match user {
                    Some(u) => Some(u@),
                    None => None,
                },
            ),
    {
        match self {
            Connection::Dispatching(Pending::Decode) => {
                let empty: Vec<u8> = Vec::new();
                after_step(handle_create_user(user), empty.as_slice())
            },
            _ => out_of_order(),
        }
    }

    /// Reports how the store's operation ended.
    pub fn replied(self, reply: &Reply) -> (r: (Connection, Action))
        ensures
            (r.0@, r.1@) == self@.replied(reply@),
    {
        match self {
            Connection::Dispatching(Pending::Store(kind)) => (
                Connection::Writing,
                Action::Write(encode(&complete(kind, reply))),
            ),
            _ => out_of_order(),
        }
    }

    /// Reports that the response was written.
    pub fn written(self) -> (r: (Connection, Action))
        ensures
            (r.0@, r.1@) == self@.written(),
    {
        match self {
            Connection::Writing => (Connection::Closed(None), Action::Close(None)),
            _ => out_of_order(),
        }
    }

    /// Reports that the write failed.
    pub fn write_failed(self) -> (r: (Connection, Action))
        ensures
            (r.0@, r.1@) == self@.write_failed(),
    {
        match self {
            Connection::Writing => (
                Connection::Closed(Some(ConnError::Write)),
                Action::Close(Some(ConnError::Write)),
            ),
            _ => out_of_order(),
        }
    }
}

/// The place of a stage in the life of a connection.
pub open spec fn rank(stage: Stage) -> nat {
    match stage {
        Stage::Reading => 0,
        Stage::Parsed => 1,
        Stage::Dispatching => 2,
        Stage::Writing => 3,
        Stage::Closed => 4,
    }
}

/// Every outcome of every report on a connection in stage `c`.
pub open spec fn is_next(c: ConnectionView, next: (ConnectionView, ActionView)) -> bool {
    ||| exists|bytes: Seq<u8>| next == c.received(bytes)
    ||| next == c.read_failed()
    ||| exists|routes: Seq<RouteView>| next == c.dispatched(routes)
    ||| exists|user: Option<UserView>| next == c.decoded(user)
    ||| exists|reply: ReplyView| next == c.replied(reply)
    ||| next == c.written()
    ||| next == c.write_failed()
}

/// A connection never goes back: no report takes it to an earlier stage, and
/// only the decoding of a body leaves it in the stage it was in.
pub proof fn law_stages_in_order(c: ConnectionView, next: (ConnectionView, ActionView))
    requires
        is_next(c, next),
    ensures
        rank(c.stage()) <= rank(next.0.stage()),
        rank(c.stage()) == rank(next.0.stage()) ==> c.stage() == Stage::Closed || (c
            == ConnectionView::Dispatching(Pending::Decode) && next.0 is Dispatching && next.0
            != c),
{
}

/// A closed connection stays closed and asks for nothing but to be closed.
pub proof fn law_closed_is_final(c: ConnectionView, next: (ConnectionView, ActionView))
    requires
        c.stage() == Stage::Closed,
        is_next(c, next),
    ensures
        next.0.stage() == Stage::Closed,
        next.1 is Close,
{
}

/// A connection writes at most once: bytes to write are handed out only on
/// the way into the writing stage, and in the writing stage no report hands
/// out more.
pub proof fn law_one_response(c: ConnectionView, next: (ConnectionView, ActionView))
    requires
        is_next(c, next),
    ensures
        next.1 is Write ==> next.0.stage() == Stage::Writing && rank(c.stage()) < rank(
            Stage::Writing,
        ),
        c.stage() == Stage::Writing ==> next.0.stage() == Stage::Closed && next.1 is Close,
{
}

/// A read of no bytes closes the connection at once and without an error; a
/// failed read or write closes it with the error.
pub proof fn law_socket_ends(c: ConnectionView)
    ensures
        c.stage() == Stage::Reading ==> c.received(Seq::empty()) == (
            ConnectionView::Closed(None),
            ActionView::Close(None),
        ),
        c.stage() == Stage::Reading ==> c.read_failed().0 == ConnectionView::Closed(
            Some(ConnError::Read),
        ),
        c.stage() == Stage::Writing ==> c.write_failed().0 == ConnectionView::Closed(
            Some(ConnError::Write),
        ),
        c.stage() == Stage::Writing ==> c.written().0 == ConnectionView::Closed(None),
{
}

/// A request that parses and that no route is registered for is written back
/// as the 404 response.
pub proof fn law_unregistered_is_written_as_404(bytes: Seq<u8>, routes: Seq<RouteView>)
    requires
        bytes.len() > 0,
        parsed(bytes) matches Ok(request) && forall|i: int|
            0 <= i < routes.len() ==> !matches_exactly(
                #[trigger] routes[i],
                request.method,
                request.path,
            ) && !matches_by_prefix(routes[i], request.method, request.path),
    ensures
        ConnectionView::Reading.received(bytes).1 == ActionView::Route,
        ConnectionView::Reading.received(bytes).0.dispatched(routes) == (
            ConnectionView::Writing,
            ActionView::Write(encoded(not_found())),
        ),
        not_found().status == 404,
{
    law_unregistered_is_404(routes, parsed(bytes)->Ok_0);
}

/// A repeated request gets the same answer while the store gives the same
/// reply: two requests of one method and path that ask the store ask it the
/// same, and the same reply is written back as the same bytes.
pub proof fn law_repeated_request_same_answer(
    routes: Seq<RouteView>,
    first: RequestView,
    second: RequestView,
    reply: ReplyView,
)
    requires
        first.method == second.method,
        first.path == second.path,
        ConnectionView::Parsed(first).dispatched(routes).1 is Ask,
    ensures
        ConnectionView::Parsed(first).dispatched(routes) == ConnectionView::Parsed(
            second,
        ).dispatched(routes),
        ConnectionView::Parsed(first).dispatched(routes).0.replied(reply)
            == ConnectionView::Parsed(second).dispatched(routes).0.replied(reply),
{
    law_same_request_same_step(routes, first, second);
}

} // verus!
