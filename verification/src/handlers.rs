//! The handlers: what each route answers, and what it asks of the backing
//! store before it can answer.
//!
//! A handler never touches the store itself. It says what it needs (`Step`),
//! the caller carries that out, and the handler turns what came back into the
//! response.

use crate::bytes::{copy, is_prefix, same_ignoring_case};
use crate::http::{lookup, typed_response, Method, Request, RequestView, Response, ResponseView};
use crate::json::{comma_separated, json_list, json_object, object_body, push_user, user_json};
use crate::number::{i32_of, parse_i32};
use crate::router::{
    dispatched, first_by_prefix, first_exact, last_segment, law_not_found_iff_unregistered,
    matches_by_prefix, matches_exactly, standard_routes, Dispatch, DispatchView, Handler,
    RouteView, Router,
};
use crate::store::{users_view, Query, QueryKind, QueryView, Reply, ReplyView, User, UserView};
use vstd::prelude::*;
use vstd::string::is_ascii_spec_bytes;
use vstd::string::StringExecFns;
use vstd::string::StringSliceAdditionalSpecFns;

verus! {

/// What serving a request needs next.
#[derive(Debug)]
pub enum Step {
    /// The response is ready.
    Respond(Response),
    /// The request's body has to be decoded as a user.
    Decode,
    /// The backing store has to carry out an operation.
    Ask(Query),
}

pub enum StepView {
    Respond(ResponseView),
    Decode,
    Ask(QueryView),
}

impl View for Step {
    type V = StepView;

    open spec fn view(&self) -> StepView {
        match self {
            Step::Respond(r) => StepView::Respond(r@),
            Step::Decode => StepView::Decode,
            Step::Ask(q) => StepView::Ask(q@),
        }
    }
}

/// The response with this status whose body is JSON.
pub open spec fn json_reply(status: u16, body: Seq<u8>) -> ResponseView {
    typed_response(status, "application/json".spec_bytes(), body)
}

/// 200 with the plain text `Hello World`.
pub open spec fn greeting() -> ResponseView {
    typed_response(200, "text/plain".spec_bytes(), "Hello World".spec_bytes())
}

/// 404 `{"message":"Not found"}`: no route matched.
pub open spec fn not_found() -> ResponseView {
    json_reply(404, json_object("message"@, "Not found"@))
}

/// 400 `{"error":"Malformed request"}`: the bytes read hold no request.
pub open spec fn malformed_request() -> ResponseView {
    json_reply(400, json_object("error"@, "Malformed request"@))
}

/// 400 `{"error":"ID must be u32"}`: the path parameter is no identifier.
pub open spec fn invalid_id() -> ResponseView {
    json_reply(400, json_object("error"@, "ID must be u32"@))
}

/// 400 `{"error":"Invalid user data"}`: the body does not describe a user.
pub open spec fn invalid_user() -> ResponseView {
    json_reply(400, json_object("error"@, "Invalid user data"@))
}

/// 404 `{"message":"User not found"}`.
pub open spec fn user_not_found() -> ResponseView {
    json_reply(404, json_object("message"@, "User not found"@))
}

/// 200 `{"message":"User added"}`.
pub open spec fn user_added() -> ResponseView {
    json_reply(200, json_object("message"@, "User added"@))
}

/// 500 `{"error":"Internal Server Error"}`: the answer of the products route.
pub open spec fn products_unavailable() -> ResponseView {
    json_reply(500, json_object("error"@, "Internal Server Error"@))
}

/// 503 `{"error":"PoolExhausted"}`: the client may try again.
pub open spec fn pool_exhausted() -> ResponseView {
    json_reply(503, json_object("error"@, "PoolExhausted"@))
}

/// 500 `{"error":"ResourceCreationFailed"}`.
pub open spec fn creation_failed() -> ResponseView {
    json_reply(500, json_object("error"@, "ResourceCreationFailed"@))
}

/// 500 `{"error":"ERROR: .."}` with the store's message.
pub open spec fn store_failed(message: Seq<char>) -> ResponseView {
    json_reply(500, json_object("error"@, "ERROR: "@ + message))
}

/// 200 with the object that stands for the user.
pub open spec fn user_shown(user: UserView) -> ResponseView {
    json_reply(200, user_json(user.name, user.age))
}

/// 200 with the list of the users' objects.
pub open spec fn users_shown(users: Seq<UserView>) -> ResponseView {
    json_reply(200, json_list(users.map_values(|u: UserView| user_json(u.name, u.age))))
}

/// What the user lookup does with its path parameter: it asks the store for
/// the id that the parameter denotes, and answers 400 where it denotes none.
pub open spec fn get_user_begun(param: Option<Seq<u8>>) -> StepView {
    match param {
        Some(p) => match i32_of(p) {
            Some(id) => StepView::Ask(QueryView::FindUser { id }),
            None => StepView::Respond(invalid_id()),
        },
        None => StepView::Respond(invalid_id()),
    }
}

/// What a handler does first.
pub open spec fn begun(handler: Handler, param: Option<Seq<u8>>) -> StepView {
    match handler {
        Handler::Greeting => StepView::Respond(greeting()),
        Handler::ListUsers => StepView::Ask(QueryView::ListUsers),
        Handler::GetUser => get_user_begun(param),
        Handler::CreateUser => StepView::Decode,
        Handler::ListProducts => StepView::Respond(products_unavailable()),
    }
}

/// What serving a request begins with: 404 where no route matches, else the
/// first step of the route's handler.
pub open spec fn processed(routes: Seq<RouteView>, request: RequestView) -> StepView {
    match dispatched(routes, request.method, request.path) {
        DispatchView::Found { handler, param } => begun(handler, param),
        DispatchView::NotFound => StepView::Respond(not_found()),
    }
}

/// What user creation does once the body is decoded: it asks the store to add
/// the user, and answers 400 where the body described none.
pub open spec fn create_user_begun(decoded: Option<UserView>) -> StepView {
    match decoded {
        Some(user) => StepView::Ask(QueryView::InsertUser { user }),
        None => StepView::Respond(invalid_user()),
    }
}

/// The response to a request whose operation on the store ended with `reply`.
pub open spec fn completed(query: QueryKind, reply: ReplyView) -> ResponseView {
    match reply {
        ReplyView::PoolExhausted => pool_exhausted(),
        ReplyView::CreationFailed => creation_failed(),
        ReplyView::Failed(message) => store_failed(message),
        ReplyView::Rows(rows) => match query {
            QueryKind::ListUsers => users_shown(rows),
            QueryKind::FindUser => if rows.len() == 0 {
                user_not_found()
            } else {
                user_shown(rows[0])
            },
            QueryKind::InsertUser => user_added(),
        },
    }
}

/// A response with a JSON body.
pub fn json_response(status: u16, body: Vec<u8>) -> (r: Response)
    ensures
        r@ == json_reply(status, body@),
{
    Response::new(status, "application/json".as_bytes(), body)
}

/// The response to bytes that hold no request.
pub fn malformed_request_response() -> (r: Response)
    ensures
        r@ == malformed_request(),
{
    json_response(400, object_body("error", "Malformed request"))
}

/// The response where no route matches.
pub fn not_found_response() -> (r: Response)
    ensures
        r@ == not_found(),
{
    json_response(404, object_body("message", "Not found"))
}

/// The greeting.
pub fn handle_greeting() -> (r: Response)
    ensures
        r@ == greeting(),
{
    Response::new(200, "text/plain".as_bytes(), copy("Hello World".as_bytes()))
}

/// The list of users begins with a question to the store.
pub fn handle_get_all_users() -> (step: Step)
    ensures
        step@ == StepView::Ask(QueryView::ListUsers),
{
    Step::Ask(Query::ListUsers)
}

/// The user lookup: validates the path parameter before anything is asked of
/// the store.
pub fn handle_get_user(param: Option<&[u8]>) -> (step: Step)
    ensures
        step@ == get_user_begun(
            match param {
                Some(p) => Some(p@),
                None => None,
            },
        ),
{
    let id: Option<i32> = match param {
        Some(p) => parse_i32(p),
        None => None,
    };
    match id {
        Some(id) => Step::Ask(Query::FindUser { id }),
        None => Step::Respond(json_response(400, object_body("error", "ID must be u32"))),
    }
}

/// User creation, once the body is decoded.
pub fn handle_create_user(decoded: Option<User>) -> (step: Step)
    ensures
        step@ == create_user_begun(
            match decoded {
                Some(u) => Some(u@),
                None => None,
            },
        ),
{
    match decoded {
        Some(user) => Step::Ask(Query::InsertUser { user }),
        None => Step::Respond(json_response(400, object_body("error", "Invalid user data"))),
    }
}

/// The products route always answers 500.
pub fn handle_get_all_products() -> (r: Response)
    ensures
        r@ == products_unavailable(),
{
    json_response(500, object_body("error", "Internal Server Error"))
}

/// The first step of a handler.
pub fn begin(handler: Handler, param: Option<&[u8]>) -> (step: Step)
    ensures
        step@ == begun(
            handler,
            match param {
                Some(p) => Some(p@),
                None => None,
            },
        ),
{
    match handler {
        Handler::Greeting => Step::Respond(handle_greeting()),
        Handler::ListUsers => handle_get_all_users(),
        Handler::GetUser => handle_get_user(param),
        Handler::CreateUser => Step::Decode,
        Handler::ListProducts => Step::Respond(handle_get_all_products()),
    }
}

/// Routes a request and takes the first step of its handler.
///
/// A request that no route matches is answered with 404. The route table, the
/// method and the path alone decide; nothing is read and nothing is sent.
pub fn process_request_and_response(router: &Router, request: &Request) -> (step: Step)
    ensures
        step@ == processed(router@, request@),
{
    match router.dispatch(request.method(), request.path()) {
        Dispatch::Found { handler, param } => match &param {
            Some(p) => begin(handler, Some(p.as_slice())),
            None => begin(handler, None),
        },
        Dispatch::NotFound => Step::Respond(not_found_response()),
    }
}

/// The JSON list of the users.
pub fn users_body(users: &Vec<User>) -> (out: Vec<u8>)
    ensures
        out@ == json_list(users_view(users@).map_values(|u: UserView| user_json(u.name, u.age))),
{
    let ghost items = users_view(users@).map_values(|u: UserView| user_json(u.name, u.age));
    let mut out: Vec<u8> = Vec::new();
    out.push(0x5b);
    let mut i: usize = 0;
    while i < users.len()
        invariant
            i <= users.len(),
            items == users_view(users@).map_values(|u: UserView| user_json(u.name, u.age)),
            out@ == seq![0x5bu8] + comma_separated(items.take(i as int)),
        decreases users.len() - i,
    {
        if i > 0 {
            out.push(0x2c);
        }
        push_user(&mut out, users[i].name.as_str(), users[i].age);
        assert(items.take(i + 1).drop_last() =~= items.take(i as int));
        i += 1;
    }
    assert(items.take(i as int) =~= items);
    out.push(0x5d);
    out
}

/// Turns the outcome of a store operation into the response.
///
/// A pool that gave no connection in time is answered with 503, one that
/// could open none with 500, and a store that refused the operation with 500
/// and its message. Where the operation was carried out, the list of users is
/// shown, the first user found is shown (404 where none was), or the addition
/// is confirmed.
pub fn complete(query: QueryKind, reply: &Reply) -> (r: Response)
    ensures
        r@ == completed(query, reply@),
{
    match reply {
        Reply::PoolExhausted => json_response(503, object_body("error", "PoolExhausted")),
        Reply::CreationFailed => json_response(
            500,
            object_body("error", "ResourceCreationFailed"),
        ),
        Reply::Failed(message) => {
            let text = "ERROR: ".to_owned().concat(message.as_str());
            json_response(500, object_body("error", text.as_str()))
        },
        Reply::Rows(rows) => match query {
            QueryKind::ListUsers => json_response(200, users_body(rows)),
            QueryKind::FindUser => {
                if rows.len() == 0 {
                    json_response(404, object_body("message", "User not found"))
                } else {
                    let mut body: Vec<u8> = Vec::new();
                    push_user(&mut body, rows[0].name.as_str(), rows[0].age);
                    json_response(200, body)
                }
            },
            QueryKind::InsertUser => json_response(200, object_body("message", "User added")),
        },
    }
}

/// A request for a method and path that no route is registered for is
/// answered with 404.
pub proof fn law_unregistered_is_404(routes: Seq<RouteView>, request: RequestView)
    requires
        forall|i: int|
            0 <= i < routes.len() ==> !matches_exactly(
                #[trigger] routes[i],
                request.method,
                request.path,
            ) && !matches_by_prefix(routes[i], request.method, request.path),
    ensures
        processed(routes, request) == StepView::Respond(not_found()),
        not_found().status == 404,
{
    law_not_found_iff_unregistered(routes, request.method, request.path);
}

/// On the service's routes, a GET for a path under `/users/` whose last
/// segment is no 32-bit numeral is answered with 400 before anything is asked
/// of the store.
pub proof fn law_non_numeric_id_is_400(request: RequestView)
    requires
        request.method == Method::Get,
        is_prefix("/users/".spec_bytes(), request.path),
        i32_of(last_segment(request.path)) is None,
    ensures
        processed(standard_routes(), request) == StepView::Respond(invalid_id()),
        invalid_id().status == 400,
{
    lemma_users_prefix_routes(request.path);
}

/// On the service's routes, a GET for a path under `/users/` whose last
/// segment is a 32-bit numeral asks the store for the user with that id.
pub proof fn law_numeric_id_is_looked_up(request: RequestView, id: int)
    requires
        request.method == Method::Get,
        is_prefix("/users/".spec_bytes(), request.path),
        i32_of(last_segment(request.path)) == Some(id),
    ensures
        processed(standard_routes(), request) == StepView::Ask(QueryView::FindUser { id }),
{
    lemma_users_prefix_routes(request.path);
}

/// Method and path alone decide the first step of serving a request:
/// whatever else two requests differ in, they begin alike.
pub proof fn law_same_request_same_step(
    routes: Seq<RouteView>,
    first: RequestView,
    second: RequestView,
)
    requires
        first.method == second.method,
        first.path == second.path,
    ensures
        processed(routes, first) == processed(routes, second),
{
}

/// Every response that a handler gives states its content type.
pub proof fn law_responses_are_typed(
    routes: Seq<RouteView>,
    request: RequestView,
    user: Option<UserView>,
    kind: QueryKind,
    reply: ReplyView,
)
    ensures
        processed(routes, request) matches StepView::Respond(r) ==> lookup(
            r.headers,
            "content-type".spec_bytes(),
        ) is Some,
        create_user_begun(user) matches StepView::Respond(r) ==> lookup(
            r.headers,
            "content-type".spec_bytes(),
        ) is Some,
        lookup(completed(kind, reply).headers, "content-type".spec_bytes()) is Some,
        lookup(malformed_request().headers, "content-type".spec_bytes()) is Some,
{
    lemma_content_type_names();
}

proof fn lemma_content_type_names()
    ensures
        same_ignoring_case("Content-Type".spec_bytes(), "content-type".spec_bytes()),
{
    reveal_strlit("Content-Type");
    reveal_strlit("content-type");
    is_ascii_spec_bytes("Content-Type");
    is_ascii_spec_bytes("content-type");
}

proof fn lemma_users_prefix_routes(path: Seq<u8>)
    requires
        is_prefix("/users/".spec_bytes(), path),
    ensures
        dispatched(standard_routes(), Method::Get, path) == (DispatchView::Found {
            handler: Handler::GetUser,
            param: Some(last_segment(path)),
        }),
{
    reveal_strlit("/");
    reveal_strlit("/users");
    reveal_strlit("/users/");
    reveal_strlit("/products");
    is_ascii_spec_bytes("/");
    is_ascii_spec_bytes("/users");
    is_ascii_spec_bytes("/users/");
    is_ascii_spec_bytes("/products");
    assert("/users/".spec_bytes()[1] == "/users/"@[1] as u8);
    reveal_with_fuel(first_exact, 6);
    reveal_with_fuel(first_by_prefix, 6);
}

} // verus!
