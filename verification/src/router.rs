//! The route table and the dispatch of a request to a handler.

use crate::bytes::{copy, equal, is_prefix, starts_with};
use crate::http::Method;
use vstd::prelude::*;
use vstd::slice::slice_subrange;
use vstd::string::StringSliceAdditionalSpecFns;

verus! {

/// The operations that a route can lead to.
#[derive(Clone, Copy, Debug, PartialEq, Eq, Structural)]
pub enum Handler {
    Greeting,
    ListUsers,
    GetUser,
    CreateUser,
    ListProducts,
}

/// What a route asks of a path: to be a given literal, or to begin with one.
#[derive(Debug)]
pub enum Pattern {
    Exact(Vec<u8>),
    Prefix(Vec<u8>),
}

pub enum PatternView {
    Exact(Seq<u8>),
    Prefix(Seq<u8>),
}

impl View for Pattern {
    type V = PatternView;

    open spec fn view(&self) -> PatternView {
        match self {
            Pattern::Exact(p) => PatternView::Exact(p@),
            Pattern::Prefix(p) => PatternView::Prefix(p@),
        }
    }
}

/// One entry of the route table.
#[derive(Debug)]
pub struct Route {
    pub method: Method,
    pub pattern: Pattern,
    pub handler: Handler,
}

pub struct RouteView {
    pub method: Method,
    pub pattern: PatternView,
    pub handler: Handler,
}

impl View for Route {
    type V = RouteView;

    open spec fn view(&self) -> RouteView {
        RouteView { method: self.method, pattern: self.pattern@, handler: self.handler }
    }
}

/// The route table: entries in the order of their registration.
#[derive(Debug)]
pub struct Router {
    routes: Vec<Route>,
}

impl View for Router {
    type V = Seq<RouteView>;

    closed spec fn view(&self) -> Seq<RouteView> {
        self.routes@.map_values(|r: Route| r@)
    }
}

/// Where a request goes.
#[derive(Debug)]
pub enum Dispatch {
    /// A route matched; a prefix route also binds the path's last segment.
    Found { handler: Handler, param: Option<Vec<u8>> },
    NotFound,
}

pub enum DispatchView {
    Found { handler: Handler, param: Option<Seq<u8>> },
    NotFound,
}

impl View for Dispatch {
    type V = DispatchView;

    open spec fn view(&self) -> DispatchView {
        match self {
            Dispatch::Found { handler, param } => DispatchView::Found {
                handler: *handler,
                param: match param {
                    Some(p) => Some(p@),
                    None => None,
                },
            },
            Dispatch::NotFound => DispatchView::NotFound,
        }
    }
}

pub open spec fn matches_exactly(route: RouteView, method: Method, path: Seq<u8>) -> bool {
    route.method == method && route.pattern == PatternView::Exact(path)
}

pub open spec fn matches_by_prefix(route: RouteView, method: Method, path: Seq<u8>) -> bool {
    route.method == method && match route.pattern {
        PatternView::Prefix(p) => is_prefix(p, path),
        PatternView::Exact(_) => false,
    }
}

/// The handler of the first route registered for exactly this method and
/// path.
pub open spec fn first_exact(routes: Seq<RouteView>, method: Method, path: Seq<u8>) -> Option<
    Handler,
>
    decreases routes.len(),
{
    if routes.len() == 0 {
        None
    } else if matches_exactly(routes[0], method, path) {
        Some(routes[0].handler)
    } else {
        first_exact(routes.skip(1), method, path)
    }
}

/// The handler of the first route registered for this method whose prefix
/// the path begins with.
pub open spec fn first_by_prefix(routes: Seq<RouteView>, method: Method, path: Seq<u8>) -> Option<
    Handler,
>
    decreases routes.len(),
{
    if routes.len() == 0 {
        None
    } else if matches_by_prefix(routes[0], method, path) {
        Some(routes[0].handler)
    } else {
        first_by_prefix(routes.skip(1), method, path)
    }
}

/// How many bytes other than `/` the path ends with.
pub open spec fn last_segment_len(path: Seq<u8>) -> nat
    decreases path.len(),
{
    if path.len() > 0 && path.last() != 0x2f {
        1 + last_segment_len(path.drop_last())
    } else {
        0
    }
}

/// The last segment of a path: what follows its last `/`.
pub open spec fn last_segment(path: Seq<u8>) -> Seq<u8> {
    path.skip(path.len() - last_segment_len(path))
}

/// Where a request for `method` and `path` goes: to the first exact route if
/// there is one, else to the first prefix route, else nowhere.
pub open spec fn dispatched(routes: Seq<RouteView>, method: Method, path: Seq<u8>) -> DispatchView {
    match first_exact(routes, method, path) {
        Some(handler) => DispatchView::Found { handler, param: None },
        None => match first_by_prefix(routes, method, path) {
            Some(handler) => DispatchView::Found { handler, param: Some(last_segment(path)) },
            None => DispatchView::NotFound,
        },
    }
}

/// The routes of the service: the greeting, the users and the products.
pub open spec fn standard_routes() -> Seq<RouteView> {
    seq![
        RouteView {
            method: Method::Get,
            pattern: PatternView::Exact("/".spec_bytes()),
            handler: Handler::Greeting,
        },
        RouteView {
            method: Method::Get,
            pattern: PatternView::Exact("/users".spec_bytes()),
            handler: Handler::ListUsers,
        },
        RouteView {
            method: Method::Get,
            pattern: PatternView::Prefix("/users/".spec_bytes()),
            handler: Handler::GetUser,
        },
        RouteView {
            method: Method::Post,
            pattern: PatternView::Exact("/users".spec_bytes()),
            handler: Handler::CreateUser,
        },
        RouteView {
            method: Method::Get,
            pattern: PatternView::Exact("/products".spec_bytes()),
            handler: Handler::ListProducts,
        },
    ]
}

/// The last segment of a path: what follows its last `/`.
pub fn path_last_segment(path: &[u8]) -> (segment: &[u8])
    ensures
        segment@ == last_segment(path@),
{
    let mut k: usize = path.len();
    assert(path@.take(k as int) =~= path@);
    while k > 0 && path[k - 1] != 0x2f
        invariant
            k <= path.len(),
            last_segment_len(path@) == (path.len() - k) + last_segment_len(path@.take(k as int)),
        decreases k,
    {
        assert(path@.take(k as int).drop_last() =~= path@.take(k - 1));
        k -= 1;
    }
    let segment = slice_subrange(path, k, path.len());
    segment
}

impl Router {
    /// A table without routes.
    pub fn new() -> (r: Router)
        ensures
            r@ == Seq::<RouteView>::empty(),
    {
        let r = Router { routes: Vec::new() };
        r
    }

    /// Adds a route after those that are there.
    pub fn register(&mut self, method: Method, pattern: Pattern, handler: Handler)
        ensures
            final(self)@ == old(self)@.push(RouteView { method, pattern: pattern@, handler }),
    {
        self.routes.push(Route { method, pattern, handler });
    }

    /// The table of the service's routes.
    pub fn standard() -> (r: Router)
        ensures
            r@ == standard_routes(),
    {
        let mut r = Router::new();
        r.register(Method::Get, Pattern::Exact(copy("/".as_bytes())), Handler::Greeting);
        r.register(Method::Get, Pattern::Exact(copy("/users".as_bytes())), Handler::ListUsers);
        r.register(Method::Get, Pattern::Prefix(copy("/users/".as_bytes())), Handler::GetUser);
        r.register(Method::Post, Pattern::Exact(copy("/users".as_bytes())), Handler::CreateUser);
        r.register(
            Method::Get,
            Pattern::Exact(copy("/products".as_bytes())),
            Handler::ListProducts,
        );
        r
    }

    /// How many routes are registered.
    pub fn len(&self) -> (n: usize)
        ensures
            n == self@.len(),
    {
        self.routes.len()
    }

    fn find_exact(&self, method: Method, path: &[u8]) -> (r: Option<Handler>)
        ensures
            r == first_exact(self@, method, path@),
    {
        let mut i: usize = 0;
        assert(self@.skip(0) =~= self@);
        while i < self.routes.len()
            invariant
                i <= self.routes.len(),
                first_exact(self@, method, path@) == first_exact(
                    self@.skip(i as int),
                    method,
                    path@,
                ),
            decreases self.routes.len() - i,
        {
            proof {
                assert(self@.skip(i as int).skip(1) =~= self@.skip(i + 1));
            }
            let route = &self.routes[i];
            if route.method == method {
                match &route.pattern {
                    Pattern::Exact(p) => {
                        if equal(p.as_slice(), path) {
                            return Some(route.handler);
                        }
                    },
                    Pattern::Prefix(_) => {},
                }
            }
            i += 1;
        }
        None
    }

    fn find_by_prefix(&self, method: Method, path: &[u8]) -> (r: Option<Handler>)
        ensures
            r == first_by_prefix(self@, method, path@),
    {
        let mut i: usize = 0;
        assert(self@.skip(0) =~= self@);
        while i < self.routes.len()
            invariant
                i <= self.routes.len(),
                first_by_prefix(self@, method, path@) == first_by_prefix(
                    self@.skip(i as int),
                    method,
                    path@,
                ),
            decreases self.routes.len() - i,
        {
            proof {
                assert(self@.skip(i as int).skip(1) =~= self@.skip(i + 1));
            }
            let route = &self.routes[i];
            if route.method == method {
                match &route.pattern {
                    Pattern::Prefix(p) => {
                        if starts_with(path, p.as_slice()) {
                            return Some(route.handler);
                        }
                    },
                    Pattern::Exact(_) => {},
                }
            }
            i += 1;
        }
        None
    }

    /// Selects the handler for a method and a path. An exact route goes
    /// before any prefix route; among routes of one kind the first registered
    /// wins. Nothing but the table, the method and the path decides.
    pub fn dispatch(&self, method: Method, path: &[u8]) -> (d: Dispatch)
        ensures
            d@ == dispatched(self@, method, path@),
    {
        match self.find_exact(method, path) {
            Some(handler) => Dispatch::Found { handler, param: None },
            None => match self.find_by_prefix(method, path) {
                Some(handler) => Dispatch::Found {
                    handler,
                    param: Some(copy(path_last_segment(path))),
                },
                None => Dispatch::NotFound,
            },
        }
    }
}

/// `first_exact` and `first_by_prefix` find a route exactly where one
/// matches.
pub proof fn lemma_first_match(routes: Seq<RouteView>, method: Method, path: Seq<u8>)
    ensures
        first_exact(routes, method, path) is Some <==> exists|i: int|
            0 <= i < routes.len() && matches_exactly(#[trigger] routes[i], method, path),
        first_by_prefix(routes, method, path) is Some <==> exists|i: int|
            0 <= i < routes.len() && matches_by_prefix(#[trigger] routes[i], method, path),
    decreases routes.len(),
{
    if routes.len() > 0 {
        let rest = routes.skip(1);
        lemma_first_match(rest, method, path);
        if exists|i: int|
            0 <= i < routes.len() && matches_exactly(#[trigger] routes[i], method, path) {
            let i = choose|i: int|
                0 <= i < routes.len() && matches_exactly(#[trigger] routes[i], method, path);
            if i > 0 {
                assert(matches_exactly(rest[i - 1], method, path));
            }
        }
        if exists|i: int|
            0 <= i < routes.len() && matches_by_prefix(#[trigger] routes[i], method, path) {
            let i = choose|i: int|
                0 <= i < routes.len() && matches_by_prefix(#[trigger] routes[i], method, path);
            if i > 0 {
                assert(matches_by_prefix(rest[i - 1], method, path));
            }
        }
    }
}

/// A method and path that no route is registered for lead nowhere, and only
/// those do.
pub proof fn law_not_found_iff_unregistered(routes: Seq<RouteView>, method: Method, path: Seq<u8>)
    ensures
        dispatched(routes, method, path) is NotFound <==> forall|i: int|
            0 <= i < routes.len() ==> !matches_exactly(#[trigger] routes[i], method, path)
                && !matches_by_prefix(routes[i], method, path),
{
    lemma_first_match(routes, method, path);
}

/// An exact route goes before every prefix route: where one is registered for
/// the method and the path, its handler is chosen and no parameter is bound.
pub proof fn law_exact_route_first(routes: Seq<RouteView>, method: Method, path: Seq<u8>, i: int)
    requires
        0 <= i < routes.len(),
        matches_exactly(routes[i], method, path),
    ensures
        dispatched(routes, method, path) matches DispatchView::Found { handler, param }
            && param is None && first_exact(routes, method, path) == Some(handler),
{
    lemma_first_match(routes, method, path);
}

} // verus!
