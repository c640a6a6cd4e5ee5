//! Sends each request along the route of its service profile.
use crate::labels::no_labels;
use crate::message::Request;
use crate::poll::Async;
use crate::proxy::profiles::{CanGetDestination, GetRoutes, RequestMatch, Route};
use crate::stack;
use crate::stack::Stack as _;
use vstd::prelude::*;

verus! {

/// The routes of a profile, in the order in which they are tried.
pub type Routes<B> = Vec<(RequestMatch, Route<B>)>;

/// Makes stacks route requests by service profiles.
pub struct Layer<G, R, B> {
    pub get_routes: G,
    pub route_layer: R,
    pub default_route: Route<B>,
}

/// A stack that routes requests by service profiles.
pub struct Stack<D, G, R, B> {
    pub discover: D,
    pub get_routes: G,
    pub route_layer: R,
    pub default_route: Route<B>,
}

/// Why no routing service could be built.
#[derive(Debug)]
pub enum StackError<D, R> {
    Discover(D),
    Route(R),
}

/// Routes requests by a service profile.
pub struct Service<S, V, G, Bg> {
    /// Builds the services for routes.
    pub stack: S,
    /// The task in the background that discovers endpoints, until it ends.
    pub discover_bg: Option<Bg>,
    /// Follows the profile.
    pub route_stream: Option<G>,
    /// The service for each route, in the order in which they are tried.
    pub routes: Vec<(RequestMatch, V)>,
    /// The service for all other requests.
    pub default_route: V,
}

impl<G, B> Layer<G, (), B> {
    /// Routes requests by the profiles that `get_routes` finds.
    pub fn new(get_routes: G) -> (l: Self)
        ensures
            l.get_routes == get_routes,
            crate::labels::label_values(l.default_route.labels) == Map::<
                Seq<char>,
                Seq<char>,
            >::empty(),
            l.default_route.response_classes@ == Seq::<
                crate::proxy::profiles::ResponseClass,
            >::empty(),
            l.default_route.retry_timeout is None,
            l.default_route.retry_budget is None,
            !l.default_route.is_retryable,
    {
        Layer { get_routes, route_layer: (), default_route: Route::new(no_labels(), Vec::new()) }
    }

    /// Wraps the services for routes with a layer.
    pub fn with_route_layer<R>(self, route_layer: R) -> (l: Layer<G, R, B>)
        ensures
            l == (Layer {
                get_routes: self.get_routes,
                route_layer,
                default_route: self.default_route,
            }),
    {
        Layer { get_routes: self.get_routes, route_layer, default_route: self.default_route }
    }
}

impl<G: Clone, R: Clone, B> Layer<G, R, B> {
    /// Wraps a stack that discovers endpoints.
    pub fn bind<D>(&self, discover: D) -> (s: Stack<D, G, R, B>)
        ensures
            s.discover == discover,
            cloned(self.get_routes, s.get_routes),
            cloned(self.route_layer, s.route_layer),
            self.default_route.is_copied(s.default_route),
    {
        Stack {
            discover,
            get_routes: self.get_routes.clone(),
            route_layer: self.route_layer.clone(),
            default_route: self.default_route.clone(),
        }
    }
}

/// Whether the stream for a target may be `r`. Targets without a destination have none.
pub open spec fn follows<G: GetRoutes>(
    get_routes: G,
    dst: Option<crate::addr::NameAddr>,
    r: Option<G::Stream>,
) -> bool {
    match dst {
        Some(dst) => get_routes.gets(dst, r),
        None => r is None,
    }
}

/// Whether a route stack is one that `layer` makes of something shared.
pub open spec fn is_route_stack<B, Sh: stack::Stack<Route<B>>, R: stack::layer::Layer<
    Route<B>,
    Route<B>,
    Sh,
>>(layer: R, route_stack: R::Stack) -> bool {
    exists|share: Sh| #[trigger] layer.binds(share, route_stack)
}

/// Whether `bg` and the thing that `route_stack` is made of share what was discovered for
/// `target`.
pub open spec fn shares<T, D: stack::Stack<T>, B, Sh: stack::Stack<Route<B>>, R, Bg, F>(
    discover: D,
    target: T,
    share: F,
    layer: R,
    route_stack: R::Stack,
    bg: Bg,
) -> bool where
    R: stack::layer::Layer<Route<B>, Route<B>, Sh>,
    F: Fn(D::Value) -> (Sh, Bg),
 {
    exists|d: D::Value, sh: Sh|
        discover.makes(target, Ok(d)) && #[trigger] call_ensures(share, (d,), (sh, bg))
            && layer.binds(sh, route_stack)
}

/// Whether building a service for a route may fail with `e`, on a route stack that shares what
/// was discovered for `target`.
pub open spec fn fails_on<T, D: stack::Stack<T>, B, Sh: stack::Stack<Route<B>>, R, Bg, F>(
    discover: D,
    target: T,
    share: F,
    layer: R,
    route: Route<B>,
    e: R::Error,
) -> bool where
    R: stack::layer::Layer<Route<B>, Route<B>, Sh>,
    F: Fn(D::Value) -> (Sh, Bg),
 {
    exists|route_stack: R::Stack, bg: Bg| #[trigger]
        shares::<T, D, B, Sh, R, Bg, F>(discover, target, share, layer, route_stack, bg)
            && route_stack.makes(route, Err(e))
}

impl<D, G, R, B> Stack<D, G, R, B> {
    /// Builds a routing service for a target, which shares what was discovered between its
    /// routes.
    pub fn make<T, Sh, Bg, F>(&self, target: &T, share: F) -> (r: Result<
        Service<R::Stack, R::Value, G::Stream, Bg>,
        StackError<D::Error, R::Error>,
    >) where
        T: CanGetDestination,
        D: stack::Stack<T>,
        G: GetRoutes,
        Sh: stack::Stack<Route<B>>,
        R: stack::layer::Layer<Route<B>, Route<B>, Sh>,
        F: Fn(D::Value) -> (Sh, Bg),

        requires
            self.discover.accepts(*target),
            forall|d: D::Value| #[trigger] call_requires(share, (d,)),
            forall|route_stack: R::Stack| #[trigger]
                is_route_stack::<B, Sh, R>(self.route_layer, route_stack) ==> route_stack.accepts(
                    self.default_route,
                ),
        ensures
            match r {
                Ok(service) => {
                    &&& service.discover_bg matches Some(bg)
                    &&& shares::<T, D, B, Sh, R, Bg, F>(
                        self.discover,
                        *target,
                        share,
                        self.route_layer,
                        service.stack,
                        bg,
                    )
                    &&& service.stack.makes(self.default_route, Ok(service.default_route))
                    &&& follows(self.get_routes, target.destination(), service.route_stream)
                    &&& service.routes@.len() == 0
                },
                Err(StackError::Discover(e)) => self.discover.makes(*target, Err(e)),
                Err(StackError::Route(e)) => fails_on::<T, D, B, Sh, R, Bg, F>(
                    self.discover,
                    *target,
                    share,
                    self.route_layer,
                    self.default_route,
                    e,
                ),
            },
    {
        let discover = match self.discover.make(target) {
            Ok(discover) => discover,
            Err(e) => {
                return Err(StackError::Discover(e));
            },
        };
        let ghost d = discover;
        let (sh, bg) = share(discover);
        let ghost g = sh;
        assert(call_ensures(share, (d,), (g, bg)));
        let stack = self.route_layer.bind(sh);
        assert(self.route_layer.binds(g, stack));
        assert(is_route_stack::<B, Sh, R>(self.route_layer, stack));
        let route_stream = match target.get_destination() {
            Some(dst) => self.get_routes.get_routes(dst),
            None => None,
        };
        match stack.make(&self.default_route) {
            Ok(default_route) => Ok(
                Service {
                    stack,
                    discover_bg: Some(bg),
                    route_stream,
                    routes: Vec::new(),
                    default_route,
                },
            ),
            Err(e) => {
                assert(shares::<T, D, B, Sh, R, Bg, F>(
                    self.discover,
                    *target,
                    share,
                    self.route_layer,
                    stack,
                    bg,
                ));
                assert(stack.makes(self.default_route, Err(e)));
                Err(StackError::Route(e))
            },
        }
    }
}

/// The routes for which a service could be built, with that service.
pub open spec fn kept<B, V, E>(
    routes: Seq<(RequestMatch, Route<B>)>,
    built: Seq<Result<V, E>>,
) -> Seq<(RequestMatch, V)>
    decreases routes.len(),
{
    if routes.len() == 0 {
        Seq::empty()
    } else {
        let before = kept(routes.drop_last(), built.drop_last());
        match built.last() {
            Ok(v) => before.push((routes.last().0, v)),
            Err(_) => before,
        }
    }
}

/// Whether `built` may be what `stack` builds for each of the routes.
pub open spec fn builds<B, S: stack::Stack<Route<B>>>(
    stack: S,
    routes: Seq<(RequestMatch, Route<B>)>,
    built: Seq<Result<S::Value, S::Error>>,
) -> bool {
    &&& built.len() == routes.len()
    &&& forall|i: int| 0 <= i < routes.len() ==> stack.makes(routes[i].1, #[trigger] built[i])
}

/// Whether the `i`th route is the first whose condition holds.
pub open spec fn is_first<V>(
    routes: Seq<(RequestMatch, V)>,
    method: Seq<char>,
    path: Seq<char>,
    i: int,
) -> bool {
    &&& 0 <= i < routes.len()
    &&& routes[i].0.holds(method, path)
    &&& forall|j: int| 0 <= j < i ==> !(#[trigger] routes[j]).0.holds(method, path)
}

/// Whether there is no route whose condition holds.
pub open spec fn is_none<V>(
    routes: Seq<(RequestMatch, V)>,
    method: Seq<char>,
    path: Seq<char>,
) -> bool {
    forall|i: int| 0 <= i < routes.len() ==> !(#[trigger] routes[i]).0.holds(method, path)
}

/// Whether `v` is the service of the first route whose condition holds or, if there is none, the
/// default.
pub open spec fn is_served_by<V>(
    routes: Seq<(RequestMatch, V)>,
    default_route: V,
    method: Seq<char>,
    path: Seq<char>,
    v: V,
) -> bool {
    ||| exists|i: int| #[trigger] is_first(routes, method, path, i) && v == routes[i].1
    ||| v == default_route && is_none(routes, method, path)
}

impl<S, V, G, Bg> Service<S, V, G, Bg> {
    /// Replaces all routes. Routes for which no service can be built are left out.
    pub fn update_routes<B>(&mut self, routes: Routes<B>) where S: stack::Stack<Route<B>, Value = V>
        requires
            forall|i: int|
                0 <= i < routes@.len() ==> old(self).stack.accepts((#[trigger] routes@[i]).1),
        ensures
            exists|built: Seq<Result<V, S::Error>>| #[trigger]
                builds(old(self).stack, routes@, built) && final(self).routes@ == kept(
                    routes@,
                    built,
                ),
            *final(self) == (Service { routes: final(self).routes, ..*old(self) }),
    {
        let ghost all = routes@;
        let ghost stack = self.stack;
        let ghost mut built: Seq<Result<V, S::Error>> = Seq::empty();
        let mut kept_routes: Vec<(RequestMatch, V)> = Vec::new();
        for entry in it: routes
            invariant
                it.seq() == all,
                stack == self.stack,
                *self == *old(self),
                forall|i: int| 0 <= i < all.len() ==> stack.accepts((#[trigger] all[i]).1),
                builds(stack, all.take(it.index()), built),
                kept_routes@ == kept(all.take(it.index()), built),
        {
            let ghost i = it.index();
            let (req_match, route) = entry;
            assert(all[i].1 == route);
            let made = self.stack.make(&route);
            proof {
                let before = built;
                built = built.push(made);
                assert(all.take(i + 1).drop_last() =~= all.take(i));
                assert(built.drop_last() =~= before);
                assert forall|j: int| 0 <= j < all.take(i + 1).len() implies stack.makes(
                    all.take(i + 1)[j].1,
                    #[trigger] built[j],
                ) by {
                    if j < i {
                        assert(stack.makes(all.take(i)[j].1, before[j]));
                    }
                }
            }
            match made {
                Ok(service) => kept_routes.push((req_match, service)),
                Err(_) => {},
            }
        }
        assert(all.take(all.len() as int) =~= all);
        self.routes = kept_routes;
    }

    /// Finds the first route whose condition holds of a request. Where there is none, the
    /// request is served by the default route.
    pub fn pick<B>(&self, req: &Request<B>) -> (r: Option<usize>)
        ensures
            match r {
                Some(i) => is_first(
                    self.routes@,
                    req.method.token@,
                    req.uri.spec_path(),
                    i as int,
                ),
                None => is_none(self.routes@, req.method.token@, req.uri.spec_path()),
            },
    {
        for i in 0..self.routes.len()
            invariant
                forall|j: int|
                    0 <= j < i ==> !(#[trigger] self.routes@[j]).0.holds(
                        req.method.token@,
                        req.uri.spec_path(),
                    ),
        {
            if self.routes[i].0.is_match(req) {
                return Some(i);
            }
        }
        None
    }

    /// Finds the service for a request.
    pub fn service_for<B>(&self, req: &Request<B>) -> (r: &V)
        ensures
            is_served_by(
                self.routes@,
                self.default_route,
                req.method.token@,
                req.uri.spec_path(),
                *r,
            ),
    {
        match self.pick(req) {
            Some(i) => &self.routes[i].1,
            None => &self.default_route,
        }
    }

    /// Handles what came of polling the task in the background: once it has ended, with or
    /// without an error, it is not polled any more.
    pub fn background<E>(&mut self, polled: Result<Async<()>, E>)
        ensures
            final(self).discover_bg == if polled matches Ok(Async::NotReady) {
                old(self).discover_bg
            } else {
                None
            },
            *final(self) == (Service { discover_bg: final(self).discover_bg, ..*old(self) }),
    {
        match polled {
            Ok(Async::NotReady) => {},
            _ => {
                self.discover_bg = None;
            },
        }
    }
}

/// A request is served along one route only.
pub proof fn first_route_is_unique<V>(
    routes: Seq<(RequestMatch, V)>,
    method: Seq<char>,
    path: Seq<char>,
    i: int,
    j: int,
)
    requires
        is_first(routes, method, path, i),
        is_first(routes, method, path, j),
    ensures
        i == j,
{
    if i < j {
        assert(!routes[i].0.holds(method, path));
    } else if j < i {
        assert(!routes[j].0.holds(method, path));
    }
}

/// A request is served along the first route whose condition it meets: it meets that of the route
/// that is picked, and those of no route before it. Where none is picked, it meets no condition
/// at all, and is served by the default.
pub proof fn first_matching_route_is_picked<S, V, G, Bg, B>(
    service: Service<S, V, G, Bg>,
    req: Request<B>,
    r: Option<usize>,
    j: int,
    met: bool,
)
    requires
        call_ensures(Service::<S, V, G, Bg>::pick::<B>, (&service, &req), r),
        0 <= j < service.routes@.len(),
        call_ensures(RequestMatch::is_match::<B>, (&service.routes@[j].0, &req), met),
    ensures
        r matches Some(i) ==> i < service.routes@.len(),
        r matches Some(i) ==> j == i ==> met,
        r matches Some(i) ==> j < i ==> !met,
        r is None ==> !met,
{
}

/// The service for a request is that of the route that is picked, or else the default.
pub proof fn requests_are_served_along_the_route_picked<S, V, G, Bg, B>(
    service: Service<S, V, G, Bg>,
    req: Request<B>,
    picked: Option<usize>,
    r: &V,
)
    requires
        call_ensures(Service::<S, V, G, Bg>::pick::<B>, (&service, &req), picked),
        call_ensures(Service::<S, V, G, Bg>::service_for::<B>, (&service, &req), r),
    ensures
        picked matches Some(i) ==> *r == service.routes@[i as int].1,
        picked is None ==> *r == service.default_route,
{
    if let Some(i) = picked {
        assert forall|k: int|
            is_first(
                service.routes@,
                req.method.token@,
                req.uri.spec_path(),
                k,
            ) implies k == i by {
            first_route_is_unique(
                service.routes@,
                req.method.token@,
                req.uri.spec_path(),
                k,
                i as int,
            );
        }
        assert(service.routes@[i as int].0.holds(req.method.token@, req.uri.spec_path()));
    }
}

/// Whether `places` tells, in order, which of the routes in a profile a service was built for,
/// each with its own condition, and none could be built for any other.
pub open spec fn are_places<B, S: stack::Stack<Route<B>>>(
    stack: S,
    routes: Seq<(RequestMatch, Route<B>)>,
    kept: Seq<(RequestMatch, S::Value)>,
    places: Seq<int>,
) -> bool {
    &&& places.len() == kept.len()
    &&& forall|i: int, j: int| 0 <= i < j < places.len() ==> #[trigger] places[i]
        < #[trigger] places[j]
    &&& forall|i: int|
        0 <= i < places.len() ==> 0 <= #[trigger] places[i] < routes.len() && kept[i].0
            == routes[places[i]].0 && stack.makes(routes[places[i]].1, Ok(kept[i].1))
    &&& forall|k: int|
        0 <= k < routes.len() ==> places.contains(k) || may_fail(stack, (#[trigger] routes[k]).1)
}

/// Whether building a service for a route may fail.
pub open spec fn may_fail<B, S: stack::Stack<Route<B>>>(stack: S, route: Route<B>) -> bool {
    exists|e: S::Error| #[trigger] stack.makes(route, Err(e))
}

proof fn lemma_places<B, S: stack::Stack<Route<B>>>(
    stack: S,
    routes: Seq<(RequestMatch, Route<B>)>,
    built: Seq<Result<S::Value, S::Error>>,
) -> (places: Seq<int>)
    requires
        builds(stack, routes, built),
    ensures
        are_places(stack, routes, kept(routes, built), places),
    decreases routes.len(),
{
    let all = kept(routes, built);
    if routes.len() == 0 {
        Seq::empty()
    } else {
        let n = routes.len() - 1;
        let init = routes.drop_last();
        let before = built.drop_last();
        assert forall|i: int| 0 <= i < init.len() implies stack.makes(
            init[i].1,
            #[trigger] before[i],
        ) by {
            assert(stack.makes(routes[i].1, built[i]));
        }
        let some = lemma_places(stack, init, before);
        assert(stack.makes(routes[n].1, built[n]));
        let places = if built[n] is Ok {
            some.push(n)
        } else {
            some
        };
        assert forall|i: int| 0 <= i < places.len() implies 0 <= #[trigger] places[i]
            < routes.len() && all[i].0 == routes[places[i]].0 && stack.makes(
            routes[places[i]].1,
            Ok(all[i].1),
        ) by {
            if i < some.len() {
                assert(places[i] == some[i]);
                assert(init[some[i]] == routes[some[i]]);
                assert(all[i] == kept(init, before)[i]);
            }
        }
        assert forall|i: int, j: int| 0 <= i < j < places.len() implies #[trigger] places[i]
            < #[trigger] places[j] by {
            assert(places[i] == some[i]);
            if j < some.len() {
                assert(some[i] < some[j]);
            }
        }
        assert forall|k: int| 0 <= k < routes.len() implies places.contains(k) || may_fail(
            stack,
            (#[trigger] routes[k]).1,
        ) by {
            if k == n {
                if built[n] is Ok {
                    assert(places[some.len() as int] == n);
                } else {
                    assert(stack.makes(routes[n].1, Err(built[n]->Err_0)));
                }
            } else {
                assert(init[k] == routes[k]);
                if some.contains(k) {
                    let i = choose|i: int| 0 <= i < some.len() && some[i] == k;
                    assert(places[i] == k);
                }
            }
        }
        places
    }
}

/// A new profile replaces all routes by its own, in its order and with their conditions. Only
/// those are missing for which no service could be built. The default stays as it was.
pub proof fn profiles_replace_all_routes<S, V, G, Bg, B>(
    service: &mut Service<S, V, G, Bg>,
    routes: Routes<B>,
) where S: stack::Stack<Route<B>, Value = V>
    requires
        call_ensures(Service::<S, V, G, Bg>::update_routes::<B>, (service, routes), ()),
    ensures
        exists|places: Seq<int>|
            are_places(old(service).stack, routes@, final(service).routes@, places),
        final(service).default_route == old(service).default_route,
        final(service).route_stream == old(service).route_stream,
        final(service).discover_bg == old(service).discover_bg,
        final(service).stack == old(service).stack,
{
    let built = choose|built: Seq<Result<V, S::Error>>| #[trigger]
        builds(old(service).stack, routes@, built) && final(service).routes@ == kept(
            routes@,
            built,
        );
    let places = lemma_places(old(service).stack, routes@, built);
    assert(are_places(old(service).stack, routes@, final(service).routes@, places));
}

/// The task in the background is polled until it has ended, however it ends, and not after that.
pub proof fn background_is_polled_to_its_end<S, V, G, Bg, E>(
    service: &mut Service<S, V, G, Bg>,
    polled: Result<Async<()>, E>,
)
    requires
        call_ensures(Service::<S, V, G, Bg>::background::<E>, (service, polled), ()),
    ensures
        polled matches Ok(Async::NotReady) ==> *final(service) == *old(service),
        polled matches Ok(Async::Ready(_)) ==> final(service).discover_bg is None,
        polled is Err ==> final(service).discover_bg is None,
        final(service).routes == old(service).routes,
        final(service).default_route == old(service).default_route,
        final(service).route_stream == old(service).route_stream,
{
}

/// Routing begins without routes and with a default. A profile is followed exactly if the target
/// has a destination to look it up by.
pub proof fn only_named_targets_have_profiles<D, G, R, B, T, Sh, Bg, F>(
    stack: Stack<D, G, R, B>,
    target: T,
    share: F,
    service: Service<R::Stack, R::Value, G::Stream, Bg>,
) where
    T: CanGetDestination,
    D: stack::Stack<T>,
    G: GetRoutes,
    Sh: stack::Stack<Route<B>>,
    R: stack::layer::Layer<Route<B>, Route<B>, Sh>,
    F: Fn(D::Value) -> (Sh, Bg),

    requires
        call_ensures(
            Stack::<D, G, R, B>::make::<T, Sh, Bg, F>,
            (&stack, &target, share),
            Ok(service),
        ),
    ensures
        service.routes@.len() == 0,
        service.discover_bg is Some,
        service.stack.makes(stack.default_route, Ok(service.default_route)),
        target.destination() is None ==> service.route_stream is None,
        target.destination() matches Some(dst) ==> stack.get_routes.gets(
            dst,
            service.route_stream,
        ),
{
}

/// Requests that no route is for are not retried, have no labels, and are classified by their
/// status alone.
pub proof fn the_default_route_is_plain<G, B>(get_routes: G, l: Layer<G, (), B>)
    requires
        call_ensures(Layer::<G, (), B>::new, (get_routes,), l),
    ensures
        l.get_routes == get_routes,
        !l.default_route.is_retryable,
        l.default_route.retry_timeout is None,
        l.default_route.retry_budget is None,
        l.default_route.response_classes@.len() == 0,
        crate::labels::label_values(l.default_route.labels) == Map::<
            Seq<char>,
            Seq<char>,
        >::empty(),
{
}

} // verus!
