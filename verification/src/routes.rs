//! The route registry: which handler answers which method and path.
//!
//! The registry names handlers; it does not hold them. The transport looks a
//! handler up by its name, the documentation generator reads the same entries
//! to describe the service.

use vstd::prelude::*;

verus! {

/// The method of a request.
#[derive(Debug, Clone, Copy, PartialEq, Eq, Structural)]
pub enum Method {
    Get,
    Post,
    Put,
    Delete,
    Patch,
    Head,
    Options,
}

/// Why a route was not registered.
#[derive(Debug, Clone, Copy, PartialEq, Eq, Structural)]
pub enum RouteError {
    /// A route with the same method and path is registered already.
    DuplicateRoute,
}

/// One route: requests of `method` for `path` go to the handler named
/// `handler`; `metadata` is what the documentation says of it.
#[derive(Debug, Clone)]
pub struct RouteEntry {
    pub method: Method,
    pub path: String,
    pub handler: String,
    pub metadata: String,
}

pub struct RouteView {
    pub method: Method,
    pub path: Seq<char>,
    pub handler: Seq<char>,
    pub metadata: Seq<char>,
}

impl View for RouteEntry {
    type V = RouteView;

    open spec fn view(&self) -> RouteView {
        RouteView {
            method: self.method,
            path: self.path@,
            handler: self.handler@,
            metadata: self.metadata@,
        }
    }
}

/// The entries as the registry sees them, in their order.
pub open spec fn views(entries: Seq<RouteEntry>) -> Seq<RouteView> {
    entries.map_values(|e: RouteEntry| e@)
}

/// Some route among `routes` answers `method` on `path`.
pub open spec fn registered(routes: Seq<RouteView>, method: Method, path: Seq<char>) -> bool {
    exists|i: int|
        0 <= i < routes.len() && (#[trigger] routes[i]).method == method && routes[i].path == path
}

/// No two of the routes answer the same method on the same path.
pub open spec fn distinct(routes: Seq<RouteView>) -> bool {
    forall|i: int, j: int|
        0 <= i < j < routes.len() ==> !((#[trigger] routes[i]).method == (#[trigger] routes[j]).method
            && routes[i].path == routes[j].path)
}

/// The routes after one more is registered.
pub open spec fn with_route(routes: Seq<RouteView>, entry: RouteView) -> Result<
    Seq<RouteView>,
    RouteError,
> {
    if registered(routes, entry.method, entry.path) {
        Err(RouteError::DuplicateRoute)
    } else {
        Ok(routes.push(entry))
    }
}

/// The routes after some more are registered one by one, up to the first
/// that fails.
pub open spec fn with_routes(routes: Seq<RouteView>, entries: Seq<RouteView>) -> Result<
    Seq<RouteView>,
    RouteError,
>
    decreases entries.len(),
{
    if entries.len() == 0 {
        Ok(routes)
    } else {
        match with_routes(routes, entries.drop_last()) {
            Ok(sofar) => with_route(sofar, entries.last()),
            Err(e) => Err(e),
        }
    }
}

/// An ordered set of routes. Its view is the routes in the order in which
/// they were registered.
#[derive(Debug)]
pub struct RouteRegistry {
    entries: Vec<RouteEntry>,
}

impl View for RouteRegistry {
    type V = Seq<RouteView>;

    closed spec fn view(&self) -> Seq<RouteView> {
        views(self.entries@)
    }
}

impl RouteRegistry {
    /// No two routes of the registry answer the same method on the same path.
    pub open spec fn wf(&self) -> bool {
        distinct(self@)
    }

    /// A registry without routes.
    pub fn new() -> (registry: RouteRegistry)
        ensures
            registry@ == Seq::<RouteView>::empty(),
            registry.wf(),
    {
        RouteRegistry { entries: Vec::new() }
    }

    /// Whether a route answers `method` on `path`.
    pub fn contains(&self, method: Method, path: &String) -> (found: bool)
        ensures
            found == registered(self@, method, path@),
    {
        let mut i: usize = 0;
        while i < self.entries.len()
            invariant
                i <= self.entries.len(),
                forall|j: int|
                    0 <= j < i ==> !((#[trigger] self@[j]).method == method && self@[j].path
                        == path@),
            decreases self.entries.len() - i,
        {
            if self.entries[i].method == method && self.entries[i].path == *path {
                assert(self@[i as int].method == method && self@[i as int].path == path@);
                return true;
            }
            i += 1;
        }
        false
    }

    /// Registers a route behind those that are there.
    ///
    /// Fails with `DuplicateRoute`, and changes nothing, exactly if a route
    /// with the same method and path is registered already.
    pub fn register(&mut self, method: Method, path: String, handler: String, metadata: String) -> (res:
        Result<(), RouteError>)
        requires
            old(self).wf(),
        ensures
            final(self).wf(),
            res is Err <==> registered(old(self)@, method, path@),
            res is Ok ==> final(self)@ == old(self)@.push(
                RouteView { method, path: path@, handler: handler@, metadata: metadata@ },
            ),
            res is Err ==> final(self)@ == old(self)@ && res == Err::<(), RouteError>(
                RouteError::DuplicateRoute,
            ),
            with_route(
                old(self)@,
                RouteView { method, path: path@, handler: handler@, metadata: metadata@ },
            ) == (match res {
                Ok(_) => Ok::<Seq<RouteView>, RouteError>(final(self)@),
                Err(e) => Err::<Seq<RouteView>, RouteError>(e),
            }),
    {
        if self.contains(method, &path) {
            return Err(RouteError::DuplicateRoute);
        }
        let ghost before = self@;
        let entry = RouteEntry { method, path, handler, metadata };
        self.entries.push(entry);
        assert(self@ =~= before.push(entry@));
        Ok(())
    }

    /// Registers the given routes, in their order, on an empty registry.
    ///
    /// Fails with `DuplicateRoute` exactly if two of them answer the same
    /// method on the same path.
    pub fn from_routes(routes: &Vec<RouteEntry>) -> (res: Result<RouteRegistry, RouteError>)
        ensures
            res is Ok <==> distinct(views(routes@)),
            res matches Ok(registry) ==> registry@ == views(routes@) && registry.wf(),
            res matches Err(e) ==> e == RouteError::DuplicateRoute,
    {
        let mut registry = RouteRegistry::new();
        let mut i: usize = 0;
        while i < routes.len()
            invariant
                i <= routes.len(),
                registry.wf(),
                registry@ == views(routes@).take(i as int),
            decreases routes.len() - i,
        {
            let entry = &routes[i];
            let ghost before = registry@;
            let res = registry.register(
                entry.method,
                entry.path.clone(),
                entry.handler.clone(),
                entry.metadata.clone(),
            );
            if res.is_err() {
                proof {
                    let j = choose|j: int|
                        0 <= j < before.len() && (#[trigger] before[j]).method == entry.method
                            && before[j].path == entry.path@;
                    assert(views(routes@)[j] == before[j]);
                    assert(views(routes@)[i as int].path == entry.path@);
                }
                return Err(RouteError::DuplicateRoute);
            }
            assert(registry@ =~= views(routes@).take(i + 1));
            i += 1;
        }
        assert(views(routes@).take(i as int) =~= views(routes@));
        Ok(registry)
    }

    /// The number of routes.
    pub fn len(&self) -> (n: usize)
        ensures
            n == self@.len(),
    {
        self.entries.len()
    }

    /// The route registered as number `i`, counting from 0; `None` behind
    /// the last.
    pub fn route(&self, i: usize) -> (entry: Option<&RouteEntry>)
        ensures
            entry is Some <==> i < self@.len(),
            entry matches Some(e) ==> e@ == self@[i as int],
    {
        if i < self.entries.len() {
            Some(&self.entries[i])
        } else {
            None
        }
    }

    /// The routes in the order in which they were registered. Reading them
    /// changes nothing: every call gives the same routes from the first on.
    pub fn routes(&self) -> (entries: &Vec<RouteEntry>)
        ensures
            views(entries@) == self@,
    {
        &self.entries
    }
}

/// The routes of the service: the test page.
pub fn get_routes() -> (routes: Vec<RouteEntry>)
    ensures
        views(routes@) == seq![
            RouteView {
                method: Method::Get,
                path: "/test"@,
                handler: "test_page"@,
                metadata: ""@,
            },
        ],
        distinct(views(routes@)),
{
    let mut routes: Vec<RouteEntry> = Vec::new();
    routes.push(
        RouteEntry {
            method: Method::Get,
            path: "/test".to_owned(),
            handler: "test_page".to_owned(),
            metadata: "".to_owned(),
        },
    );
    assert(views(routes@) =~= seq![
        RouteView {
            method: Method::Get,
            path: "/test"@,
            handler: "test_page"@,
            metadata: ""@,
        },
    ]);
    routes
}

/// Registering a route a second time fails: once a method and path are
/// taken, whether by this registration or an earlier one, another route for
/// them is refused with `DuplicateRoute`, whatever its handler.
pub proof fn law_second_registration_fails(routes: Seq<RouteView>, entry: RouteView, again: RouteView)
    requires
        again.method == entry.method,
        again.path == entry.path,
    ensures
        with_route(routes, entry) matches Ok(after) ==> with_route(after, again) == Err::<
            Seq<RouteView>,
            RouteError,
        >(RouteError::DuplicateRoute),
        with_route(routes, entry) is Err ==> with_route(routes, again) == Err::<
            Seq<RouteView>,
            RouteError,
        >(RouteError::DuplicateRoute),
{
    if with_route(routes, entry) is Ok {
        let after = routes.push(entry);
        assert(after[routes.len() as int] == entry);
    }
}

/// Routes that differ pairwise in method or path never collide: registered
/// one by one on an empty registry, each succeeds, and the registry holds
/// them in their order.
pub proof fn law_distinct_routes_register(entries: Seq<RouteView>)
    requires
        distinct(entries),
    ensures
        with_routes(Seq::empty(), entries) == Ok::<Seq<RouteView>, RouteError>(entries),
    decreases entries.len(),
{
    if entries.len() > 0 {
        let front = entries.drop_last();
        law_distinct_routes_register(front);
        assert(front.push(entries.last()) =~= entries);
    } else {
        assert(entries =~= Seq::empty());
    }
}

} // verus!
