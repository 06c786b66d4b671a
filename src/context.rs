//! The route table of a site: the known paths and the one to fall back on.
use vstd::prelude::*;

use crate::text::same_text;

verus! {

/// A path that a router knows.
pub struct RouterPath {
    pub path: String,
}

impl RouterPath {
    pub fn new(path: &str) -> (r: RouterPath)
        ensures
            r.path@ == path@,
    {
        RouterPath { path: String::from_str(path) }
    }
}

/// The index of the last route whose path is `p`, if any.
pub open spec fn last_path_index(routes: Seq<RouterPath>, p: Seq<char>) -> Option<int>
    decreases routes.len(),
{
    if routes.len() == 0 {
        None
    } else if routes.last().path@ == p {
        Some(routes.len() - 1)
    } else {
        last_path_index(routes.drop_last(), p)
    }
}

/// The index of the first route whose path is `p`, if any.
pub open spec fn first_path_index(routes: Seq<RouterPath>, p: Seq<char>) -> Option<int> {
    if exists|i: int| 0 <= i < routes.len() && routes[i].path@ == p {
        Some(
            choose|i: int|
                0 <= i < routes.len() && routes[i].path@ == p && forall|j: int|
                    0 <= j < i ==> routes[j].path@ != p,
        )
    } else {
        None
    }
}

/// Routes, and the index of the one to fall back on once configured.
pub struct Router {
    pub routes: Vec<RouterPath>,
    pub default_route: Option<usize>,
}

/// `r` has `routes` as its route table and the last of them with the path
/// `default_path` as its fallback.
pub open spec fn configured_as(r: Router, routes: Seq<RouterPath>, default_path: Seq<char>) -> bool {
    &&& r.routes@ == routes
    &&& r.default_route is Some
    &&& last_path_index(routes, default_path) == Some(r.default_route->Some_0 as int)
}

/// The message of a configuration whose default path is not among its routes.
pub open spec fn invalid_default_message() -> Seq<char> {
    "Invalid default route path"@
}

/// The index of the last route whose path is `default_path`, if any.
pub fn default_route_index(routes: &Vec<RouterPath>, default_path: &str) -> (r: Option<usize>)
    ensures
        match r {
            Some(i) => last_path_index(routes@, default_path@) == Some(i as int),
            None => last_path_index(routes@, default_path@) is None,
        },
{
    let mut found: Option<usize> = None;
    let mut i: usize = 0;
    while i < routes.len()
        invariant
            i <= routes@.len(),
            match found {
                Some(k) => last_path_index(routes@.subrange(0, i as int), default_path@) == Some(
                    k as int,
                ),
                None => last_path_index(routes@.subrange(0, i as int), default_path@) is None,
            },
        decreases routes@.len() - i,
    {
        let ghost next = routes@.subrange(0, i + 1);
        assert(next.drop_last() == routes@.subrange(0, i as int));
        assert(next.last() == routes@[i as int]);
        if same_text(routes[i].path.as_str(), default_path) {
            found = Some(i);
        }
        i = i + 1;
    }
    assert(routes@.subrange(0, routes@.len() as int) == routes@);
    found
}

impl Router {
    /// A router with no routes.
    pub fn new() -> (r: Router)
        ensures
            r.routes@.len() == 0,
            r.default_route is None,
    {
        Router { routes: Vec::new(), default_route: None }
    }

    /// Takes `routes` as the route table, with the last route whose path is
    /// `default_route_path` as the fallback; fails, and changes nothing, when
    /// no route has that path.
    pub fn route(&mut self, default_route_path: &str, routes: Vec<RouterPath>) -> (r: Result<
        (),
        String,
    >)
        ensures
            r is Ok <==> last_path_index(routes@, default_route_path@) is Some,
            r is Ok ==> configured_as(*final(self), routes@, default_route_path@),
            r is Err ==> *final(self) == *old(self) && r->Err_0@ == invalid_default_message(),
    {
        match default_route_index(&routes, default_route_path) {
            Some(i) => {
                self.routes = routes;
                self.default_route = Some(i);
                Ok(())
            },
            None => Err(String::from_str("Invalid default route path")),
        }
    }

    /// The route for `current_path`: the first route with that path, else the
    /// fallback; none before the router is configured.
    pub fn resolve(&self, current_path: &str) -> (r: Option<usize>)
        ensures
            match first_path_index(self.routes@, current_path@) {
                Some(i) => r == Some(i as usize),
                None => r == self.default_route,
            },
    {
        let mut i: usize = 0;
        while i < self.routes.len()
            invariant
                i <= self.routes@.len(),
                forall|j: int| 0 <= j < i ==> self.routes@[j].path@ != current_path@,
            decreases self.routes@.len() - i,
        {
            if same_text(self.routes[i].path.as_str(), current_path) {
                proof {
                    let k = choose|k: int|
                        0 <= k < self.routes@.len() && self.routes@[k].path@ == current_path@
                            && forall|j: int| 0 <= j < k ==> self.routes@[j].path@ != current_path@;
                    assert(self.routes@[i as int].path@ == current_path@);
                    if k < i {
                        assert(self.routes@[k].path@ != current_path@);
                    }
                    if k > i {
                        assert(self.routes@[i as int].path@ != current_path@);
                    }
                }
                return Some(i);
            }
            i = i + 1;
        }
        self.default_route
    }
}

/// What a site holds while it renders: its router.
pub struct Context {
    pub router: Router,
}

impl Context {
    pub fn new() -> (r: Context)
        ensures
            r.router.routes@.len() == 0,
            r.router.default_route is None,
    {
        Context { router: Router::new() }
    }

    /// Configures the router, as [`Router::route`] does.
    pub fn route(&mut self, default_route_path: &str, routes: Vec<RouterPath>) -> (r: Result<
        (),
        String,
    >)
        ensures
            r is Ok <==> last_path_index(routes@, default_route_path@) is Some,
            r is Ok ==> configured_as(final(self).router, routes@, default_route_path@),
            r is Err ==> *final(self) == *old(self) && r->Err_0@ == invalid_default_message(),
    {
        self.router.route(default_route_path, routes)
    }
}

} // verus!
