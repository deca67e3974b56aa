use vstd::prelude::*;

use crate::params::Params;
use crate::path::path_segments;
use crate::path::strings_view;
use crate::radix::{
    conflicts, find_spec, last_registered, lemma_lookup_sound, no_clashes, route_at, template_pattern,
    Pattern, RadixRouter, RouteError,
};
use crate::text::concat_str;

verus! {

/// The services of an application, each reachable through the route table
/// under the template it was registered with.
pub struct AllRouteServices<S> {
    route: RadixRouter,
    services: Vec<S>,
}

impl<S> AllRouteServices<S> {
    /// Every route of the table leads to a service.
    pub closed spec fn wf(&self) -> bool {
        &&& self.route.wf()
        &&& forall|q: Seq<Pattern>| #[trigger]
            route_at(self.route.root, q) matches Some(h) ==> h < self.services@.len()
    }

    /// The services, in the order they were added.
    pub closed spec fn services(&self) -> Seq<S> {
        self.services@
    }

    /// The service that template `q` leads to.
    pub closed spec fn service_at(&self, q: Seq<Pattern>) -> Option<S> {
        match route_at(self.route.root, q) {
            Some(h) => Some(self.services@[h as int]),
            None => None,
        }
    }

    /// What looking up `path` finds: the service and the parameters bound.
    pub closed spec fn lookup(&self, path: Seq<char>) -> Option<(S, Map<Seq<char>, Seq<char>>)> {
        match find_spec(self.route.root, path_segments(path)) {
            Some(found) => Some((self.services@[found.0 as int], found.1)),
            None => None,
        }
    }

    /// Whether registering template `path` would clash with a parameter of
    /// another name at the same position.
    pub closed spec fn would_conflict(&self, path: Seq<char>) -> bool {
        conflicts(self.route.root, template_pattern(path))
    }

    /// No routes, no services.
    pub fn new() -> (r: Self)
        ensures
            r.wf(),
            r.services().len() == 0,
            forall|q: Seq<Pattern>| #[trigger] r.service_at(q) is None,
    {
        let r = AllRouteServices { route: RadixRouter::new(), services: Vec::new() };
        proof {
            assert forall|q: Seq<Pattern>| #[trigger] r.service_at(q) is None by {
                assert(route_at(r.route.root, q) is None);
            }
        }
        r
    }

    /// Adds `service` under the template `path`. Fails, and changes nothing,
    /// where the template names a parameter differently from a route that is
    /// already there.
    pub fn add_route(&mut self, path: &str, service: S) -> (r: Result<(), RouteError>)
        requires
            old(self).wf(),
        ensures
            final(self).wf(),
            r is Ok <==> !old(self).would_conflict(path@),
            r is Ok ==> final(self).services() == old(self).services().push(service),
            r is Ok ==> forall|q: Seq<Pattern>| #[trigger]
                final(self).service_at(q) == if q == template_pattern(path@) {
                    Some(service)
                } else {
                    old(self).service_at(q)
                },
            r is Err ==> final(self).services() == old(self).services(),
            r is Err ==> forall|q: Seq<Pattern>| #[trigger]
                final(self).service_at(q) == old(self).service_at(q),
    {
        let index = self.services.len();
        match self.route.add_route(path, index) {
            Ok(()) => {
                let ghost before = self.services@;
                self.services.push(service);
                proof {
                    assert forall|q: Seq<Pattern>| #[trigger]
                        route_at(self.route.root, q) is Some implies route_at(self.route.root, q)->0 < self.services@.len() by {
                        if q != template_pattern(path@) {
                            assert(route_at(old(self).route.root, q) == route_at(self.route.root, q));
                        }
                    }
                    assert forall|q: Seq<Pattern>| #[trigger]
                        self.service_at(q) == if q == template_pattern(path@) {
                            Some(service)
                        } else {
                            old(self).service_at(q)
                        } by {
                        if q != template_pattern(path@) {
                            assert(route_at(old(self).route.root, q) == route_at(self.route.root, q));
                            if let Some(h) = route_at(old(self).route.root, q) {
                                assert(self.services@[h as int] == before[h as int]);
                            }
                        }
                    }
                }
                Ok(())
            },
            Err(e) => Err(e),
        }
    }

    /// Finds the service that `path` leads to, and the parameters it binds.
    pub fn find_route(&self, path: &str) -> (r: Option<(&S, Params)>)
        requires
            self.wf(),
        ensures
            match self.lookup(path@) {
                Some(found) => r matches Some(got) && *got.0 == found.0 && got.1@ == found.1
                    && got.1.wf(),
                None => r is None,
            },
    {
        match self.route.find_route(path) {
            Some((h, params)) => {
                proof {
                    lemma_lookup_sound(self.route.root, path_segments(path@));
                }
                Some((&self.services[h], params))
            },
            None => None,
        }
    }
}

/// The templates of registrations, read.
pub open spec fn patterns_of(paths: Seq<String>) -> Seq<Seq<Pattern>> {
    paths.map_values(|t: String| template_pattern(t@))
}

proof fn lemma_last_registered_bound(pats: Seq<Seq<Pattern>>, q: Seq<Pattern>)
    requires
        pats.len() <= usize::MAX,
    ensures
        last_registered(pats, q) matches Some(i) ==> i < pats.len() && pats[i as int] == q,
    decreases pats.len(),
{
    if pats.len() > 0 {
        lemma_last_registered_bound(pats.drop_last(), q);
        if let Some(i) = last_registered(pats.drop_last(), q) {
            assert(pats.drop_last()[i as int] == pats[i as int]);
        }
    }
}

/// Routes registered in order: template `paths[i]` leads to `services[i]`.
pub struct Router<S> {
    pub paths: Vec<String>,
    pub services: Vec<S>,
}

impl<S> Router<S> {
    /// No routes.
    pub fn new() -> (r: Self)
        ensures
            r.paths@.len() == 0,
            r.services@.len() == 0,
    {
        Router { paths: Vec::new(), services: Vec::new() }
    }

    /// The router with one more route.
    pub fn route(self, path: &str, service: S) -> (r: Self)
        requires
            self.paths@.len() == self.services@.len(),
        ensures
            r.paths@.len() == r.services@.len(),
            strings_view(r.paths@) == strings_view(self.paths@).push(path@),
            r.services@ == self.services@.push(service),
    {
        let mut r = self;
        let ghost before = r.paths@;
        r.paths.push(path.to_owned());
        r.services.push(service);
        proof {
            assert(strings_view(r.paths@) =~= strings_view(before).push(path@));
        }
        r
    }

    /// The router with the routes of a scope after its own.
    pub fn service(self, scope: Scope<S>) -> (r: Self)
        requires
            self.paths@.len() == self.services@.len(),
            scope.paths@.len() == scope.services@.len(),
        ensures
            r.paths@.len() == r.services@.len(),
            strings_view(r.paths@) == strings_view(self.paths@) + strings_view(scope.paths@),
            r.services@ == self.services@ + scope.services@,
    {
        let mut r = self;
        let mut s = scope;
        let ghost before = r.paths@;
        let ghost added = s.paths@;
        r.paths.append(&mut s.paths);
        r.services.append(&mut s.services);
        proof {
            assert(strings_view(r.paths@) =~= strings_view(before) + strings_view(added));
        }
        r
    }

    /// Builds the route table: each route leads to its service, and of two
    /// routes with one template the later wins. Fails exactly where two
    /// templates name one parameter position differently.
    pub fn into_table(self) -> (r: Result<AllRouteServices<S>, RouteError>)
        requires
            self.paths@.len() == self.services@.len(),
        ensures
            r is Ok <==> no_clashes(patterns_of(self.paths@)),
            r matches Ok(table) ==> table.wf() && table.services() == self.services@ && forall|
                q: Seq<Pattern>,
            | #[trigger]
                table.service_at(q) == match last_registered(patterns_of(self.paths@), q) {
                    Some(i) => Some(self.services@[i as int]),
                    None => None,
                },
    {
        match RadixRouter::build(&self.paths) {
            Ok(route) => {
                let n = self.paths.len();
                let table = AllRouteServices { route, services: self.services };
                proof {
                    assert(patterns_of(self.paths@).len() == n);
                    assert forall|q: Seq<Pattern>| #[trigger]
                        route_at(table.route.root, q) is Some implies route_at(table.route.root, q)->0
                        < table.services@.len() by {
                        lemma_last_registered_bound(patterns_of(self.paths@), q);
                    }
                }
                Ok(table)
            },
            Err(e) => Err(e),
        }
    }
}

/// Routes under a common prefix.
pub struct Scope<S> {
    pub scope: String,
    pub paths: Vec<String>,
    pub services: Vec<S>,
}

impl<S> Scope<S> {
    /// A scope without routes.
    pub fn new(scope: &str) -> (r: Self)
        ensures
            r.scope@ == scope@,
            r.paths@.len() == 0,
            r.services@.len() == 0,
    {
        Scope { scope: scope.to_owned(), paths: Vec::new(), services: Vec::new() }
    }

    /// The scope with one more route, whose template is the scope's prefix
    /// followed by `path`.
    pub fn route(self, path: &str, service: S) -> (r: Self)
        requires
            self.paths@.len() == self.services@.len(),
        ensures
            r.scope@ == self.scope@,
            r.paths@.len() == r.services@.len(),
            strings_view(r.paths@) == strings_view(self.paths@).push(self.scope@ + path@),
            r.services@ == self.services@.push(service),
    {
        let mut r = self;
        let full = concat_str(r.scope.as_str(), path);
        let ghost before = r.paths@;
        r.paths.push(full);
        r.services.push(service);
        proof {
            assert(strings_view(r.paths@) =~= strings_view(before).push(r.scope@ + path@));
        }
        r
    }
}

} // verus!
