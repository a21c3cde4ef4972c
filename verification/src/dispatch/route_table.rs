//! The route table: route records with their compiled matchers, in the
//! order in which they were first registered.

use vstd::prelude::*;
use crate::dispatch::entries::{RouteHandler, RouteHandlerView};
use crate::routing::matcher::{extract_path_params, extraction};
use crate::routing::pattern::{compiled, ElementView, PatternError, RoutePattern};
use crate::string_map::StringMap;
use crate::text::text_eq;

verus! {

/// The model of a registered route.
pub struct RouteView {
    pub record: RouteHandlerView,
    pub matcher: Seq<ElementView>,
}

/// A route record with the matcher compiled from its pattern.
pub struct RouteEntry {
    pub record: RouteHandler,
    pub matcher: RoutePattern,
}

impl View for RouteEntry {
    type V = RouteView;

    open spec fn view(&self) -> RouteView {
        RouteView { record: self.record@, matcher: self.matcher@ }
    }
}

/// The models of registered routes.
pub open spec fn route_views(entries: Seq<RouteEntry>) -> Seq<RouteView> {
    Seq::new(entries.len(), |i: int| entries[i]@)
}

/// Whether the route is the one registered for `method` and `pattern`.
pub open spec fn has_identity(route: RouteView, method: Seq<char>, pattern: Seq<char>) -> bool {
    route.record.method == method && route.record.path == pattern
}

/// The position of the first route registered for `method` and `pattern`,
/// or the number of routes where there is none.
pub open spec fn position_of(routes: Seq<RouteView>, method: Seq<char>, pattern: Seq<char>) -> nat
    decreases routes.len(),
{
    if routes.len() == 0 || has_identity(routes[0], method, pattern) {
        0
    } else {
        1 + position_of(routes.skip(1), method, pattern)
    }
}

/// The routes after registering `route`: a route with the same method and
/// pattern is overwritten where it stands, a new one goes to the end.
pub open spec fn registered(routes: Seq<RouteView>, route: RouteView) -> Seq<RouteView> {
    let at = position_of(routes, route.record.method, route.record.path);
    if at < routes.len() {
        routes.update(at as int, route)
    } else {
        routes.push(route)
    }
}

/// Whether the route answers `method` and `path`: it is registered for the
/// method, and extraction of the path against its pattern succeeds.
pub open spec fn answers(route: RouteView, method: Seq<char>, path: Seq<char>) -> bool {
    route.record.method == method && extraction(route.matcher, path) is Some
}

/// The position of the first route that answers `method` and `path`, or
/// the number of routes where none does.
pub open spec fn first_answering(routes: Seq<RouteView>, method: Seq<char>, path: Seq<char>) -> nat
    decreases routes.len(),
{
    if routes.len() == 0 || answers(routes[0], method, path) {
        0
    } else {
        1 + first_answering(routes.skip(1), method, path)
    }
}

/// Among the routes that answer a request the one registered first wins:
/// `first_answering` names a route that answers, where it names one, and
/// passes over none that does.
pub proof fn law_first_registered_route_wins(routes: Seq<RouteView>, method: Seq<char>, path: Seq<char>)
    ensures
        first_answering(routes, method, path) <= routes.len(),
        first_answering(routes, method, path) < routes.len() ==> answers(
            routes[first_answering(routes, method, path) as int],
            method,
            path,
        ),
        forall|j: int|
            0 <= j < first_answering(routes, method, path) ==> !answers(
                #[trigger] routes[j],
                method,
                path,
            ),
    decreases routes.len(),
{
    if routes.len() > 0 && !answers(routes[0], method, path) {
        let rest = routes.skip(1);
        law_first_registered_route_wins(rest, method, path);
        assert forall|j: int| 0 <= j < first_answering(routes, method, path) implies !answers(
            #[trigger] routes[j],
            method,
            path,
        ) by {
            if j > 0 {
                assert(routes[j] == rest[j - 1]);
            }
        }
    }
}

/// Registering a route under a method and pattern that are not yet
/// registered puts it behind every route that is: the routes that were
/// there keep their places, and a request that one of them answers is
/// still answered by the same route.
pub proof fn law_registration_keeps_order(
    routes: Seq<RouteView>,
    route: RouteView,
    method: Seq<char>,
    path: Seq<char>,
)
    requires
        position_of(routes, route.record.method, route.record.path) == routes.len(),
    ensures
        registered(routes, route) == routes.push(route),
        first_answering(routes, method, path) < routes.len() ==> first_answering(
            registered(routes, route),
            method,
            path,
        ) == first_answering(routes, method, path),
    decreases routes.len(),
{
    if routes.len() > 0 && !answers(routes[0], method, path) {
        let rest = routes.skip(1);
        assert(routes.push(route).skip(1) =~= rest.push(route));
        law_registration_keeps_order(rest, route, method, path);
    }
}

/// `position_of` stays within the routes, names a route of the identity
/// where it names one, and passes over none.
proof fn lemma_position_of(routes: Seq<RouteView>, method: Seq<char>, pattern: Seq<char>)
    ensures
        position_of(routes, method, pattern) <= routes.len(),
        position_of(routes, method, pattern) < routes.len() ==> has_identity(
            routes[position_of(routes, method, pattern) as int],
            method,
            pattern,
        ),
        forall|j: int|
            0 <= j < position_of(routes, method, pattern) ==> !has_identity(
                #[trigger] routes[j],
                method,
                pattern,
            ),
    decreases routes.len(),
{
    if routes.len() > 0 && !has_identity(routes[0], method, pattern) {
        let rest = routes.skip(1);
        lemma_position_of(rest, method, pattern);
        assert forall|j: int| 0 <= j < position_of(routes, method, pattern) implies !has_identity(
            #[trigger] routes[j],
            method,
            pattern,
        ) by {
            if j > 0 {
                assert(routes[j] == rest[j - 1]);
            }
        }
    }
}

/// The first route of an identity stands where no route before it has
/// the identity and it has.
proof fn lemma_position_is(routes: Seq<RouteView>, method: Seq<char>, pattern: Seq<char>, at: int)
    requires
        0 <= at < routes.len(),
        has_identity(routes[at], method, pattern),
        forall|j: int| 0 <= j < at ==> !has_identity(#[trigger] routes[j], method, pattern),
    ensures
        position_of(routes, method, pattern) == at,
    decreases routes.len(),
{
    if at > 0 {
        let rest = routes.skip(1);
        assert forall|j: int| 0 <= j < at - 1 implies !has_identity(
            #[trigger] rest[j],
            method,
            pattern,
        ) by {}
        lemma_position_is(rest, method, pattern, at - 1);
    }
}

/// Registering a route a second time changes nothing: the route stands
/// where the first registration put it.
pub proof fn law_registration_is_idempotent(routes: Seq<RouteView>, route: RouteView)
    ensures
        registered(registered(routes, route), route) == registered(routes, route),
{
    let method = route.record.method;
    let pattern = route.record.path;
    let at = position_of(routes, method, pattern) as int;
    let once = registered(routes, route);
    lemma_position_of(routes, method, pattern);
    assert forall|j: int| 0 <= j < at implies !has_identity(#[trigger] once[j], method, pattern) by {}
    lemma_position_is(once, method, pattern, at);
}

/// Every route's matcher is what its pattern compiles to, a route counts
/// as dynamic exactly where its pattern holds a `{`, and no two routes
/// are registered for the same method and pattern.
pub open spec fn well_formed_routes(routes: Seq<RouteView>) -> bool {
    &&& forall|i: int|
        0 <= i < routes.len() ==> compiled((#[trigger] routes[i]).record.path) == Ok::<
            Seq<ElementView>,
            PatternError,
        >(routes[i].matcher) && routes[i].record.is_dynamic == routes[i].record.path.contains('{')
    &&& forall|i: int, j: int|
        0 <= i < j < routes.len() ==> !has_identity(
            #[trigger] routes[i],
            (#[trigger] routes[j]).record.method,
            routes[j].record.path,
        )
}

/// Registering a route whose matcher is what its pattern compiles to
/// keeps the routes well formed.
pub proof fn lemma_registered_well_formed(routes: Seq<RouteView>, route: RouteView)
    requires
        well_formed_routes(routes),
        compiled(route.record.path) == Ok::<Seq<ElementView>, PatternError>(route.matcher),
        route.record.is_dynamic == route.record.path.contains('{'),
    ensures
        well_formed_routes(registered(routes, route)),
{
    let at = position_of(routes, route.record.method, route.record.path) as int;
    let after = registered(routes, route);
    lemma_position_of(routes, route.record.method, route.record.path);
    assert forall|i: int| 0 <= i < after.len() implies compiled(
        (#[trigger] after[i]).record.path,
    ) == Ok::<Seq<ElementView>, PatternError>(after[i].matcher) && after[i].record.is_dynamic
        == after[i].record.path.contains('{') by {
        if i != at {
            assert(after[i] == routes[i]);
        }
    }
    assert forall|i: int, j: int| 0 <= i < j < after.len() implies !has_identity(
        #[trigger] after[i],
        (#[trigger] after[j]).record.method,
        after[j].record.path,
    ) by {
        if i != at {
            assert(after[i] == routes[i]);
        }
        if j != at {
            assert(after[j] == routes[j]);
        }
        if at < routes.len() {
            if i == at {
                assert(has_identity(routes[at], route.record.method, route.record.path));
                assert(!has_identity(routes[i], routes[j].record.method, routes[j].record.path));
            } else if j == at {
                assert(!has_identity(routes[i], routes[j].record.method, routes[j].record.path));
            }
        }
    }
}

/// The route table.
pub struct RouteTable {
    entries: Vec<RouteEntry>,
}

impl View for RouteTable {
    type V = Seq<RouteView>;

    closed spec fn view(&self) -> Seq<RouteView> {
        route_views(self.entries@)
    }
}

impl RouteTable {
    /// What holds of every route table.
    #[verifier::type_invariant]
    pub open spec fn well_formed(&self) -> bool {
        well_formed_routes(self@)
    }

    /// The empty table.
    pub fn new() -> (table: RouteTable)
        ensures
            table@ == Seq::<RouteView>::empty(),
    {
        RouteTable { entries: Vec::new() }
    }

    /// The number of routes.
    pub fn len(&self) -> (n: usize)
        ensures
            n == self@.len(),
            well_formed_routes(self@),
    {
        proof {
            use_type_invariant(self);
        }
        self.entries.len()
    }

    /// The record of the route at position `i`.
    pub fn record_at(&self, i: usize) -> (record: &RouteHandler)
        requires
            i < self@.len(),
        ensures
            record@ == self@[i as int].record,
    {
        &self.entries[i].record
    }

    /// Registers a route, overwriting the one with the same method and
    /// pattern if there is one. The matcher is the one compiled from the
    /// record's pattern, and the record counts as dynamic exactly where
    /// the pattern holds a `{`.
    pub fn register(&mut self, record: RouteHandler, matcher: RoutePattern)
        requires
            compiled(record@.path) == Ok::<Seq<ElementView>, PatternError>(matcher@),
            record@.is_dynamic == record@.path.contains('{'),
        ensures
            final(self)@ == registered(
                old(self)@,
                RouteView { record: record@, matcher: matcher@ },
            ),
            well_formed_routes(final(self)@),
    {
        proof {
            use_type_invariant(&*self);
            lemma_registered_well_formed(
                self@,
                RouteView { record: record@, matcher: matcher@ },
            );
        }
        let ghost before = self@;
        let mut i: usize = 0;
        assert(before.skip(0) =~= before);
        while i < self.entries.len() && !(text_eq(
            self.entries[i].record.method.as_str(),
            record.method.as_str(),
        ) && text_eq(self.entries[i].record.path.as_str(), record.path.as_str()))
            invariant
                i <= self.entries.len(),
                before == self@,
                position_of(before, record.method@, record.path@) == i + position_of(
                    before.skip(i as int),
                    record.method@,
                    record.path@,
                ),
            decreases self.entries.len() - i,
        {
            assert(before.skip(i as int).skip(1) =~= before.skip(i + 1));
            i += 1;
        }
        let ghost route = RouteView { record: record@, matcher: matcher@ };
        let mut entries: Vec<RouteEntry> = Vec::new();
        assert(route_views(entries@) =~= Seq::<RouteView>::empty());
        core::mem::swap(&mut self.entries, &mut entries);
        if i < entries.len() {
            entries.set(i, RouteEntry { record, matcher });
            assert(route_views(entries@) =~= before.update(i as int, route));
        } else {
            entries.push(RouteEntry { record, matcher });
            assert(route_views(entries@) =~= before.push(route));
        }
        self.entries = entries;
    }

    /// Finds the first route that answers `method` and `path`, and extracts
    /// the path's parameters with it.
    pub fn find(&self, method: &str, path: &str) -> (found: Option<(usize, StringMap)>)
        ensures
            match found {
                Some((at, params)) => at == first_answering(self@, method@, path@) && at
                    < self@.len() && extraction(self@[at as int].matcher, path@) == Some(params@),
                None => first_answering(self@, method@, path@) == self@.len(),
            },
    {
        let ghost routes = self@;
        let mut i: usize = 0;
        assert(routes.skip(0) =~= routes);
        while i < self.entries.len()
            invariant
                i <= self.entries.len(),
                routes == self@,
                first_answering(routes, method@, path@) == i + first_answering(
                    routes.skip(i as int),
                    method@,
                    path@,
                ),
            decreases self.entries.len() - i,
        {
            assert(routes.skip(i as int).skip(1) =~= routes.skip(i + 1));
            if text_eq(self.entries[i].record.method.as_str(), method) {
                if let Some(params) = extract_path_params(&self.entries[i].matcher, path) {
                    return Some((i, params));
                }
            }
            i += 1;
        }
        None
    }
}

} // verus!
