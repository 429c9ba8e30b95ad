//! The router: resolves tables to endpoints through the endpoint cache, and
//! asks the route service only for the tables that the cache misses.
//!
//! A routing call runs in two steps around the remote fetch. `lookup` reads
//! the cache and either answers at once or names the tables to fetch;
//! `complete` takes what the route service answered, fills the cache and
//! builds the answer.

use vstd::prelude::*;

use crate::cache::EndpointCache;
use crate::model::{opt_view, Endpoint, EndpointView, Error, RpcContext};

verus! {

/// The names of a sequence of tables.
pub open spec fn names(tables: Seq<String>) -> Seq<Seq<char>> {
    tables.map_values(|t: String| t@)
}

/// Where a table is routed with the given cache contents: its cached endpoint,
/// or the default one.
pub open spec fn resolve(
    cache: Map<Seq<char>, EndpointView>,
    default: EndpointView,
    table: Seq<char>,
) -> EndpointView {
    if cache.contains_key(table) {
        cache[table]
    } else {
        default
    }
}

/// The tables among `tables` that the cache holds no endpoint for.
pub open spec fn missing(cache: Map<Seq<char>, EndpointView>, tables: Seq<Seq<char>>) -> Set<
    Seq<char>,
> {
    tables.to_set().filter(|t: Seq<char>| !cache.contains_key(t))
}

/// The cache after the tables in `tables` are evicted.
pub open spec fn evict_all(cache: Map<Seq<char>, EndpointView>, tables: Seq<Seq<char>>) -> Map<
    Seq<char>,
    EndpointView,
> {
    cache.remove_keys(tables.to_set())
}

/// A call whose tables are all cached needs no fetch: nothing is missing.
pub proof fn lemma_all_hits_need_no_fetch(
    cache: Map<Seq<char>, EndpointView>,
    tables: Seq<Seq<char>>,
)
    requires
        forall|i: int| 0 <= i < tables.len() ==> cache.contains_key(#[trigger] tables[i]),
    ensures
        missing(cache, tables) == Set::<Seq<char>>::empty(),
{
    assert forall|t: Seq<char>| !missing(cache, tables).contains(t) by {
        if tables.contains(t) {
            let i = choose|i: int| 0 <= i < tables.len() && tables[i] == t;
            assert(cache.contains_key(tables[i]));
        }
    };
    assert(missing(cache, tables) =~= Set::<Seq<char>>::empty());
}

/// Once a table is evicted, the next call that asks for it must fetch it.
pub proof fn lemma_evicted_table_is_fetched(
    cache: Map<Seq<char>, EndpointView>,
    evicted: Seq<Seq<char>>,
    tables: Seq<Seq<char>>,
    table: Seq<char>,
)
    requires
        evicted.contains(table),
        tables.contains(table),
    ensures
        missing(evict_all(cache, evicted), tables).contains(table),
{
    assert(evicted.to_set().contains(table));
    assert(tables.to_set().contains(table));
}

/// One answer of the route service: a table and, if the service knows it,
/// its endpoint.
#[derive(Debug, Clone)]
pub struct RouteEntry {
    pub table: String,
    pub endpoint: Option<Endpoint>,
}

/// What an answer of the route service stands for.
pub open spec fn entries(routes: Seq<RouteEntry>) -> Seq<(Seq<char>, Option<EndpointView>)> {
    routes.map_values(|r: RouteEntry| (r.table@, opt_view(r.endpoint)))
}

/// The cache after each answer that carries an endpoint is written into it,
/// in order; answers without one leave it as it is.
pub open spec fn apply_routes(
    cache: Map<Seq<char>, EndpointView>,
    routes: Seq<(Seq<char>, Option<EndpointView>)>,
) -> Map<Seq<char>, EndpointView>
    decreases routes.len(),
{
    if routes.len() == 0 {
        cache
    } else {
        let before = apply_routes(cache, routes.drop_last());
        match routes.last().1 {
            Some(e) => before.insert(routes.last().0, e),
            None => before,
        }
    }
}

/// The endpoint of the last answer for `table` that carries one.
pub open spec fn last_route(routes: Seq<(Seq<char>, Option<EndpointView>)>, table: Seq<char>) -> Option<
    EndpointView,
>
    decreases routes.len(),
{
    if routes.len() == 0 {
        None
    } else if routes.last().0 == table && routes.last().1 is Some {
        routes.last().1
    } else {
        last_route(routes.drop_last(), table)
    }
}

/// What the answers make of one table's cache entry: the last endpoint given
/// for it, or else the entry as it was.
pub proof fn lemma_apply_routes_at(
    cache: Map<Seq<char>, EndpointView>,
    routes: Seq<(Seq<char>, Option<EndpointView>)>,
    table: Seq<char>,
)
    ensures
        match last_route(routes, table) {
            Some(e) => apply_routes(cache, routes).contains_key(table) && apply_routes(
                cache,
                routes,
            )[table] == e,
            None => apply_routes(cache, routes).contains_key(table) == cache.contains_key(table)
                && (cache.contains_key(table) ==> apply_routes(cache, routes)[table]
                == cache[table]),
        },
    decreases routes.len(),
{
    if routes.len() > 0 {
        lemma_apply_routes_at(cache, routes.drop_last(), table);
    }
}

/// An answer that carries no endpoint never reaches the cache: where every
/// answer for a table is empty, its entry stays as it was.
pub proof fn lemma_unresolved_entry_not_cached(
    cache: Map<Seq<char>, EndpointView>,
    routes: Seq<(Seq<char>, Option<EndpointView>)>,
    table: Seq<char>,
)
    requires
        forall|j: int| 0 <= j < routes.len() && (#[trigger] routes[j]).0 == table ==> routes[j].1 is None,
    ensures
        apply_routes(cache, routes).contains_key(table) == cache.contains_key(table),
        cache.contains_key(table) ==> apply_routes(cache, routes)[table] == cache[table],
    decreases routes.len(),
{
    if routes.len() > 0 {
        lemma_unresolved_entry_not_cached(cache, routes.drop_last(), table);
    }
}

/// The answer of a routing call that fetched is what the cache, once filled
/// with the fetched routes, gives each table: when the plan came from that
/// cache and every endpoint fetched is for a table it missed, the endpoint
/// that `complete` gives a table is its resolution in the filled cache.
pub proof fn lemma_fetched_answer_matches_cache(
    cache: Map<Seq<char>, EndpointView>,
    default: EndpointView,
    table: Seq<char>,
    routes: Seq<(Seq<char>, Option<EndpointView>)>,
)
    requires
        forall|j: int|
            0 <= j < routes.len() && (#[trigger] routes[j]).1 is Some ==> !cache.contains_key(
                routes[j].0,
            ),
    ensures
        (if !cache.contains_key(table) && last_route(routes, table) is Some {
            last_route(routes, table)
        } else {
            Some(resolve(cache, default, table))
        }) == Some(resolve(apply_routes(cache, routes), default, table)),
{
    lemma_apply_routes_at(cache, routes, table);
    if cache.contains_key(table) {
        lemma_last_route_is_some_entry(routes, table);
    }
}

/// A table with a route in the answers has an answer that carries an endpoint.
proof fn lemma_last_route_is_some_entry(routes: Seq<(Seq<char>, Option<EndpointView>)>, table: Seq<char>)
    ensures
        last_route(routes, table) is Some ==> exists|j: int|
            0 <= j < routes.len() && (#[trigger] routes[j]).0 == table && routes[j].1 is Some,
    decreases routes.len(),
{
    if routes.len() > 0 {
        lemma_last_route_is_some_entry(routes.drop_last(), table);
        if last_route(routes.drop_last(), table) is Some {
            let j = choose|j: int|
                0 <= j < routes.drop_last().len() && (#[trigger] routes.drop_last()[j]).0 == table
                    && routes.drop_last()[j].1 is Some;
            assert(routes[j] == routes.drop_last()[j]);
        }
    }
}

/// A routing call halfway: the tables asked for, the answer as far as the
/// cache gives it, and the tables to fetch.
#[derive(Debug, Clone)]
pub struct RoutePlan {
    /// The tables asked for, in order.
    pub tables: Vec<String>,
    /// One endpoint for each table: the cached one, else the default.
    pub endpoints: Vec<Option<Endpoint>>,
    /// For each table, whether the cache missed it.
    pub missed: Vec<bool>,
    /// The names the cache missed, each once.
    pub misses: Vec<String>,
    /// The database to fetch the routes from.
    pub database: String,
    /// The bound on the fetch, in milliseconds.
    pub timeout_ms: Option<u64>,
}

impl RoutePlan {
    pub open spec fn wf(&self) -> bool {
        &&& self.endpoints@.len() == self.tables@.len()
        &&& self.missed@.len() == self.tables@.len()
        &&& forall|i: int| 0 <= i < self.endpoints@.len() ==> (#[trigger] self.endpoints@[i]) is Some
        &&& names(self.misses@).no_duplicates()
        &&& forall|i: int|
            0 <= i < self.tables@.len() && #[trigger] self.missed@[i] ==> names(
                self.misses@,
            ).contains(self.tables@[i]@)
    }
}

/// Whether `table` is among `list`.
fn contains_name(list: &Vec<String>, table: &String) -> (r: bool)
    ensures
        r == names(list@).contains(table@),
{
    let mut i: usize = 0;
    while i < list.len()
        invariant
            0 <= i <= list@.len(),
            forall|k: int| 0 <= k < i ==> list@[k]@ != table@,
        decreases list@.len() - i,
    {
        if list[i] == *table {
            assert(names(list@)[i as int] == table@);
            return true;
        }
        i += 1;
    }
    proof {
        if names(list@).contains(table@) {
            let k = choose|k: int| 0 <= k < names(list@).len() && names(list@)[k] == table@;
            assert(list@[k]@ == table@);
        }
    }
    false
}

/// The first step of a routing call.
pub enum RouteStep {
    /// Every table was cached: the endpoints, in the order of the tables.
    Resolved(Vec<Option<Endpoint>>),
    /// Some tables were not: fetch `misses` and hand the answer to `complete`.
    Fetch(RoutePlan),
}

/// Resolves tables to endpoints, caching what the route service answers.
/// When a cached endpoint turns out stale, `evict` it: the next call fetches
/// it again.
pub struct RouterImpl {
    default_endpoint: Endpoint,
    cache: EndpointCache,
}

impl RouterImpl {
    /// The endpoint given to tables that no route is known for.
    pub closed spec fn default_view(&self) -> EndpointView {
        self.default_endpoint@
    }

    /// The cached routes.
    pub closed spec fn cache_view(&self) -> Map<Seq<char>, EndpointView> {
        self.cache@
    }

    pub fn new(default_endpoint: Endpoint) -> (r: RouterImpl)
        ensures
            r.default_view() == default_endpoint@,
            r.cache_view().dom() == Set::<Seq<char>>::empty(),
    {
        RouterImpl { default_endpoint, cache: EndpointCache::new() }
    }

    /// The cached endpoint of a table, if any.
    pub fn get(&self, table: &String) -> (r: Option<Endpoint>)
        ensures
            opt_view(r) == (if self.cache_view().contains_key(table@) {
                Some(self.cache_view()[table@])
            } else {
                None
            }),
    {
        self.cache.get(table)
    }

    /// Reads the cache for each of `tables`. Where every table is cached the
    /// call is answered at once, with no fetch; else the plan names the
    /// missed tables, each once. Each table that the cache misses is given the
    /// default endpoint until a fetch resolves it.
    pub fn lookup(&self, tables: &Vec<String>, ctx: &RpcContext) -> (r: Result<RouteStep, Error>)
        ensures
            ctx.database is None ==> r == Err::<RouteStep, Error>(Error::InvalidContext),
            ctx.database is Some ==> match r {
                Ok(RouteStep::Resolved(v)) => {
                    &&& missing(self.cache_view(), names(tables@)) == Set::<Seq<char>>::empty()
                    &&& v@.len() == tables@.len()
                    &&& forall|i: int|
                        0 <= i < tables@.len() ==> opt_view(#[trigger] v@[i]) == Some(
                            resolve(self.cache_view(), self.default_view(), tables@[i]@),
                        )
                },
                Ok(RouteStep::Fetch(p)) => {
                    &&& missing(self.cache_view(), names(tables@)) != Set::<Seq<char>>::empty()
                    &&& p.wf()
                    &&& names(p.tables@) == names(tables@)
                    &&& forall|i: int|
                        0 <= i < tables@.len() ==> opt_view(#[trigger] p.endpoints@[i]) == Some(
                            resolve(self.cache_view(), self.default_view(), tables@[i]@),
                        )
                    &&& forall|i: int|
                        0 <= i < tables@.len() ==> #[trigger] p.missed@[i]
                            == !self.cache_view().contains_key(tables@[i]@)
                    &&& names(p.misses@).to_set() == missing(self.cache_view(), names(tables@))
                    &&& p.database@ == ctx.database->Some_0@
                    &&& p.timeout_ms == ctx.timeout_ms
                },
                Err(_) => false,
            },
    {
        let database = match &ctx.database {
            Some(d) => d.clone(),
            None => {
                return Err(Error::InvalidContext);
            },
        };
        let ghost cache = self.cache_view();
        let ghost dflt = self.default_view();
        let mut endpoints: Vec<Option<Endpoint>> = Vec::new();
        let mut missed: Vec<bool> = Vec::new();
        let mut misses: Vec<String> = Vec::new();
        let mut copied: Vec<String> = Vec::new();
        let mut i: usize = 0;
        while i < tables.len()
            invariant
                0 <= i <= tables@.len(),
                cache == self.cache_view(),
                dflt == self.default_view(),
                endpoints@.len() == i,
                missed@.len() == i,
                copied@.len() == i,
                forall|j: int| 0 <= j < i ==> (#[trigger] copied@[j])@ == tables@[j]@,
                forall|j: int|
                    0 <= j < i ==> opt_view(#[trigger] endpoints@[j]) == Some(
                        resolve(cache, dflt, tables@[j]@),
                    ),
                forall|j: int| 0 <= j < i ==> #[trigger] missed@[j] == !cache.contains_key(tables@[j]@),
                names(misses@).no_duplicates(),
                forall|t: Seq<char>|
                    #[trigger] names(misses@).contains(t) <==> (exists|j: int|
                        0 <= j < i && tables@[j]@ == t && !cache.contains_key(t)),
            decreases tables@.len() - i,
        {
            let table = &tables[i];
            let ghost before = names(misses@);
            match self.cache.get(table) {
                Some(e) => {
                    endpoints.push(Some(e));
                    missed.push(false);
                },
                None => {
                    endpoints.push(Some(self.default_endpoint.duplicate()));
                    missed.push(true);
                    if !contains_name(&misses, table) {
                        misses.push(table.clone());
                        assert(names(misses@) =~= before.push(table@));
                    }
                },
            }
            copied.push(table.clone());
            proof {
                assert forall|t: Seq<char>|
                    #[trigger] names(misses@).contains(t) <==> (before.contains(t) || (t
                        == tables@[i as int]@ && !cache.contains_key(t))) by {
                    if names(misses@) != before {
                        if names(misses@).contains(t) {
                            let k = choose|k: int|
                                0 <= k < names(misses@).len() && names(misses@)[k] == t;
                            if k < before.len() {
                                assert(before[k] == t);
                            }
                        }
                        if before.contains(t) {
                            let k = choose|k: int| 0 <= k < before.len() && before[k] == t;
                            assert(names(misses@)[k] == t);
                        }
                        if t == tables@[i as int]@ {
                            assert(names(misses@)[before.len() as int] == t);
                        }
                    }
                };
                assert forall|t: Seq<char>|
                    #[trigger] names(misses@).contains(t) <==> (exists|j: int|
                        0 <= j < i + 1 && tables@[j]@ == t && !cache.contains_key(t)) by {
                    if t == tables@[i as int]@ && !cache.contains_key(t) {
                        assert(names(misses@).contains(t));
                    }
                    if before.contains(t) {
                        assert(exists|j: int| 0 <= j < i && tables@[j]@ == t && !cache.contains_key(t));
                    }
                    if exists|j: int| 0 <= j < i + 1 && tables@[j]@ == t && !cache.contains_key(t) {
                        let j = choose|j: int| 0 <= j < i + 1 && tables@[j]@ == t && !cache.contains_key(t);
                        if j < i {
                            assert(before.contains(t));
                        }
                    }
                };
            }
            i += 1;
        }
        proof {
            assert(names(copied@) =~= names(tables@));
            assert(names(misses@).to_set() =~= missing(cache, names(tables@))) by {
                assert forall|t: Seq<char>|
                    names(misses@).to_set().contains(t) <==> missing(cache, names(tables@)).contains(t) by {
                    if names(misses@).contains(t) {
                        let j = choose|j: int| 0 <= j < i && tables@[j]@ == t && !cache.contains_key(t);
                        assert(names(tables@)[j] == t);
                    }
                    if names(tables@).contains(t) && !cache.contains_key(t) {
                        let j = choose|j: int| 0 <= j < names(tables@).len() && names(tables@)[j] == t;
                        assert(tables@[j]@ == t);
                    }
                };
            };
        }
        if misses.len() == 0 {
            proof {
                assert(names(misses@).to_set() =~= Set::<Seq<char>>::empty());
            }
            Ok(RouteStep::Resolved(endpoints))
        } else {
            proof {
                assert(names(misses@).to_set().contains(names(misses@)[0]));
            }
            let plan = RoutePlan {
                tables: copied,
                endpoints,
                missed,
                misses,
                database,
                timeout_ms: ctx.timeout_ms,
            };
            Ok(RouteStep::Fetch(plan))
        }
    }

    /// Finishes a routing call with the route service's answer to a fetch of
    /// `plan.misses`. Each answer that carries an endpoint is cached, and
    /// given to every position of its table in the plan; answers without one
    /// leave their table at the default and are not cached. An answer for a
    /// table that was not asked for, with or without an endpoint, fails the
    /// call, and the cache is then left as it was.
    pub fn complete(&mut self, plan: &RoutePlan, routes: &Vec<RouteEntry>) -> (r: Result<
        Vec<Option<Endpoint>>,
        Error,
    >)
        requires
            plan.wf(),
        ensures
            final(self).default_view() == old(self).default_view(),
            match r {
                Ok(v) => {
                    &&& forall|j: int|
                        0 <= j < routes@.len() ==> names(plan.misses@).contains(
                            (#[trigger] routes@[j]).table@,
                        )
                    &&& final(self).cache_view() == apply_routes(
                        old(self).cache_view(),
                        entries(routes@),
                    )
                    &&& v@.len() == plan.tables@.len()
                    &&& forall|i: int| 0 <= i < v@.len() ==> (#[trigger] v@[i]) is Some
                    &&& forall|i: int|
                        0 <= i < v@.len() ==> opt_view(#[trigger] v@[i]) == (if plan.missed@[i]
                            && last_route(entries(routes@), plan.tables@[i]@) is Some {
                            last_route(entries(routes@), plan.tables@[i]@)
                        } else {
                            opt_view(plan.endpoints@[i])
                        })
                },
                Err(e) => {
                    &&& final(self).cache_view() == old(self).cache_view()
                    &&& exists|j: int|
                        0 <= j < routes@.len() && !names(plan.misses@).contains(
                            (#[trigger] routes@[j]).table@,
                        ) && e == Error::UnexpectedRouteEntry(routes@[j].table)
                },
            },
    {
        let mut j: usize = 0;
        while j < routes.len()
            invariant
                0 <= j <= routes@.len(),
                forall|k: int|
                    0 <= k < j ==> names(plan.misses@).contains((#[trigger] routes@[k]).table@),
            decreases routes@.len() - j,
        {
            let route = &routes[j];
            if !contains_name(&plan.misses, &route.table) {
                let table = route.table.clone();
                proof {
                    assert(table == routes@[j as int].table);
                }
                return Err(Error::UnexpectedRouteEntry(table));
            }
            j += 1;
        }
        let ghost cache0 = self.cache_view();
        let ghost all = entries(routes@);
        let n = plan.tables.len();
        let mut result: Vec<Option<Endpoint>> = Vec::new();
        let mut i: usize = 0;
        while i < n
            invariant
                0 <= i <= n,
                n == plan.tables@.len(),
                plan.wf(),
                result@.len() == i,
                forall|k: int| 0 <= k < i ==> opt_view(#[trigger] result@[k]) == opt_view(plan.endpoints@[k]),
                forall|k: int| 0 <= k < i ==> (#[trigger] result@[k]) is Some,
            decreases n - i,
        {
            let slot = match &plan.endpoints[i] {
                Some(e) => Some(e.duplicate()),
                None => None,
            };
            result.push(slot);
            i += 1;
        }
        let mut j: usize = 0;
        while j < routes.len()
            invariant
                0 <= j <= routes@.len(),
                n == plan.tables@.len(),
                plan.wf(),
                all == entries(routes@),
                self.default_view() == old(self).default_view(),
                self.cache_view() == apply_routes(cache0, all.take(j as int)),
                result@.len() == n,
                forall|k: int| 0 <= k < n ==> (#[trigger] result@[k]) is Some,
                forall|k: int|
                    0 <= k < n ==> opt_view(#[trigger] result@[k]) == (if plan.missed@[k]
                        && last_route(all.take(j as int), plan.tables@[k]@) is Some {
                        last_route(all.take(j as int), plan.tables@[k]@)
                    } else {
                        opt_view(plan.endpoints@[k])
                    }),
            decreases routes@.len() - j,
        {
            let route = &routes[j];
            proof {
                assert(all.take(j + 1).drop_last() =~= all.take(j as int));
                assert(all.take(j + 1).last() == all[j as int]);
            }
            match &route.endpoint {
                Some(e) => {
                    self.cache.insert(route.table.clone(), e.duplicate());
                    let mut i: usize = 0;
                    while i < n
                        invariant
                            0 <= i <= n,
                            n == plan.tables@.len(),
                            plan.wf(),
                            result@.len() == n,
                            forall|k: int| 0 <= k < n ==> (#[trigger] result@[k]) is Some,
                            forall|k: int|
                                0 <= k < n ==> opt_view(#[trigger] result@[k]) == (if k < i
                                    && plan.missed@[k] && plan.tables@[k]@ == route.table@ {
                                    Some(e@)
                                } else if plan.missed@[k] && last_route(
                                    all.take(j as int),
                                    plan.tables@[k]@,
                                ) is Some {
                                    last_route(all.take(j as int), plan.tables@[k]@)
                                } else {
                                    opt_view(plan.endpoints@[k])
                                }),
                        decreases n - i,
                    {
                        if plan.missed[i] && plan.tables[i] == route.table {
                            result.set(i, Some(e.duplicate()));
                        }
                        i += 1;
                    }
                },
                None => {},
            }
            j += 1;
        }
        proof {
            assert(all.take(routes@.len() as int) =~= all);
        }
        Ok(result)
    }

    /// Removes the cached endpoints of `tables`; tables not cached are skipped.
    pub fn evict(&mut self, tables: &Vec<String>)
        ensures
            final(self).default_view() == old(self).default_view(),
            final(self).cache_view() == evict_all(old(self).cache_view(), names(tables@)),
    {
        let ghost cache0 = self.cache_view();
        let ghost all = names(tables@);
        let mut i: usize = 0;
        while i < tables.len()
            invariant
                0 <= i <= tables@.len(),
                all == names(tables@),
                self.default_view() == old(self).default_view(),
                self.cache_view() == evict_all(cache0, all.take(i as int)),
            decreases tables@.len() - i,
        {
            self.cache.remove(&tables[i]);
            proof {
                let s0 = all.take(i as int);
                let s1 = all.take(i + 1);
                assert(s1.to_set() =~= s0.to_set().insert(all[i as int])) by {
                    assert forall|t: Seq<char>|
                        #[trigger] s1.contains(t) <==> (s0.contains(t) || t == all[i as int]) by {
                        if s1.contains(t) {
                            let k = choose|k: int| 0 <= k < s1.len() && s1[k] == t;
                            if k < i {
                                assert(s0[k] == t);
                            }
                        }
                        if s0.contains(t) {
                            let k = choose|k: int| 0 <= k < s0.len() && s0[k] == t;
                            assert(s1[k] == t);
                        }
                        if t == all[i as int] {
                            assert(s1[i as int] == t);
                        }
                    };
                };
                assert(self.cache_view() =~= evict_all(cache0, all.take(i + 1)));
            }
            i += 1;
        }
        proof {
            assert(all.take(tables@.len() as int) =~= all);
        }
    }
}

} // verus!
