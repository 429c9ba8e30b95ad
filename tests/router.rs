use std::collections::HashMap;

use ceresdb_client::cache::EndpointCache;
use ceresdb_client::model::{Endpoint, Error, RpcContext};
use ceresdb_client::router::{RouteEntry, RouteStep, RouterImpl};

/// Routes `tables` the way a client does: answers from the cache, or fetches
/// the misses from `remote` and completes the call with its answer. Counts
/// the fetches in `fetches`.
fn route(
    router: &mut RouterImpl,
    tables: &[String],
    ctx: &RpcContext,
    remote: &HashMap<String, Endpoint>,
    fetches: &mut usize,
) -> Result<Vec<Option<Endpoint>>, Error> {
    match router.lookup(&tables.to_vec(), ctx)? {
        RouteStep::Resolved(endpoints) => Ok(endpoints),
        RouteStep::Fetch(plan) => {
            *fetches += 1;
            let routes: Vec<RouteEntry> = plan
                .misses
                .iter()
                .map(|t| RouteEntry {
                    table: t.clone(),
                    endpoint: remote.get(t).cloned(),
                })
                .collect();
            router.complete(&plan, &routes)
        }
    }
}

fn ctx() -> RpcContext {
    RpcContext {
        database: Some("db".to_string()),
        timeout_ms: None,
    }
}

fn ep(addr: &str, port: u32) -> Endpoint {
    Endpoint::new(addr.to_string(), port)
}

fn names(tables: &[&str]) -> Vec<String> {
    tables.iter().map(|t| t.to_string()).collect()
}

#[test]
fn test_basic_flow() {
    let table1 = "table1".to_string();
    let table2 = "table2".to_string();
    let table3 = "table3".to_string();
    let table4 = "table4".to_string();
    let endpoint1 = Endpoint::new("192.168.0.1".to_string(), 11);
    let endpoint2 = Endpoint::new("192.168.0.2".to_string(), 12);
    let endpoint3 = Endpoint::new("192.168.0.3".to_string(), 13);
    let endpoint4 = Endpoint::new("192.168.0.4".to_string(), 14);
    let default_endpoint = Endpoint::new("192.168.0.5".to_string(), 15);

    let mut route_table = HashMap::new();
    route_table.insert(table1.clone(), endpoint1.clone());
    route_table.insert(table2.clone(), endpoint2.clone());

    let ctx = ctx();
    let tables = vec![table1.clone(), table2.clone()];
    let mut router = RouterImpl::new(default_endpoint.clone());
    let mut fetches = 0;
    let route_res1 = route(&mut router, &tables, &ctx, &route_table, &mut fetches).unwrap();
    assert_eq!(&endpoint1, route_res1.get(0).unwrap().as_ref().unwrap());
    assert_eq!(&endpoint2, route_res1.get(1).unwrap().as_ref().unwrap());

    route_table.insert(table1.clone(), endpoint3.clone());
    route_table.insert(table2.clone(), endpoint4.clone());

    let route_res2 = route(&mut router, &tables, &ctx, &route_table, &mut fetches).unwrap();
    assert_eq!(&endpoint1, route_res2.get(0).unwrap().as_ref().unwrap());
    assert_eq!(&endpoint2, route_res2.get(1).unwrap().as_ref().unwrap());

    router.evict(&vec![table1.clone(), table2.clone()]);

    let route_res3 = route(&mut router, &tables, &ctx, &route_table, &mut fetches).unwrap();
    assert_eq!(&endpoint3, route_res3.get(0).unwrap().as_ref().unwrap());
    assert_eq!(&endpoint4, route_res3.get(1).unwrap().as_ref().unwrap());

    let route_res4 = route(&mut router, &[table3, table4], &ctx, &route_table, &mut fetches).unwrap();
    assert_eq!(&default_endpoint, route_res4.get(0).unwrap().as_ref().unwrap());
    assert_eq!(&default_endpoint, route_res4.get(1).unwrap().as_ref().unwrap());
}

#[test]
fn all_hits_make_no_fetch() {
    let mut remote = HashMap::new();
    remote.insert("t1".to_string(), ep("10.0.0.1", 1));
    remote.insert("t2".to_string(), ep("10.0.0.2", 2));
    let mut router = RouterImpl::new(ep("10.0.0.9", 9));
    let mut fetches = 0;
    route(&mut router, &names(&["t1", "t2"]), &ctx(), &remote, &mut fetches).unwrap();
    assert_eq!(fetches, 1);
    let again = route(&mut router, &names(&["t2", "t1", "t2"]), &ctx(), &remote, &mut fetches).unwrap();
    assert_eq!(fetches, 1);
    assert_eq!(again, vec![Some(ep("10.0.0.2", 2)), Some(ep("10.0.0.1", 1)), Some(ep("10.0.0.2", 2))]);
}

#[test]
fn output_keeps_length_and_order() {
    let mut remote = HashMap::new();
    remote.insert("b".to_string(), ep("b", 2));
    remote.insert("c".to_string(), ep("c", 3));
    let mut router = RouterImpl::new(ep("d", 0));
    let mut fetches = 0;
    route(&mut router, &names(&["c"]), &ctx(), &remote, &mut fetches).unwrap();
    let r = route(&mut router, &names(&["a", "b", "c", "b"]), &ctx(), &remote, &mut fetches).unwrap();
    assert_eq!(r, vec![Some(ep("d", 0)), Some(ep("b", 2)), Some(ep("c", 3)), Some(ep("b", 2))]);
}

#[test]
fn empty_table_list_is_answered_empty() {
    let mut router = RouterImpl::new(ep("d", 0));
    match router.lookup(&Vec::new(), &ctx()).unwrap() {
        RouteStep::Resolved(v) => assert!(v.is_empty()),
        RouteStep::Fetch(_) => panic!("an empty call needs no fetch"),
    }
}

#[test]
fn every_slot_is_filled() {
    let remote = HashMap::new();
    let mut router = RouterImpl::new(ep("d", 0));
    let mut fetches = 0;
    let r = route(&mut router, &names(&["x", "y", "x"]), &ctx(), &remote, &mut fetches).unwrap();
    assert_eq!(r.len(), 3);
    assert!(r.iter().all(|e| e.as_ref() == Some(&ep("d", 0))));
}

#[test]
fn repeated_misses_are_fetched_once_and_filled_everywhere() {
    let mut router = RouterImpl::new(ep("d", 0));
    let step = router.lookup(&names(&["t", "u", "t"]), &ctx()).unwrap();
    let plan = match step {
        RouteStep::Fetch(plan) => plan,
        RouteStep::Resolved(_) => panic!("the cache is empty"),
    };
    assert_eq!(plan.misses, names(&["t", "u"]));
    assert_eq!(plan.database, "db");
    let routes = vec![RouteEntry { table: "t".to_string(), endpoint: Some(ep("t", 1)) }];
    let r = router.complete(&plan, &routes).unwrap();
    assert_eq!(r, vec![Some(ep("t", 1)), Some(ep("d", 0)), Some(ep("t", 1))]);
}

#[test]
fn evicted_table_is_fetched_again() {
    let mut remote = HashMap::new();
    remote.insert("t".to_string(), ep("a", 1));
    let mut router = RouterImpl::new(ep("d", 0));
    let mut fetches = 0;
    route(&mut router, &names(&["t"]), &ctx(), &remote, &mut fetches).unwrap();
    router.evict(&names(&["t", "absent"]));
    assert_eq!(router.get(&"t".to_string()), None);
    match router.lookup(&names(&["t"]), &ctx()).unwrap() {
        RouteStep::Fetch(plan) => assert_eq!(plan.misses, names(&["t"])),
        RouteStep::Resolved(_) => panic!("an evicted table must be fetched"),
    }
}

#[test]
fn empty_answer_is_not_cached() {
    let mut router = RouterImpl::new(ep("d", 0));
    let plan = match router.lookup(&names(&["t"]), &ctx()).unwrap() {
        RouteStep::Fetch(plan) => plan,
        RouteStep::Resolved(_) => panic!("the cache is empty"),
    };
    let routes = vec![RouteEntry { table: "t".to_string(), endpoint: None }];
    router.complete(&plan, &routes).unwrap();
    assert_eq!(router.get(&"t".to_string()), None);
}

#[test]
fn scenario_empty_cache_fetches_both() {
    let mut remote = HashMap::new();
    remote.insert("t1".to_string(), ep("e1", 1));
    remote.insert("t2".to_string(), ep("e2", 2));
    let mut router = RouterImpl::new(ep("d", 0));
    let mut fetches = 0;
    let r = route(&mut router, &names(&["t1", "t2"]), &ctx(), &remote, &mut fetches).unwrap();
    assert_eq!(r, vec![Some(ep("e1", 1)), Some(ep("e2", 2))]);
    assert_eq!(router.get(&"t1".to_string()), Some(ep("e1", 1)));
    assert_eq!(router.get(&"t2".to_string()), Some(ep("e2", 2)));
}

#[test]
fn scenario_partial_hit_fetches_only_the_miss() {
    let mut router = RouterImpl::new(ep("d", 0));
    let warm = match router.lookup(&names(&["t1"]), &ctx()).unwrap() {
        RouteStep::Fetch(plan) => plan,
        RouteStep::Resolved(_) => panic!("the cache is empty"),
    };
    router
        .complete(&warm, &vec![RouteEntry { table: "t1".to_string(), endpoint: Some(ep("e1", 1)) }])
        .unwrap();
    let plan = match router.lookup(&names(&["t1", "t3"]), &ctx()).unwrap() {
        RouteStep::Fetch(plan) => plan,
        RouteStep::Resolved(_) => panic!("t3 is not cached"),
    };
    assert_eq!(plan.misses, names(&["t3"]));
    let routes = vec![RouteEntry { table: "t3".to_string(), endpoint: Some(ep("e3", 3)) }];
    let r = router.complete(&plan, &routes).unwrap();
    assert_eq!(r, vec![Some(ep("e1", 1)), Some(ep("e3", 3))]);
}

#[test]
fn scenario_unknown_route_gives_default() {
    let mut router = RouterImpl::new(ep("dflt", 7));
    let plan = match router.lookup(&names(&["t4"]), &ctx()).unwrap() {
        RouteStep::Fetch(plan) => plan,
        RouteStep::Resolved(_) => panic!("the cache is empty"),
    };
    let r = router
        .complete(&plan, &vec![RouteEntry { table: "t4".to_string(), endpoint: None }])
        .unwrap();
    assert_eq!(r, vec![Some(ep("dflt", 7))]);
    assert_eq!(router.get(&"t4".to_string()), None);
}

#[test]
fn scenario_evict_then_route_takes_new_endpoint() {
    let mut remote = HashMap::new();
    remote.insert("t1".to_string(), ep("e1", 1));
    let mut router = RouterImpl::new(ep("d", 0));
    let mut fetches = 0;
    route(&mut router, &names(&["t1"]), &ctx(), &remote, &mut fetches).unwrap();
    remote.insert("t1".to_string(), ep("e5", 5));
    router.evict(&names(&["t1"]));
    let r = route(&mut router, &names(&["t1"]), &ctx(), &remote, &mut fetches).unwrap();
    assert_eq!(r, vec![Some(ep("e5", 5))]);
    assert_eq!(router.get(&"t1".to_string()), Some(ep("e5", 5)));
    assert_eq!(fetches, 2);
}

#[test]
fn missing_database_is_invalid_context() {
    let router = RouterImpl::new(ep("d", 0));
    let ctx = RpcContext { database: None, timeout_ms: Some(5) };
    assert!(matches!(router.lookup(&names(&["t"]), &ctx), Err(Error::InvalidContext)));
}

#[test]
fn unexpected_route_entry_fails_and_leaves_cache() {
    let mut router = RouterImpl::new(ep("d", 0));
    let plan = match router.lookup(&names(&["t"]), &ctx()).unwrap() {
        RouteStep::Fetch(plan) => plan,
        RouteStep::Resolved(_) => panic!("the cache is empty"),
    };
    let routes = vec![
        RouteEntry { table: "t".to_string(), endpoint: Some(ep("a", 1)) },
        RouteEntry { table: "other".to_string(), endpoint: Some(ep("b", 2)) },
    ];
    assert_eq!(
        router.complete(&plan, &routes),
        Err(Error::UnexpectedRouteEntry("other".to_string()))
    );
    assert_eq!(router.get(&"t".to_string()), None);
    assert_eq!(router.get(&"other".to_string()), None);
}

#[test]
fn later_answer_for_a_table_wins() {
    let mut router = RouterImpl::new(ep("d", 0));
    let plan = match router.lookup(&names(&["t"]), &ctx()).unwrap() {
        RouteStep::Fetch(plan) => plan,
        RouteStep::Resolved(_) => panic!("the cache is empty"),
    };
    let routes = vec![
        RouteEntry { table: "t".to_string(), endpoint: Some(ep("a", 1)) },
        RouteEntry { table: "t".to_string(), endpoint: Some(ep("b", 2)) },
    ];
    assert_eq!(router.complete(&plan, &routes).unwrap(), vec![Some(ep("b", 2))]);
    assert_eq!(router.get(&"t".to_string()), Some(ep("b", 2)));
}

#[test]
fn plan_carries_database_and_timeout() {
    let router = RouterImpl::new(ep("d", 0));
    let ctx = RpcContext { database: Some("metrics".to_string()), timeout_ms: Some(250) };
    match router.lookup(&names(&["t"]), &ctx).unwrap() {
        RouteStep::Fetch(plan) => {
            assert_eq!(plan.database, "metrics");
            assert_eq!(plan.timeout_ms, Some(250));
            assert_eq!(plan.missed, vec![true]);
            assert_eq!(plan.endpoints, vec![Some(ep("d", 0))]);
        }
        RouteStep::Resolved(_) => panic!("the cache is empty"),
    }
}

#[test]
fn cache_insert_get_remove() {
    let mut cache = EndpointCache::new();
    let key = "t".to_string();
    assert_eq!(cache.get(&key), None);
    cache.insert(key.clone(), ep("a", 1));
    assert_eq!(cache.get(&key), Some(ep("a", 1)));
    cache.insert(key.clone(), ep("b", 2));
    assert_eq!(cache.get(&key), Some(ep("b", 2)));
    assert_eq!(cache.get(&"u".to_string()), None);
    cache.remove(&key);
    assert_eq!(cache.get(&key), None);
    cache.remove(&key);
    assert_eq!(cache.get(&key), None);
}

#[test]
fn unexpected_route_entry_without_endpoint_fails() {
    let mut router = RouterImpl::new(ep("d", 0));
    let plan = match router.lookup(&names(&["t"]), &ctx()).unwrap() {
        RouteStep::Fetch(plan) => plan,
        RouteStep::Resolved(_) => panic!("the cache is empty"),
    };
    let routes = vec![
        RouteEntry { table: "t".to_string(), endpoint: Some(ep("a", 1)) },
        RouteEntry { table: "other".to_string(), endpoint: None },
    ];
    assert_eq!(
        router.complete(&plan, &routes),
        Err(Error::UnexpectedRouteEntry("other".to_string()))
    );
    assert_eq!(router.get(&"t".to_string()), None);
}
