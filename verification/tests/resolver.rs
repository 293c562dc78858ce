use std::collections::HashMap;

use kaze::corral::Dispatcher;
use kaze::message::{Destination, SocketAddress};
use kaze::resolver::{
    default_local_cache_size, default_local_livetime, default_register_interval,
    default_service_name, dispatch, draw_ratio, pick_by_draws, select_random, Chain, DstMask, Local, Resolver,
    ResolverNoPlugin, ResolverPlugin, RouteType,
};

type SocketAddr = SocketAddress;

/// 127.0.0.1 with `port`.
fn addr(port: u16) -> SocketAddr {
    SocketAddress::V4 { ip: 0x7f00_0001, port }
}

#[test]
fn test_add_get_node() {
    let mut resolver = Local::new();
    let addr = addr(8080);

    resolver.add_node(1, addr);
    let result = resolver.get_node(1);

    assert_eq!(result, Some(addr));
    assert_eq!(resolver.get_node(2), None);
}

#[test]
fn local_test_visit_nodes() {
    let mut resolver = Local::new();
    let addr1 = addr(8080);
    let addr2 = addr(8081);

    resolver.add_node(1, addr1);
    resolver.add_node(2, addr2);

    let result = resolver.visit_nodes(&[1, 2, 3]);

    assert_eq!(result.len(), 2);
    assert!(result.contains(&(1, addr1)));
    assert!(result.contains(&(2, addr2)));
}

#[test]
fn local_test_visit_masked_nodes() {
    let mut resolver = Local::new();
    let addr1 = addr(8080);
    let addr2 = addr(8081);
    let addr3 = addr(8082);

    // Binary: 0b0001
    resolver.add_node(1, addr1);
    // Binary: 0b0011
    resolver.add_node(3, addr2);
    // Binary: 0b0101
    resolver.add_node(5, addr3);

    // Testing with mask 0b0011 and ident 0b0001 (matches 1 and 5)
    let result = resolver.visit_masked_nodes(1, 0b0011);
    assert_eq!(result.len(), 2);
    assert!(result.contains(&(1, addr1)));

    // Testing with mask 0b0001 and ident 0b0001 (should match 1, 3, 5)
    let result = resolver.visit_masked_nodes(1, 0b0001);
    assert_eq!(result.len(), 3);
    assert!(result.contains(&(1, addr1)));
    assert!(result.contains(&(3, addr2)));
    assert!(result.contains(&(5, addr3)));
}

#[test]
fn test_update_node() {
    let mut resolver = Local::new();
    let addr1 = addr(8080);
    let addr2 = addr(9090);

    resolver.add_node(1, addr1);
    assert_eq!(resolver.get_node(1), Some(addr1));

    // Update the address for the same node
    resolver.add_node(1, addr2);
    assert_eq!(resolver.get_node(1), Some(addr2));
    assert_eq!(resolver.len(), 1);
}

#[test]
fn test_chain_add_get_node() {
    let mut chain = Chain::new(Local::new(), Local::new());

    let addr1: SocketAddr = addr(8000);
    chain.add_node(1, addr1);

    assert_eq!(chain.get_node(1), Some(addr1));
    assert_eq!(chain.get_node(2), None);
}

#[test]
fn test_chain_fallback() {
    let mut chain = Chain::new(Local::new(), Local::new());

    let addr1: SocketAddr = addr(8000);
    let addr2: SocketAddr = addr(9000);

    // Only add to second resolver
    chain.r2.add_node(1, addr1);

    // Should fallback to r2
    assert_eq!(chain.get_node(1), Some(addr1));

    // Add different address to first resolver
    chain.r1.add_node(1, addr2);

    // Should get from first resolver now
    assert_eq!(chain.get_node(1), Some(addr2));
}

#[test]
fn chain_test_visit_nodes() {
    let mut chain = Chain::new(Local::new(), Local::new());

    let addr1: SocketAddr = addr(8001);
    let addr2: SocketAddr = addr(8002);
    let addr3: SocketAddr = addr(8003);

    // Add nodes to different resolvers
    chain.r1.add_node(1, addr1);
    chain.r2.add_node(2, addr2);
    chain.r1.add_node(3, addr3);

    let mut visited = HashMap::new();
    for (id, addr) in chain.visit_nodes(&[1, 2, 3]) {
        visited.insert(id, addr);
    }
    // Should visit all nodes
    assert_eq!(visited.len(), 3);
    assert_eq!(visited.get(&1), Some(&addr1));
    assert_eq!(visited.get(&2), Some(&addr2));
    assert_eq!(visited.get(&3), Some(&addr3));
}

#[test]
fn chain_test_visit_masked_nodes() {
    let mut chain = Chain::new(Local::new(), Local::new());

    let addr1: SocketAddr = addr(8001);
    let addr2: SocketAddr = addr(8002);
    let addr3: SocketAddr = addr(8003);
    let addr4: SocketAddr = addr(8004);

    // Add nodes to different resolvers with IDs that match mask pattern
    chain.r1.add_node(0b1010, addr1);
    chain.r2.add_node(0b1110, addr2);
    chain.r1.add_node(0b0010, addr3);
    chain.r2.add_node(0b0011, addr4);

    let mut visited = HashMap::new();
    for (id, addr) in chain.visit_masked_nodes(0b0010, 0b0111) {
        visited.insert(id, addr);
    }

    // Should match IDs with pattern xx10
    assert_eq!(visited.len(), 2);
    assert_eq!(visited.get(&0b1010), Some(&addr1));
    assert_eq!(visited.get(&0b0010), Some(&addr3));
    assert!(!visited.contains_key(&0b0011));
}

#[test]
fn chain_adds_to_both_resolvers() {
    let mut chain = Chain::new(Local::new(), Local::new());
    chain.add_node(7, addr(7000));
    assert_eq!(chain.r1.get_node(7), Some(addr(7000)));
    assert_eq!(chain.r2.get_node(7), Some(addr(7000)));
    // the masked visit lists the first resolver's nodes, then the second's
    assert_eq!(chain.visit_masked_nodes(7, 0xffff_ffff), vec![(7, addr(7000)), (7, addr(7000))]);
}

fn sample() -> Local {
    let mut resolver = Local::new();
    resolver.add_node(1, addr(8001));
    resolver.add_node(2, addr(8002));
    resolver.add_node(6, addr(8006));
    resolver
}

#[test]
fn dispatch_without_route_finds_nothing() {
    assert!(dispatch(None, 9, &sample()).is_none());
}

#[test]
fn dispatch_to_local_ident_goes_to_host() {
    let r = dispatch(Some(RouteType::DstIdent(9)), 9, &sample());
    assert!(matches!(r, Some(Destination::Host)));
}

#[test]
fn dispatch_to_known_and_unknown_ident() {
    match dispatch(Some(RouteType::DstIdent(2)), 9, &sample()) {
        Some(Destination::Node(n)) => {
            assert_eq!(n.ident, 2);
            assert_eq!(n.addr, addr(8002));
        }
        _ => panic!("expected a node"),
    }
    assert!(dispatch(Some(RouteType::DstIdent(3)), 9, &sample()).is_none());
}

#[test]
fn dispatch_random_picks_a_matching_node() {
    let mask = DstMask { ident: 2, mask: 0b0011 };
    for _ in 0..20 {
        match dispatch(Some(RouteType::DstRandom(mask)), 9, &sample()) {
            Some(Destination::Node(n)) => {
                assert!(n.ident == 2 || n.ident == 6);
                assert_eq!(n.addr, addr(8000 + n.ident as u16));
            }
            _ => panic!("expected a node"),
        }
    }
    let none = DstMask { ident: 3, mask: 0b0011 };
    assert!(dispatch(Some(RouteType::DstRandom(none)), 9, &sample()).is_none());
}

#[test]
fn dispatch_broadcast_lists_all_matching_nodes() {
    let mask = DstMask { ident: 2, mask: 0b0011 };
    match dispatch(Some(RouteType::DstBroadcast(mask)), 9, &sample()) {
        Some(Destination::NodeList(v)) => {
            let mut ids: Vec<u32> = v.iter().map(|n| n.ident).collect();
            ids.sort();
            assert_eq!(ids, vec![2, 6]);
        }
        _ => panic!("expected a node list"),
    }
}

#[test]
fn dispatch_multicast_keeps_the_order_of_idents() {
    match dispatch(Some(RouteType::DstMulticast(vec![6, 5, 1])), 9, &sample()) {
        Some(Destination::NodeList(v)) => {
            let ids: Vec<u32> = v.iter().map(|n| n.ident).collect();
            assert_eq!(ids, vec![6, 1]);
        }
        _ => panic!("expected a node list"),
    }
}

#[test]
fn select_random_of_one_and_of_none() {
    let one = vec![(4u32, 'x')];
    assert_eq!(select_random(&one), Some((4, 'x')));
    let none: Vec<(u32, char)> = Vec::new();
    assert_eq!(select_random(&none), None);
}

#[test]
fn resolver_defaults_and_wrappers() {
    assert_eq!(default_local_cache_size(), 114514);
    assert_eq!(default_local_livetime(), 1000);
    assert_eq!(default_service_name(), "kaze-service");
    assert_eq!(default_register_interval(), 10_000);
    let p = ResolverPlugin::new(5u8);
    assert_eq!(*p.resolver(), 5);
    let q = ResolverNoPlugin::new(6u8);
    assert_eq!(*q.resolver(), 6);
}

#[test]
fn dispatcher_targets() {
    let mut r = Local::new();
    r.add_node(0x0a00_0001, addr(1));
    r.add_node(0x0a00_0002, addr(2));
    r.add_node(0x0b00_0001, addr(3));
    let d = Dispatcher::new();
    assert_eq!(d.targets(None, &r), None);
    assert_eq!(d.targets(Some(RouteType::DstIdent(9)), &r), Some(vec![9]));
    assert_eq!(d.targets(Some(RouteType::DstMulticast(vec![3, 1])), &r), Some(vec![3, 1]));
    let ten = DstMask { ident: 0x0a00_0000, mask: 0xff00_0000 };
    let mut all = d.targets(Some(RouteType::DstBroadcast(ten)), &r).unwrap();
    all.sort();
    assert_eq!(all, vec![0x0a00_0001, 0x0a00_0002]);
    let one = d.targets(Some(RouteType::DstRandom(ten)), &r).unwrap();
    assert!(one == vec![0x0a00_0001] || one == vec![0x0a00_0002]);
    let none = DstMask { ident: 0x0c00_0000, mask: 0xff00_0000 };
    assert_eq!(d.targets(Some(RouteType::DstRandom(none)), &r), Some(vec![]));
    assert_eq!(d.targets(Some(RouteType::DstBroadcast(none)), &r), Some(vec![]));
}

#[test]
fn local_from_an_existing_table() {
    let table = papaya::HashMap::new();
    table.pin().insert(4, addr(4000));
    table.pin().insert(6, addr(6000));
    let r = Local::from_map(table);
    assert_eq!(r.len(), 2);
    assert_eq!(r.get_node(4), Some(addr(4000)));
    assert_eq!(r.get_node(5), None);
    let v6 = SocketAddress::V6 { ip: 1, port: 80, flowinfo: 0, scope_id: 0 };
    let mut r = r;
    r.add_node(5, v6);
    assert_eq!(r.get_node(5), Some(v6));
    let mut masked = r.visit_masked_nodes(4, 0b110);
    masked.sort_by_key(|p| p.0);
    assert_eq!(masked, vec![(4, addr(4000)), (5, v6)]);
}

#[test]
fn reservoir_pick_keeps_the_last_drawn() {
    let nodes = vec![(1, addr(1)), (2, addr(2)), (3, addr(3))];
    assert_eq!(pick_by_draws(&nodes, &vec![true, false, false]), Some((1, addr(1))));
    assert_eq!(pick_by_draws(&nodes, &vec![true, true, false]), Some((2, addr(2))));
    assert_eq!(pick_by_draws(&nodes, &vec![true, false, true]), Some((3, addr(3))));
    let none: Vec<(u32, SocketAddr)> = vec![];
    assert_eq!(pick_by_draws(&none, &vec![]), None);
    assert_eq!(draw_ratio(0), (1, 1));
    assert_eq!(draw_ratio(4), (1, 5));
}
