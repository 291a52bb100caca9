use crustyring::registry::manager::Manager;
use crustyring::registry::service::RegistryService;
use crustyring::registry::REGISTRY_PORT;
use crustyring::rpc::registry::ConnectionAddr;

#[test]
fn new_manager_knows_nobody() {
    let manager = Manager::new();
    assert!(manager.get_nodes().unwrap().is_empty());
    assert!(manager.find_closest_neighbor(5).unwrap().is_none());
}

#[test]
fn registration_at_a_given_time_assigns_the_salted_hash() {
    let mut manager = Manager::new();
    let id = manager.register_node_at("node-a".to_owned(), 7).unwrap();
    assert_eq!(id, 0x98dbc4514921dc0e);
    let nodes = manager.get_nodes().unwrap();
    assert_eq!(nodes.len(), 1);
    assert_eq!(nodes[0].id, 0x98dbc4514921dc0e);
    assert_eq!(nodes[0].addr, "node-a");
}

#[test]
fn members_are_listed_in_the_order_of_registration() {
    let mut manager = Manager::new();
    let a = manager.register_node_at("node-a".to_owned(), 7).unwrap();
    let b = manager.register_node_at("node-b".to_owned(), 7).unwrap();
    let c = manager.register_node_at("node-c".to_owned(), 7).unwrap();
    let nodes = manager.get_nodes().unwrap();
    let ids: Vec<u64> = nodes.iter().map(|node| node.id).collect();
    assert_eq!(ids, vec![a, b, c]);
    assert_eq!(ids, vec![0x98dbc4514921dc0e, 0xdc03d0249a3981fe, 0x30bdcc96785697b7]);
    let addrs: Vec<&str> = nodes.iter().map(|node| node.addr.as_str()).collect();
    assert_eq!(addrs, vec!["node-a", "node-b", "node-c"]);
}

#[test]
fn registration_with_the_clock_adds_one_member() {
    let mut manager = Manager::new();
    let id = manager.register_node("node-a".to_owned()).unwrap();
    let nodes = manager.get_nodes().unwrap();
    assert_eq!(nodes.len(), 1);
    assert_eq!(nodes[0].id, id);
    assert_eq!(nodes[0].addr, "node-a");
}

#[test]
fn closest_neighbor_is_the_nearest_member_walking_backward() {
    // a = 0x98db.., b = 0xdc03.., c = 0x30bd..
    let mut manager = Manager::new();
    let a = manager.register_node_at("node-a".to_owned(), 7).unwrap();
    let b = manager.register_node_at("node-b".to_owned(), 7).unwrap();
    let c = manager.register_node_at("node-c".to_owned(), 7).unwrap();

    let found = manager.find_closest_neighbor(a + 1).unwrap().unwrap();
    assert_eq!(found.id, a);
    assert_eq!(found.addr, "node-a");
    assert_eq!(manager.find_closest_neighbor(b - 1).unwrap().unwrap().id, a);
    assert_eq!(manager.find_closest_neighbor(b + 1).unwrap().unwrap().id, b);
    assert_eq!(manager.find_closest_neighbor(u64::MAX).unwrap().unwrap().id, b);
    assert_eq!(manager.find_closest_neighbor(0).unwrap().unwrap().id, b);
    assert_eq!(manager.find_closest_neighbor(c - 1).unwrap().unwrap().id, b);
    assert_eq!(manager.find_closest_neighbor(c + 1).unwrap().unwrap().id, c);
}

#[test]
fn closest_neighbor_is_never_the_node_itself() {
    let mut manager = Manager::new();
    let a = manager.register_node_at("node-a".to_owned(), 7).unwrap();
    assert!(manager.find_closest_neighbor(a).unwrap().is_none());
    let b = manager.register_node_at("node-b".to_owned(), 7).unwrap();
    assert_eq!(manager.find_closest_neighbor(a).unwrap().unwrap().id, b);
    assert_eq!(manager.find_closest_neighbor(b).unwrap().unwrap().id, a);
}

#[test]
fn closest_neighbor_may_be_almost_a_whole_turn_away() {
    let mut manager = Manager::new();
    let a = manager.register_node_at("node-a".to_owned(), 7).unwrap();
    // Walking backward from a - 1, the member a is the farthest point there is.
    assert_eq!(manager.find_closest_neighbor(a - 1).unwrap().unwrap().id, a);
}

#[test]
fn closest_neighbor_prefers_the_earlier_of_two_equal_members() {
    let mut manager = Manager::new();
    let a = manager.register_node_at("node-a".to_owned(), 7).unwrap();
    manager.register_node_at("node-a".to_owned(), 7).unwrap();
    manager.register_node_at("node-b".to_owned(), 7).unwrap();
    let found = manager.find_closest_neighbor(a + 5).unwrap().unwrap();
    assert_eq!(found.id, a);
    assert_eq!(found.addr, "node-a");
}

#[test]
fn first_registration_has_no_rendezvous() {
    let mut service = RegistryService::new();
    let request = ConnectionAddr { addr: "node-a".to_owned() };
    let info = service.register_node_at(&request, 7).unwrap();
    assert_eq!(info.id, 0x98dbc4514921dc0e);
    assert!(info.neighbor.is_none());
}

#[test]
fn later_registrations_join_through_their_predecessor() {
    let mut service = RegistryService::new();
    let a = service
        .register_node_at(&ConnectionAddr { addr: "node-a".to_owned() }, 7)
        .unwrap();
    let b = service
        .register_node_at(&ConnectionAddr { addr: "node-b".to_owned() }, 7)
        .unwrap();
    let c = service
        .register_node_at(&ConnectionAddr { addr: "node-c".to_owned() }, 7)
        .unwrap();
    assert!(a.neighbor.is_none());
    let through = b.neighbor.unwrap();
    assert_eq!(through.id, a.id);
    assert_eq!(through.addr, "node-a");
    // c = 0x30bd.. lies below a: walking backward it wraps round to b.
    let through = c.neighbor.unwrap();
    assert_eq!(through.id, b.id);
    assert_eq!(through.addr, "node-b");
}

#[test]
fn connected_nodes_are_the_registered_members() {
    let mut service = RegistryService::new();
    assert!(service.get_connected_nodes().unwrap().nodes.is_empty());
    service
        .register_node_at(&ConnectionAddr { addr: "node-a".to_owned() }, 7)
        .unwrap();
    service
        .register_node(&ConnectionAddr { addr: "node-b".to_owned() })
        .unwrap();
    let nodes = service.get_connected_nodes().unwrap().nodes;
    assert_eq!(nodes.len(), 2);
    assert_eq!(nodes[0].id, 0x98dbc4514921dc0e);
    assert_eq!(nodes[0].addr, "node-a");
    assert_eq!(nodes[1].addr, "node-b");
}

#[test]
fn duplicate_addresses_are_registered_twice() {
    let mut service = RegistryService::new();
    let first = service
        .register_node_at(&ConnectionAddr { addr: "node-a".to_owned() }, 7)
        .unwrap();
    let second = service
        .register_node_at(&ConnectionAddr { addr: "node-a".to_owned() }, 7)
        .unwrap();
    assert_eq!(first.id, second.id);
    assert!(second.neighbor.is_none());
    assert_eq!(service.get_connected_nodes().unwrap().nodes.len(), 2);
}

#[test]
fn registry_port() {
    assert_eq!(REGISTRY_PORT, 50000);
}
