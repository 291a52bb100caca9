use crustyring::dht::service::{DhtNodeService, JoinStep};
use crustyring::rpc::dht::{KeyValueEntry, NeighborType, NodeId, PreviousNeighbors};
use crustyring::rpc::registry::Node;

fn node(id: u64) -> DhtNodeService {
    DhtNodeService::new(id, format!("node-{}", id))
}

fn name(service: &DhtNodeService) -> Node {
    Node { id: service.id, addr: service.addr.clone() }
}

fn member(ring: &mut [DhtNodeService], id: u64) -> &mut DhtNodeService {
    ring.iter_mut().find(|member| member.id == id).unwrap()
}

/// Runs the join of `joiner` through the member `rendezvous`, carrying each
/// message to the member it is meant for.
fn join(joiner: &mut DhtNodeService, ring: &mut [DhtNodeService], rendezvous: u64) {
    let me = name(joiner);
    let through = name(member(ring, rendezvous));
    let mut step = DhtNodeService::setup_connections(&me, &through);
    loop {
        step = match step {
            JoinStep::Register { neighbor, ty, caller } => {
                let request = DhtNodeService::handshake(&caller, ty);
                let reply = member(ring, neighbor.id).register_as_neighbor(&request).unwrap();
                DhtNodeService::connect_to_neighbors(
                    &me,
                    &mut joiner.neighbors,
                    &neighbor,
                    ty,
                    &reply,
                )
            }
            JoinStep::TransferKeys { neighbor, request } => {
                let entries = member(ring, neighbor.id).transfer_keys(&request);
                DhtNodeService::get_keys_from_neighbor(&mut joiner.store, &entries);
                JoinStep::Done
            }
            JoinStep::Done => break,
        };
    }
}

fn next_of(service: &DhtNodeService) -> u64 {
    service.neighbors.next.as_ref().unwrap().id
}

fn prev_of(service: &DhtNodeService) -> u64 {
    service.neighbors.prev.as_ref().unwrap().id
}

fn keys_of(service: &DhtNodeService) -> Vec<u64> {
    let mut keys: Vec<u64> = service.store.list().into_iter().map(|entry| entry.0).collect();
    keys.sort();
    keys
}

#[test]
fn join_begins_by_registering_as_the_successor_of_the_rendezvous() {
    let me = Node { id: 150, addr: "me".to_owned() };
    let through = Node { id: 100, addr: "through".to_owned() };
    match DhtNodeService::setup_connections(&me, &through) {
        JoinStep::Register { neighbor, ty, caller } => {
            assert_eq!(neighbor.id, 100);
            assert_eq!(neighbor.addr, "through");
            assert_eq!(ty, NeighborType::Next);
            assert_eq!(caller.id, 150);
            assert_eq!(caller.addr, "me");
        }
        other => panic!("unexpected step {:?}", other),
    }
}

#[test]
fn handshake_names_the_caller_and_the_slot() {
    let me = Node { id: 150, addr: "me".to_owned() };
    let request = DhtNodeService::handshake(&me, NeighborType::Previous);
    assert_eq!(request.ty, 0);
    assert_eq!(request.id, 150);
    assert_eq!(request.addr, "me");
    assert_eq!(DhtNodeService::handshake(&me, NeighborType::Next).ty, 1);
}

#[test]
fn joiner_takes_the_old_successor_of_the_rendezvous() {
    let me = Node { id: 150, addr: "me".to_owned() };
    let through = Node { id: 100, addr: "through".to_owned() };
    let mut neighbors = crustyring::dht::service::NeighborConnections::new();
    let reply = PreviousNeighbors {
        prev: Some(Node { id: 50, addr: "before".to_owned() }),
        next: Some(Node { id: 200, addr: "after".to_owned() }),
    };
    let step = DhtNodeService::connect_to_neighbors(
        &me,
        &mut neighbors,
        &through,
        NeighborType::Next,
        &reply,
    );
    assert_eq!(neighbors.prev.as_ref().unwrap().id, 100);
    assert_eq!(neighbors.prev.as_ref().unwrap().addr, "through");
    assert!(neighbors.next.is_none());
    match step {
        JoinStep::Register { neighbor, ty, caller } => {
            assert_eq!(neighbor.id, 200);
            assert_eq!(neighbor.addr, "after");
            assert_eq!(ty, NeighborType::Previous);
            assert_eq!(caller.id, 150);
        }
        other => panic!("unexpected step {:?}", other),
    }
}

#[test]
fn joiner_falls_back_on_a_lonely_rendezvous() {
    let me = Node { id: 150, addr: "me".to_owned() };
    let through = Node { id: 100, addr: "through".to_owned() };
    let mut neighbors = crustyring::dht::service::NeighborConnections::new();
    let reply = PreviousNeighbors { prev: None, next: None };
    let step = DhtNodeService::connect_to_neighbors(
        &me,
        &mut neighbors,
        &through,
        NeighborType::Next,
        &reply,
    );
    match step {
        JoinStep::Register { neighbor, ty, .. } => {
            assert_eq!(neighbor.id, 100);
            assert_eq!(ty, NeighborType::Previous);
        }
        other => panic!("unexpected step {:?}", other),
    }
    let step = DhtNodeService::connect_to_neighbors(
        &me,
        &mut neighbors,
        &through,
        NeighborType::Previous,
        &reply,
    );
    assert_eq!(neighbors.next.as_ref().unwrap().id, 100);
    match step {
        JoinStep::TransferKeys { neighbor, request } => {
            assert_eq!(neighbor.id, 100);
            assert_eq!(request.id, 150);
        }
        other => panic!("unexpected step {:?}", other),
    }
}

#[test]
fn registering_records_the_neighbour_in_the_opposite_slot() {
    let mut neighbors = crustyring::dht::service::NeighborConnections::new();
    let other = Node { id: 9, addr: "other".to_owned() };
    DhtNodeService::register_on_neighbor(&mut neighbors, &other, NeighborType::Next);
    assert_eq!(neighbors.prev.as_ref().unwrap().id, 9);
    assert!(neighbors.next.is_none());
    let mut neighbors = crustyring::dht::service::NeighborConnections::new();
    DhtNodeService::register_on_neighbor(&mut neighbors, &other, NeighborType::Previous);
    assert_eq!(neighbors.next.as_ref().unwrap().id, 9);
    assert!(neighbors.prev.is_none());
}

#[test]
fn second_node_forms_a_ring_of_two() {
    let mut ring = vec![node(100)];
    let mut joiner = node(200);
    join(&mut joiner, &mut ring, 100);
    assert_eq!(next_of(&ring[0]), 200);
    assert_eq!(prev_of(&ring[0]), 200);
    assert_eq!(next_of(&joiner), 100);
    assert_eq!(prev_of(&joiner), 100);
    assert_eq!(ring[0].neighbors.next.as_ref().unwrap().addr, "node-200");
    assert_eq!(joiner.neighbors.next.as_ref().unwrap().addr, "node-100");
}

#[test]
fn third_node_is_spliced_in_after_its_rendezvous() {
    let mut ring = vec![node(100)];
    let mut b = node(200);
    join(&mut b, &mut ring, 100);
    ring.push(b);
    // A <-> B; C joins through A.
    let mut c = node(150);
    join(&mut c, &mut ring, 100);
    assert_eq!(next_of(&ring[0]), 150);
    assert_eq!(next_of(&c), 200);
    assert_eq!(next_of(&ring[1]), 100);
    assert_eq!(prev_of(&ring[0]), 200);
    assert_eq!(prev_of(&c), 100);
    assert_eq!(prev_of(&ring[1]), 150);
}

#[test]
fn ring_stays_one_cycle_as_nodes_join() {
    let ids = [1000u64, 5000, 3000, 9000, 200, 7000, 4000];
    let mut ring = vec![node(ids[0])];
    for id in &ids[1..] {
        // Join through the member that is nearest walking backward.
        let rendezvous = ring
            .iter()
            .map(|member| member.id)
            .min_by_key(|member| id.wrapping_sub(*member))
            .unwrap();
        let mut joiner = node(*id);
        join(&mut joiner, &mut ring, rendezvous);
        ring.push(joiner);

        // Walking the successors from any member visits every member once.
        let mut seen = vec![ring[0].id];
        let mut at = next_of(&ring[0]);
        while at != ring[0].id {
            assert!(!seen.contains(&at));
            seen.push(at);
            at = next_of(member(&mut ring, at));
        }
        assert_eq!(seen.len(), ring.len());
        // Walking the predecessors gives the same cycle backward.
        let mut back = vec![ring[0].id];
        let mut at = prev_of(&ring[0]);
        while at != ring[0].id {
            back.push(at);
            at = prev_of(member(&mut ring, at));
        }
        back[1..].reverse();
        assert_eq!(back, seen);
        // The cycle runs in the order of the identifiers.
        let start = seen.iter().position(|id| *id == *seen.iter().min().unwrap()).unwrap();
        seen.rotate_left(start);
        let mut sorted = seen.clone();
        sorted.sort();
        assert_eq!(seen, sorted);
    }
}

#[test]
fn handoff_moves_each_entry_to_exactly_one_store() {
    let mut ring = vec![node(100)];
    let mut b = node(200);
    join(&mut b, &mut ring, 100);
    ring.push(b);
    // A = 100 owns [100, 200).
    let keys = [100u64, 101, 120, 149, 150, 151, 199];
    for key in keys {
        ring[0].store.set(&key, &key.to_le_bytes());
    }
    let mut c = node(150);
    join(&mut c, &mut ring, 100);

    assert_eq!(keys_of(&ring[0]), vec![100, 101, 120, 149]);
    assert_eq!(keys_of(&c), vec![150, 151, 199]);
    for key in keys {
        let at_a = ring[0].store.get(&key);
        let at_c = c.store.get(&key);
        assert!(at_a.is_some() != at_c.is_some());
        assert_eq!(at_a.or(at_c), Some(key.to_le_bytes().to_vec()));
    }
    assert!(keys_of(&ring[1]).is_empty());
}

#[test]
fn keys_are_found_where_they_were_handed() {
    let mut ring = vec![node(100)];
    ring[0].store.set(&150, b"low");
    ring[0].store.set(&50, b"wrapped");
    ring[0].store.set(&250, b"high");
    let mut b = node(200);
    join(&mut b, &mut ring, 100);
    // The single node owned everything; B now owns [200, 100).
    assert_eq!(keys_of(&ring[0]), vec![150]);
    assert_eq!(keys_of(&b), vec![50, 250]);
    assert_eq!(b.store.get(&50), Some(b"wrapped".to_vec()));
    assert_eq!(b.store.get(&250), Some(b"high".to_vec()));
}

#[test]
fn received_entries_are_stored_in_order() {
    let mut store = crustyring::dht::store::Store::new();
    store.set(&1, b"kept");
    store.set(&2, b"old");
    let entries = vec![
        KeyValueEntry { key: 2, value: b"new".to_vec() },
        KeyValueEntry { key: 3, value: b"first".to_vec() },
        KeyValueEntry { key: 3, value: b"second".to_vec() },
    ];
    DhtNodeService::get_keys_from_neighbor(&mut store, &entries);
    assert_eq!(store.get(&1), Some(b"kept".to_vec()));
    assert_eq!(store.get(&2), Some(b"new".to_vec()));
    assert_eq!(store.get(&3), Some(b"second".to_vec()));
    assert_eq!(store.list().len(), 3);
    DhtNodeService::get_keys_from_neighbor(&mut store, &Vec::new());
    assert_eq!(store.list().len(), 3);
}

#[test]
fn transfer_request_names_the_joiner() {
    let mut a = node(100);
    a.store.set(&160, b"v");
    let entries = a.transfer_keys(&NodeId { id: 150 });
    assert_eq!(entries.len(), 1);
    assert_eq!(entries[0].key, 160);
    assert_eq!(entries[0].value, b"v".to_vec());
}

/// Carries a query from the member `entry` from hop to hop until a member
/// executes it; gives that member and the number of hops.
fn route(
    ring: &mut [DhtNodeService],
    entry: u64,
    query: &crustyring::rpc::dht::EncodedQuery,
) -> (u64, usize) {
    let mut at = entry;
    let mut hops = 0;
    loop {
        match member(ring, at).forward_query(query).unwrap() {
            crustyring::dht::service::Routing::Local(result) => {
                assert_eq!(result.error, None);
                return (at, hops);
            }
            crustyring::dht::service::Routing::Forward(neighbor) => {
                at = neighbor.id;
                hops += 1;
                assert!(hops <= ring.len());
            }
        }
    }
}

#[test]
fn queries_reach_the_owner_from_every_entry_node() {
    let ids = [1000u64, 5000, 3000, 9000, 200, 7000, 4000, 1 << 63, u64::MAX - 5];
    let mut ring = vec![node(ids[0])];
    for id in &ids[1..] {
        let rendezvous = ring
            .iter()
            .map(|member| member.id)
            .min_by_key(|member| id.wrapping_sub(*member))
            .unwrap();
        let mut joiner = node(*id);
        join(&mut joiner, &mut ring, rendezvous);
        ring.push(joiner);
    }
    let keys =
        [0u64, 199, 200, 201, 2999, 3000, 6999, 8000, 9000, 1 << 62, (1 << 63) + 1, u64::MAX];
    for (n, key) in keys.iter().enumerate() {
        let owner = ids.iter().copied().min_by_key(|id| key.wrapping_sub(*id)).unwrap();
        for entry in ids {
            let put = crustyring::rpc::dht::EncodedQuery {
                ty: crustyring::rpc::dht::OperationType::Put.into_i32(),
                key: *key,
                value: Some(vec![n as u8]),
            };
            let (executed_by, _) = route(&mut ring, entry, &put);
            assert_eq!(executed_by, owner);
        }
        assert_eq!(member(&mut ring, owner).store.get(key), Some(vec![n as u8]));
    }
    // Every key is stored once, at its owner.
    let stored: usize = ring.iter().map(|member| member.store.list().len()).sum();
    assert_eq!(stored, keys.len());
}
