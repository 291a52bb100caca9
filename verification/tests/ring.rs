use crustyring::HashRing;
use crustyring::NodeInfo;

#[test]
fn distance_is_the_shorter_arc() {
    assert_eq!(HashRing::distance(10, 30), 20);
    assert_eq!(HashRing::distance(30, 10), 20);
    assert_eq!(HashRing::distance(7, 7), 0);
    assert_eq!(HashRing::distance(0, u64::MAX), 1);
    assert_eq!(HashRing::distance(u64::MAX, 0), 1);
    assert_eq!(HashRing::distance(5, u64::MAX - 4), 10);
}

#[test]
fn distance_of_opposite_points_is_half_the_ring() {
    assert_eq!(HashRing::distance(0, 1 << 63), 1 << 63);
    assert_eq!(HashRing::distance(1 << 63, 0), 1 << 63);
    assert_eq!(HashRing::distance(0, (1 << 63) + 1), (1 << 63) - 1);
}

#[test]
fn counter_clockwise_distance_is_the_difference_on_the_ring() {
    assert_eq!(HashRing::counter_clockwise_distance(30, 10), 20);
    assert_eq!(HashRing::counter_clockwise_distance(10, 30), u64::MAX - 19);
    assert_eq!(HashRing::counter_clockwise_distance(7, 7), 0);
    assert_eq!(HashRing::counter_clockwise_distance(0, u64::MAX), 1);
    assert_eq!(HashRing::counter_clockwise_distance(u64::MAX, 0), u64::MAX);
    assert_eq!(HashRing::counter_clockwise_distance(0, 1), u64::MAX);
}

#[test]
fn counter_clockwise_distance_is_not_symmetric() {
    assert_ne!(
        HashRing::counter_clockwise_distance(30, 10),
        HashRing::counter_clockwise_distance(10, 30)
    );
    assert_eq!(
        HashRing::counter_clockwise_distance(30, 10),
        30u64.wrapping_sub(10)
    );
    assert_eq!(
        HashRing::counter_clockwise_distance(10, 30),
        10u64.wrapping_sub(30)
    );
}

#[test]
fn distance_is_the_smaller_of_the_two_directions() {
    let points = [0u64, 1, 5, 1 << 40, (1 << 63) - 1, 1 << 63, u64::MAX - 1, u64::MAX];
    for a in points {
        for b in points {
            let back = HashRing::counter_clockwise_distance(a, b);
            let forth = HashRing::counter_clockwise_distance(b, a);
            assert_eq!(HashRing::distance(a, b), back.min(forth));
            assert_eq!(HashRing::distance(a, b), HashRing::distance(b, a));
        }
    }
}

#[test]
fn plain_arc_owns_from_its_start_up_to_its_end() {
    assert!(HashRing::is_node_key(10, 20, 10));
    assert!(HashRing::is_node_key(10, 20, 15));
    assert!(HashRing::is_node_key(10, 20, 19));
    assert!(!HashRing::is_node_key(10, 20, 20));
    assert!(!HashRing::is_node_key(10, 20, 9));
    assert!(!HashRing::is_node_key(10, 20, u64::MAX));
}

#[test]
fn wrapping_arc_owns_both_ends_of_the_range() {
    assert!(HashRing::is_node_key(0xFFFF_FFFF_FFFF_FFF0, 0x10, 0x05));
    assert!(!HashRing::is_node_key(0xFFFF_FFFF_FFFF_FFF0, 0x10, 0x20));
    assert!(HashRing::is_node_key(0xFFFF_FFFF_FFFF_FFF0, 0x10, 0xFFFF_FFFF_FFFF_FFF0));
    assert!(HashRing::is_node_key(0xFFFF_FFFF_FFFF_FFF0, 0x10, u64::MAX));
    assert!(HashRing::is_node_key(0xFFFF_FFFF_FFFF_FFF0, 0x10, 0));
    assert!(HashRing::is_node_key(0xFFFF_FFFF_FFFF_FFF0, 0x10, 0x0F));
    assert!(!HashRing::is_node_key(0xFFFF_FFFF_FFFF_FFF0, 0x10, 0x10));
    assert!(!HashRing::is_node_key(0xFFFF_FFFF_FFFF_FFF0, 0x10, 0xFFFF_FFFF_FFFF_FFEF));
}

#[test]
fn degenerate_arc_owns_nothing() {
    assert!(!HashRing::is_node_key(42, 42, 42));
    assert!(!HashRing::is_node_key(42, 42, 0));
    assert!(!HashRing::is_node_key(42, 42, u64::MAX));
}

#[test]
fn every_key_has_exactly_one_owner_on_a_ring() {
    let ids = [100u64, 5_000, 1 << 40, 1 << 63, u64::MAX - 3];
    let keys = [
        0u64,
        99,
        100,
        101,
        4_999,
        5_000,
        (1 << 40) - 1,
        1 << 40,
        (1 << 63) + 17,
        u64::MAX - 4,
        u64::MAX - 3,
        u64::MAX,
    ];
    for key in keys {
        let mut owners = 0;
        for i in 0..ids.len() {
            let next = ids[(i + 1) % ids.len()];
            if HashRing::is_node_key(ids[i], next, key) {
                owners += 1;
            }
        }
        assert_eq!(owners, 1);
    }
}

#[test]
fn arcs_of_a_ring_add_up_to_the_whole_circle() {
    let ids = [100u64, 5_000, 1 << 40, 1 << 63, u64::MAX - 3];
    let mut total: u128 = 0;
    for i in 0..ids.len() {
        let next = ids[(i + 1) % ids.len()];
        total += HashRing::counter_clockwise_distance(next, ids[i]) as u128;
    }
    assert_eq!(total, 1u128 << 64);
}

#[test]
fn node_info_clone_keeps_both_fields() {
    let node = NodeInfo { id: 9, addr: "http://host:1".to_owned() };
    let copy = node.clone();
    assert_eq!(copy.id, 9);
    assert_eq!(copy.addr, "http://host:1");
}
