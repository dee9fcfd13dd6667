use rest_proxy::ring::{HashRing, NodeAddr};

fn node(address: &str, port: u16) -> NodeAddr {
    NodeAddr { address: address.to_string(), port }
}

#[test]
fn empty_ring_has_no_owner() {
    let ring = HashRing::new();
    assert!(ring.get(0).is_none());
    assert!(ring.get(42).is_none());
    assert!(ring.get(u64::MAX).is_none());
}

#[test]
fn repeated_lookups_are_deterministic() {
    let mut ring = HashRing::new();
    ring.add(node("10.0.0.1", 6050));
    ring.add(node("10.0.0.2", 6050));
    ring.add(node("10.0.0.3", 6050));
    for key in [0u64, 1, 7, 12345, 987654321, u64::MAX] {
        let first = ring.get(key).expect("non-empty ring owes an owner");
        for _ in 0..5 {
            let again = ring.get(key).expect("non-empty ring owes an owner");
            assert_eq!(first.address, again.address);
            assert_eq!(first.port, again.port);
        }
    }
}

#[test]
fn single_node_owns_everything() {
    let mut ring = HashRing::new();
    ring.add(node("10.0.0.1", 6050));
    for key in [0u64, 5, 999, u64::MAX] {
        let owner = ring.get(key).expect("non-empty ring owes an owner");
        assert_eq!(owner.address, "10.0.0.1");
        assert_eq!(owner.port, 6050);
    }
}

#[test]
fn add_is_idempotent() {
    let mut ring = HashRing::new();
    ring.add(node("10.0.0.1", 6050));
    ring.add(node("10.0.0.2", 6050));
    assert_eq!(ring.len(), 2);
    ring.add(node("10.0.0.1", 6050));
    ring.add(node("10.0.0.2", 6050));
    assert_eq!(ring.len(), 2);
    let owner_before = ring.get(77).unwrap();
    ring.add(node("10.0.0.1", 6050));
    let owner_after = ring.get(77).unwrap();
    assert_eq!(owner_before.address, owner_after.address);
}

#[test]
fn adding_a_node_redirects_only_to_it() {
    let mut ring = HashRing::new();
    ring.add(node("10.0.0.1", 6050));
    ring.add(node("10.0.0.2", 6050));
    ring.add(node("10.0.0.3", 6050));
    let keys: Vec<u64> = (0..200).map(|i| i * 7919).collect();
    let before: Vec<NodeAddr> = keys.iter().map(|k| ring.get(*k).unwrap()).collect();
    ring.add(node("10.0.0.4", 6050));
    let mut unchanged = 0;
    for (key, old_owner) in keys.iter().zip(before.iter()) {
        let new_owner = ring.get(*key).unwrap();
        if new_owner.address == old_owner.address {
            unchanged += 1;
        } else {
            assert_eq!(new_owner.address, "10.0.0.4");
        }
    }
    assert!(unchanged > 0, "a new node must never take over every key");
}
