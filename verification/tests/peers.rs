use peerwatch::peers::{EndpointId, PeerSet};
use std::collections::BTreeSet;

fn public_key(seed: u8) -> iroh::EndpointId {
    iroh::SecretKey::from_bytes(&[seed; 32]).public()
}

fn endpoint(seed: u8) -> EndpointId {
    EndpointId::from_bytes(*public_key(seed).as_bytes()).unwrap()
}

#[test]
fn identifiers_keep_their_bytes() {
    let key = public_key(9);
    let id = EndpointId::from_bytes(*key.as_bytes()).unwrap();
    assert_eq!(&id.to_bytes(), key.as_bytes());
    assert!(id.same(&endpoint(9)));
    assert!(!id.same(&endpoint(8)));
}

#[test]
fn identifiers_are_checked() {
    for byte in 0..=255u8 {
        let bytes = [byte; 32];
        assert_eq!(
            EndpointId::from_bytes(bytes).is_some(),
            iroh::EndpointId::from_bytes(&bytes).is_ok()
        );
    }
}

#[test]
fn identifiers_are_ordered_as_keys() {
    for a in 0..20u8 {
        for b in 0..20u8 {
            assert_eq!(endpoint(a).comes_before(&endpoint(b)), public_key(a) < public_key(b));
        }
    }
}

#[test]
fn sets_behave_as_ordered_sets() {
    let mut set = PeerSet::new();
    let mut expected = BTreeSet::new();
    assert!(set.is_empty());
    for seed in [5u8, 3, 9, 3, 1, 5, 7] {
        assert_eq!(set.insert(endpoint(seed)), expected.insert(public_key(seed)));
    }
    for seed in [9u8, 2, 9] {
        assert_eq!(set.remove(&endpoint(seed)), expected.remove(&public_key(seed)));
    }
    assert_eq!(set.len(), expected.len());
    assert!(!set.is_empty());
    let keys: Vec<[u8; 32]> = set.to_vec().iter().map(|id| id.to_bytes()).collect();
    let expected_keys: Vec<[u8; 32]> = expected.iter().map(|key| *key.as_bytes()).collect();
    assert_eq!(keys, expected_keys);
    for seed in 0..10u8 {
        assert_eq!(set.contains(&endpoint(seed)), expected.contains(&public_key(seed)));
    }
    for (i, key) in expected_keys.iter().enumerate() {
        assert_eq!(&set.get(i).to_bytes(), key);
    }
}

#[test]
fn a_set_has_one_order() {
    let mut first = PeerSet::new();
    let mut second = PeerSet::new();
    for seed in 0..12u8 {
        first.insert(endpoint(seed));
        second.insert(endpoint(11 - seed));
    }
    assert_eq!(first.to_vec(), second.to_vec());
}

#[test]
fn sets_are_extended_by_what_is_new() {
    let mut set = PeerSet::singleton(endpoint(1));
    let mut other = PeerSet::singleton(endpoint(2));
    other.insert(endpoint(1));
    set.extend(&other);
    assert_eq!(set.len(), 2);
    assert!(set.contains(&endpoint(1)));
    assert!(set.contains(&endpoint(2)));
}
