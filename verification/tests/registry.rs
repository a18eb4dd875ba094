use hypersync::registry::{HypercoreStore, HypercoreWrapper, RegistryError};

fn key(fill: u8) -> Vec<u8> {
    vec![fill; 32]
}

#[test]
fn get_after_add_finds_the_log() {
    let mut store = HypercoreStore::new();
    let wrapper = HypercoreWrapper::from_proxy_hypercore(key(1));
    let discovery = wrapper.discovery_key().clone();
    store.add(wrapper).unwrap();
    let found = store.get(&discovery).expect("registered log must be found");
    assert_eq!(found.key(), &key(1));
    assert_eq!(found.discovery_key(), &discovery);
}

#[test]
fn get_of_an_unregistered_id_finds_nothing() {
    let mut store = HypercoreStore::new();
    store
        .add(HypercoreWrapper::from_proxy_hypercore(key(1)))
        .unwrap();
    let unregistered = vec![0xabu8; 32];
    assert!(store.get(&unregistered).is_none());
}

#[test]
fn adding_the_same_log_twice_is_rejected() {
    let mut store = HypercoreStore::new();
    store
        .add(HypercoreWrapper::from_proxy_hypercore(key(2)))
        .unwrap();
    let again = HypercoreWrapper::from_proxy_hypercore(key(2));
    assert_eq!(store.add(again), Err(RegistryError::DuplicateLog));
    assert!(store.get(&HypercoreWrapper::from_proxy_hypercore(key(2)).discovery_key().clone()).is_some());
}

#[test]
fn two_logs_live_side_by_side() {
    let mut store = HypercoreStore::new();
    let first = HypercoreWrapper::from_proxy_hypercore(key(1));
    let second = HypercoreWrapper::from_proxy_hypercore(key(2));
    let d1 = first.discovery_key().clone();
    let d2 = second.discovery_key().clone();
    assert_ne!(d1, d2);
    store.add(first).unwrap();
    store.add(second).unwrap();
    assert_eq!(store.get(&d1).unwrap().key(), &key(1));
    assert_eq!(store.get(&d2).unwrap().key(), &key(2));
}

#[test]
fn the_discovery_key_is_a_fresh_32_byte_value() {
    let wrapper = HypercoreWrapper::from_proxy_hypercore(key(7));
    assert_eq!(wrapper.discovery_key().len(), 32);
    assert_ne!(wrapper.discovery_key(), wrapper.key());
}

#[test]
fn the_discovery_key_is_deterministic() {
    let a = HypercoreWrapper::from_proxy_hypercore(key(9));
    let b = HypercoreWrapper::from_proxy_hypercore(key(9));
    assert_eq!(a.discovery_key(), b.discovery_key());
}
