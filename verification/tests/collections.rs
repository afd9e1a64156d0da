use std::collections::HashSet;

use naia_shared::checked_map::{CheckedMap, CheckedSet};
use naia_shared::entity_waitlist::WaitlistStore;
use naia_shared::errors::EntityAuthError;
use naia_shared::host_auth_handler::HostAuthHandler;
use naia_shared::types::{EntityAuthStatus, HostType};

#[test]
fn checked_map_basic() {
    let mut map: CheckedMap<u32, &str> = CheckedMap::new();
    map.insert(1, "one");
    map.insert(2, "two");
    assert!(map.contains_key(&1));
    assert_eq!(map.get(&2), Some(&"two"));
    assert_eq!(map.len(), 2);
    assert_eq!(map.remove(&1), Some("one"));
    assert!(!map.contains_key(&1));
    let entries = map.iter();
    assert_eq!(entries, vec![(&2, &"two")]);
    map.clear();
    assert_eq!(map.len(), 0);
}

#[test]
fn checked_map_get_mut_changes_in_place() {
    let mut map: CheckedMap<u32, u32> = CheckedMap::new();
    map.insert(1, 10);
    assert!(map.get_mut(&2).is_none());
    *map.get_mut(&1).unwrap() += 5;
    assert_eq!(map.get(&1), Some(&15));
    assert_eq!(map.len(), 1);
}

#[test]
fn checked_set_basic() {
    let mut set: CheckedSet<u16> = CheckedSet::new();
    set.insert(5);
    set.insert(6);
    assert!(set.contains(&5));
    set.remove(&5);
    assert!(!set.contains(&5));
    assert_eq!(set.iter(), vec![&6]);
}

#[test]
fn waitlist_store_collects_only_ready_items() {
    let mut store: WaitlistStore<&str> = WaitlistStore::new();
    store.queue(1, "a");
    store.queue(2, "b");
    store.queue(3, "c");
    let mut ready: HashSet<u16> = [2, 3, 9].into_iter().collect();
    let mut items = store.collect_ready_items(&mut ready).unwrap();
    items.sort();
    assert_eq!(items, vec!["b", "c"]);
    assert_eq!(ready, [9].into_iter().collect());
    assert!(store.collect_ready_items(&mut ready).is_none());
    assert_eq!(store.remove(&1), Some("a"));
    assert_eq!(store.remove(&1), None);
}

#[test]
fn waitlist_store_drops_expired_items() {
    let mut store: WaitlistStore<u32> = WaitlistStore::new();
    store.queue(4, 40);
    store.queue(5, 50);
    let mut expired: HashSet<u16> = [4].into_iter().collect();
    store.remove_expired_items(&mut expired);
    assert!(expired.is_empty());
    assert_eq!(store.remove(&4), None);
    assert_eq!(store.remove(&5), Some(50));
}

#[test]
fn auth_handler_registration() {
    let mut handler: HostAuthHandler<u64> = HostAuthHandler::new();
    let accessor = handler.register_entity(HostType::Server, &1);
    assert_eq!(accessor.auth_status().status(), EntityAuthStatus::Available);
    assert!(matches!(
        handler.try_register_entity(HostType::Server, &1),
        Err(EntityAuthError::EntityAlreadyRegistered { .. })
    ));
    assert!(handler.auth_status(&1).is_some());
    assert!(handler.auth_status(&2).is_none());
    assert!(matches!(handler.try_get_accessor(&2), Err(EntityAuthError::EntityNotRegistered { .. })));
    assert!(matches!(
        handler.try_set_auth_status(&2, EntityAuthStatus::Granted),
        Err(EntityAuthError::EntityNotRegistered { .. })
    ));
    handler.deregister_entity(&1);
    assert!(handler.auth_status(&1).is_none());
}

#[test]
fn auth_status_is_shared_between_handles() {
    let mut handler: HostAuthHandler<u64> = HostAuthHandler::new();
    let accessor = handler.register_entity(HostType::Client, &7);
    assert_eq!(accessor.auth_status().status(), EntityAuthStatus::Requested);
    handler.set_auth_status(&7, EntityAuthStatus::Granted);
    assert_eq!(accessor.auth_status().status(), EntityAuthStatus::Granted);
    assert_eq!(handler.get_accessor(&7).auth_status().status(), EntityAuthStatus::Granted);
    assert!(accessor.auth_status().can_write());
    assert!(!accessor.auth_status().can_read());
}

#[test]
fn ordered_ids_pop_until_including_drops_every_older_entry() {
    let mut ids: naia_shared::ordered_ids::OrderedIds<u8> = naia_shared::ordered_ids::OrderedIds::new();
    ids.push_back(1, 10);
    ids.push_back(2, 20);
    ids.push_back(5, 50);
    ids.pop_front_until_and_including(2);
    assert_eq!(ids.len(), 1);
    assert_eq!(ids.pop_front(), Some((5, 50)));
}

#[test]
fn host_auth_handler_names_the_entity_in_its_errors() {
    let mut handler: HostAuthHandler<naia_shared::types::GlobalEntity> = HostAuthHandler::new();
    let entity = naia_shared::types::GlobalEntity(5);
    assert!(handler.try_register_entity(HostType::Server, &entity).is_ok());
    match handler.try_register_entity(HostType::Server, &entity) {
        Err(EntityAuthError::EntityAlreadyRegistered { entity_id }) => assert_eq!(entity_id, "GlobalEntity(5)"),
        _ => panic!("expected a refusal"),
    }
}
