use naia_shared::local_entity_map::LocalEntityMap;
use naia_shared::local_entity_record::LocalEntityRecord;
use naia_shared::types::{GlobalEntity, HostEntity, HostType, OwnedLocalEntity, RemoteEntity};

#[test]
fn local_entity_map_install_and_apply_redirect() {
    let mut entity_map = LocalEntityMap::new(HostType::Server);

    let old_entity = OwnedLocalEntity::Remote(42);
    let new_entity = OwnedLocalEntity::Host(100);

    entity_map.install_entity_redirect(old_entity, new_entity);

    let redirected = entity_map.apply_entity_redirect(&old_entity);
    assert_eq!(redirected, new_entity);

    let other_entity = OwnedLocalEntity::Remote(99);
    let not_redirected = entity_map.apply_entity_redirect(&other_entity);
    assert_eq!(not_redirected, other_entity);
}

#[test]
fn install_and_apply_redirect() {
    let mut entity_map = LocalEntityMap::new(HostType::Server);

    let old_entity = OwnedLocalEntity::Remote(42);
    let new_entity = OwnedLocalEntity::Host(100);

    entity_map.install_entity_redirect(old_entity, new_entity);

    let redirected = entity_map.apply_entity_redirect(&old_entity);
    assert_eq!(redirected, new_entity);

    let other_entity = OwnedLocalEntity::Remote(99);
    let not_redirected = entity_map.apply_entity_redirect(&other_entity);
    assert_eq!(not_redirected, other_entity);
}

#[test]
fn redirect_keeps_host_and_remote_numbers_apart() {
    let mut entity_map = LocalEntityMap::new(HostType::Client);
    entity_map.install_entity_redirect(OwnedLocalEntity::Remote(7), OwnedLocalEntity::Host(1));
    // The host number 7 is a different entity from the remote number 7.
    assert_eq!(entity_map.apply_entity_redirect(&OwnedLocalEntity::Host(7)), OwnedLocalEntity::Host(7));
    // A later redirect of the same entity replaces the earlier one.
    entity_map.install_entity_redirect(OwnedLocalEntity::Remote(7), OwnedLocalEntity::Host(2));
    assert_eq!(entity_map.apply_entity_redirect(&OwnedLocalEntity::Remote(7)), OwnedLocalEntity::Host(2));
}

#[test]
fn host_entity_round_trip() {
    let mut entity_map = LocalEntityMap::new(HostType::Server);
    let global = GlobalEntity(1000);
    assert_eq!(entity_map.insert_with_host_entity(global, HostEntity(5)), None);
    assert_eq!(entity_map.global_entity_to_host_entity(&global).ok(), Some(HostEntity(5)));
    assert_eq!(entity_map.host_entity_to_global_entity(&HostEntity(5)).ok(), Some(global));
    assert_eq!(entity_map.global_entity_from_host(&HostEntity(5)), Some(&global));
    assert!(entity_map.contains_global_entity(&global));
    assert!(entity_map.contains_host_entity(&HostEntity(5)));
    assert!(!entity_map.contains_remote_entity(&RemoteEntity(5)));
    assert_eq!(
        entity_map.local_entity_to_global_entity(&OwnedLocalEntity::Host(5)).ok(),
        Some(global)
    );
    assert!(entity_map.local_entity_to_global_entity(&OwnedLocalEntity::Remote(5)).is_err());
}

#[test]
fn remote_entity_round_trip_and_removal() {
    let mut entity_map = LocalEntityMap::new(HostType::Client);
    let global = GlobalEntity(77);
    entity_map.insert_with_remote_entity(global, RemoteEntity(3));
    assert_eq!(entity_map.global_entity_to_remote_entity(&global).ok(), Some(RemoteEntity(3)));
    assert_eq!(entity_map.remote_entity_to_global_entity(&RemoteEntity(3)).ok(), Some(global));
    assert_eq!(entity_map.global_entity_to_owned_entity(&global).ok(), Some(OwnedLocalEntity::Remote(3)));
    assert!(entity_map.global_entity_to_host_entity(&global).is_err());
    assert_eq!(entity_map.remove_by_remote_entity(&RemoteEntity(3)), global);
    assert!(!entity_map.contains_global_entity(&global));
    assert!(!entity_map.contains_remote_entity(&RemoteEntity(3)));
}

#[test]
fn remove_by_global_entity_forgets_both_numbers() {
    let mut entity_map = LocalEntityMap::new(HostType::Server);
    let global = GlobalEntity(9);
    entity_map.insert_with_host_entity(global, HostEntity(2));
    let record: Option<LocalEntityRecord> = entity_map.remove_by_global_entity(&global);
    assert!(record.is_some());
    assert!(!entity_map.contains_host_entity(&HostEntity(2)));
    assert!(entity_map.remove_by_global_entity(&global).is_none());
}

#[test]
fn iter_lists_every_entity_once() {
    let mut entity_map = LocalEntityMap::new(HostType::Server);
    entity_map.insert_with_host_entity(GlobalEntity(1), HostEntity(10));
    entity_map.insert_with_remote_entity(GlobalEntity(2), RemoteEntity(20));
    let mut globals: Vec<u64> = entity_map.iter().iter().map(|(g, _)| g.0).collect();
    globals.sort();
    assert_eq!(globals, vec![1, 2]);
}

#[test]
fn remote_entity_can_become_host_owned() {
    let mut entity_map = LocalEntityMap::new(HostType::Server);
    let global = GlobalEntity(4);
    entity_map.insert_with_remote_entity(global, RemoteEntity(8));
    entity_map.insert_with_host_entity(global, HostEntity(1));
    assert_eq!(entity_map.global_entity_to_host_entity(&global).ok(), Some(HostEntity(1)));
    // The remote number still leads to the entity, for trailing messages.
    assert_eq!(entity_map.remote_entity_to_global_entity(&RemoteEntity(8)).ok(), Some(global));
}

#[test]
fn reserving_global_entities_keeps_known_ones_and_records_new_ones() {
    let mut map = LocalEntityMap::new(HostType::Client);
    map.insert_with_remote_entity(GlobalEntity(10), RemoteEntity(1));
    let globals = map.get_or_reserve_global_entities(
        &vec![RemoteEntity(1), RemoteEntity(2), RemoteEntity(3)],
        &vec![GlobalEntity(20), GlobalEntity(30)],
    );
    assert_eq!(globals, vec![GlobalEntity(10), GlobalEntity(20), GlobalEntity(30)]);
    assert_eq!(map.global_entity_from_remote(&RemoteEntity(3)), Some(&GlobalEntity(30)));
}

#[test]
fn removing_by_remote_number_forgets_the_host_number_of_a_migrated_entity() {
    let mut entity_map = LocalEntityMap::new(HostType::Client);
    let global = GlobalEntity(12);
    let other = GlobalEntity(13);
    entity_map.insert_with_remote_entity(global, RemoteEntity(4));
    entity_map.insert_with_host_entity(global, HostEntity(6));
    entity_map.insert_with_remote_entity(other, RemoteEntity(8));
    assert_eq!(entity_map.remove_by_remote_entity(&RemoteEntity(4)), global);
    assert!(!entity_map.contains_host_entity(&HostEntity(6)));
    assert!(!entity_map.contains_remote_entity(&RemoteEntity(4)));
    assert!(!entity_map.contains_global_entity(&global));
    assert_eq!(entity_map.remote_entity_to_global_entity(&RemoteEntity(8)).ok(), Some(other));
}
