use naia_shared::auth_channel::EntityAuthChannel;
use naia_shared::entity_property::{EntityProperty, RelationKind};
use naia_shared::errors::EntityPropertyError;
use naia_shared::local_entity_map::LocalEntityMap;
use naia_shared::property_mutator::PropertyMutator;
use naia_shared::types::{GlobalEntity, HostEntity, HostType, OwnedLocalEntity, RemoteEntity};

#[test]
fn host_owned_set_reports_change() {
    let mut property = EntityProperty::host_owned(3);
    let mutator = PropertyMutator::new(10);
    property.set_mutator(&mutator);
    property.set(Some(GlobalEntity(5)));
    assert_eq!(property.get(), Some(GlobalEntity(5)));
    property.set(None);
    assert_eq!(property.get(), Some(GlobalEntity(5)));
    property.set_to_none();
    assert_eq!(property.get(), None);
}

#[test]
fn remote_property_cannot_be_set_by_hand() {
    let map = LocalEntityMap::new(HostType::Client);
    let mut property = EntityProperty::new_read(None, &map);
    assert!(matches!(property.try_set(Some(GlobalEntity(1))), Err(EntityPropertyError::RemotePropertyManualSet)));
    assert!(matches!(property.try_set_to_none(), Err(EntityPropertyError::RemotePropertyManualSet)));
}

#[test]
fn read_of_unknown_remote_entity_waits_then_completes() {
    let mut map = LocalEntityMap::new(HostType::Client);
    let mut property = EntityProperty::new_read(Some(OwnedLocalEntity::Remote(4)), &map);
    assert_eq!(property.waiting_local_entity(), Some(RemoteEntity(4)));
    assert_eq!(property.get(), None);
    assert!(matches!(property.try_waiting_complete(&map), Err(EntityPropertyError::WaitingConversionFailed)));
    map.insert_with_remote_entity(GlobalEntity(40), RemoteEntity(4));
    assert!(property.try_waiting_complete(&map).is_ok());
    assert_eq!(property.waiting_local_entity(), None);
    assert_eq!(property.get(), Some(GlobalEntity(40)));
}

#[test]
fn read_of_unknown_host_entity_is_invalid() {
    let map = LocalEntityMap::new(HostType::Client);
    let mut property = EntityProperty::new_read(Some(OwnedLocalEntity::Host(4)), &map);
    assert!(matches!(property.try_set_to_none(), Err(EntityPropertyError::InvalidPropertyManualSet)));
    let other = EntityProperty::new();
    let mut target = EntityProperty::new();
    assert!(matches!(target.try_mirror(&property), Err(EntityPropertyError::InvalidPropertyMirror)));
    assert!(target.try_mirror(&other).is_ok());
}

#[test]
fn publish_then_unpublish_keeps_value() {
    let mut map = LocalEntityMap::new(HostType::Client);
    map.insert_with_remote_entity(GlobalEntity(8), RemoteEntity(1));
    let mut property = EntityProperty::new_read(Some(OwnedLocalEntity::Remote(1)), &map);
    let mutator = PropertyMutator::new(2);
    assert!(property.try_remote_publish(0, &mutator).is_ok());
    assert!(matches!(property.try_remote_publish(0, &mutator), Err(EntityPropertyError::InvalidStateTransition { .. })));
    assert!(property.try_remote_unpublish().is_ok());
    assert_eq!(property.get(), Some(GlobalEntity(8)));
    assert!(matches!(property.try_remote_unpublish(), Err(EntityPropertyError::InvalidStateTransition { .. })));
}

#[test]
fn delegation_needs_a_mutator_and_round_trips() {
    let (_mutator_handle, accessor) = EntityAuthChannel::new_channel(HostType::Server);
    let mut property = EntityProperty::host_owned(1);
    assert!(matches!(property.try_enable_delegation(&accessor, None), Err(EntityPropertyError::MutatorNotInitialized)));
    let mutator = PropertyMutator::new(3);
    property.set_mutator(&mutator);
    property.set(Some(GlobalEntity(12)));
    assert!(property.try_enable_delegation(&accessor, None).is_ok());
    assert!(matches!(property.try_enable_delegation(&accessor, None), Err(EntityPropertyError::InvalidDelegationEnable { .. })));
    assert!(property.try_disable_delegation().is_ok());
    assert_eq!(property.get(), Some(GlobalEntity(12)));
    assert!(matches!(property.try_disable_delegation(), Err(EntityPropertyError::InvalidDelegationDisable { .. })));
}

#[test]
fn delegated_property_on_server_may_be_set_when_available() {
    // A fresh record on the server is `Available`, which lets the server change the value.
    let (_mutator_handle, accessor) = EntityAuthChannel::new_channel(HostType::Server);
    let mut property = EntityProperty::host_owned(1);
    property.set_mutator(&PropertyMutator::new(3));
    property.enable_delegation(&accessor, None);
    assert!(property.try_set(Some(GlobalEntity(99))).is_ok());
    assert_eq!(property.get(), Some(GlobalEntity(99)));
}

#[test]
fn localize_keeps_value() {
    let mut property = EntityProperty::new();
    property.set(Some(GlobalEntity(6)));
    assert!(property.try_localize().is_ok());
    assert_eq!(property.get(), Some(GlobalEntity(6)));
    assert!(matches!(property.try_localize(), Err(EntityPropertyError::InvalidLocalization { .. })));
    property.set_to_none();
    assert_eq!(property.get(), None);
}

#[test]
fn read_updates_remote_owned_value() {
    let mut map = LocalEntityMap::new(HostType::Client);
    map.insert_with_host_entity(GlobalEntity(30), HostEntity(3));
    let mut property = EntityProperty::new_read(None, &map);
    assert_eq!(property.get(), None);
    assert!(property.read(Some(OwnedLocalEntity::Host(3)), &map).is_ok());
    assert_eq!(property.get(), Some(GlobalEntity(30)));
    assert!(property.read(None, &map).is_ok());
    assert_eq!(property.get(), None);
}

#[test]
fn mirror_copies_the_value_of_another_property() {
    let mut source = EntityProperty::new();
    source.set(Some(GlobalEntity(21)));
    let mut target = EntityProperty::host_owned(0);
    target.mirror(&source);
    assert_eq!(target.get(), Some(GlobalEntity(21)));
}

#[test]
fn waiting_complete_on_owned_property_is_an_error() {
    let map = LocalEntityMap::new(HostType::Server);
    let mut property = EntityProperty::new();
    assert!(matches!(property.try_waiting_complete(&map), Err(EntityPropertyError::InvalidWaitingComplete { .. })));
    let _ = RelationKind::HostOwned;
}
