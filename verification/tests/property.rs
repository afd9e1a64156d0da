use naia_shared::auth_channel::EntityAuthChannel;
use naia_shared::errors::PropertyError;
use naia_shared::property::Property;
use naia_shared::property_mutator::PropertyMutator;
use naia_shared::types::{EntityAuthStatus, HostType};

#[test]
fn host_owned_property_mirrors_and_writes() {
    let mut property = Property::host_owned(5u32, 2);
    let mutator = PropertyMutator::new(1);
    property.set_mutator(&mutator);
    let other = Property::new_local(9u32);
    property.mirror(&other);
    assert_eq!(*property.deref(), 9);
    assert_eq!(property.try_write().ok(), Some(&9));
    assert!(matches!(property.try_read(Some(3)), Err(PropertyError::InvalidReadOperation { property_type: "Host" })));
    assert_eq!(*property.deref(), 9);
    *property.try_deref_mut().unwrap() = 11;
    assert_eq!(*property.deref(), 11);
}

#[test]
fn remote_property_refuses_local_changes() {
    let mut property = Property::new_read(4u32);
    let other = Property::new_local(1u32);
    assert!(matches!(
        property.try_mirror(&other),
        Err(PropertyError::InvalidMirrorOperation { property_type: "Remote" })
    ));
    assert!(matches!(
        property.try_deref_mut(),
        Err(PropertyError::InvalidMutableAccess { property_type: "Remote" })
    ));
    assert!(matches!(
        property.try_write(),
        Err(PropertyError::InvalidWriteOperation { property_type: "Remote Private" })
    ));
    let mutator = PropertyMutator::new(1);
    assert!(matches!(
        property.try_set_mutator(&mutator),
        Err(PropertyError::InvalidMutatorOperation { property_type: "Remote", operation: "call set_mutator()" })
    ));
    assert!(property.try_read(Some(6)).is_ok());
    assert_eq!(*property.deref(), 6);
    assert!(matches!(
        property.try_read(None),
        Err(PropertyError::InvalidReadOperation { property_type: "RemoteOwned (SerdeErr)" })
    ));
    assert_eq!(*property.deref(), 6);
    property.read(8);
    assert_eq!(*property.deref(), 8);
}

#[test]
fn local_property_stays_local() {
    let mut property = Property::new_local(1u32);
    let mutator = PropertyMutator::new(1);
    let (_auth_mutator, accessor) = EntityAuthChannel::new_channel(HostType::Server);
    assert!(matches!(
        property.try_remote_publish(0, &mutator),
        Err(PropertyError::InvalidStateTransition { from_state: "Local", to_state: "RemotePublic", operation: "be made public" })
    ));
    assert!(matches!(
        property.try_remote_unpublish(),
        Err(PropertyError::InvalidStateTransition { from_state: "Local", to_state: "RemoteOwned", operation: "be unpublished" })
    ));
    assert!(matches!(
        property.try_enable_delegation(&accessor, None),
        Err(PropertyError::InvalidStateTransition {
            from_state: "Local",
            to_state: "Delegated",
            operation: "enable delegation this way (without mutator parameter)"
        })
    ));
    assert!(matches!(
        property.try_enable_delegation(&accessor, Some((0, &mutator))),
        Err(PropertyError::InvalidStateTransition {
            from_state: "Local",
            to_state: "Delegated",
            operation: "enable delegation this way (with mutator parameter)"
        })
    ));
    assert!(matches!(
        property.try_disable_delegation(),
        Err(PropertyError::InvalidStateTransition {
            from_state: "Local",
            to_state: "HostOwned",
            operation: "disable delegation (not delegated)"
        })
    ));
    assert!(matches!(
        property.try_localize(),
        Err(PropertyError::InvalidStateTransition { from_state: "Local", to_state: "Local", operation: "be made local twice" })
    ));
    assert!(matches!(
        property.try_set_mutator(&mutator),
        Err(PropertyError::InvalidMutatorOperation { property_type: "Local", operation: "have a mutator" })
    ));
    assert!(matches!(property.try_write(), Err(PropertyError::InvalidWriteOperation { property_type: "Local" })));
    assert!(matches!(property.try_read(Some(2)), Err(PropertyError::InvalidReadOperation { property_type: "Local" })));
    *property.try_deref_mut().unwrap() = 10;
    assert_eq!(*property.deref(), 10);
    let other = Property::new_local(12u32);
    assert!(property.try_mirror(&other).is_ok());
    assert_eq!(*property.deref(), 12);
}

#[test]
fn value_publish_then_unpublish_keeps_value() {
    let mut property = Property::new_read(4u32);
    let mutator = PropertyMutator::new(3);
    assert!(property.try_remote_publish(1, &mutator).is_ok());
    assert!(matches!(
        property.try_remote_publish(1, &mutator),
        Err(PropertyError::InvalidStateTransition {
            from_state: "RemotePublic",
            to_state: "RemotePublic",
            operation: "be made public twice"
        })
    ));
    assert_eq!(property.try_write().ok(), Some(&4));
    assert!(property.try_read(Some(7)).is_ok());
    assert_eq!(*property.deref(), 7);
    assert!(property.try_remote_unpublish().is_ok());
    assert_eq!(*property.deref(), 7);
    assert!(matches!(
        property.try_remote_unpublish(),
        Err(PropertyError::InvalidStateTransition {
            from_state: "RemoteOwned",
            to_state: "RemoteOwned",
            operation: "be unpublished (already private)"
        })
    ));
}

#[test]
fn value_delegation_needs_a_mutator_and_round_trips() {
    let mut property = Property::host_owned(3u32, 1);
    let (_auth_mutator, accessor) = EntityAuthChannel::new_channel(HostType::Server);
    assert!(matches!(
        property.try_enable_delegation(&accessor, None),
        Err(PropertyError::InvalidStateTransition {
            from_state: "HostOwned",
            to_state: "Delegated",
            operation: "enable delegation (mutator not set)"
        })
    ));
    let mutator = PropertyMutator::new(5);
    property.set_mutator(&mutator);
    assert!(matches!(
        property.try_enable_delegation(&accessor, Some((1, &mutator))),
        Err(PropertyError::InvalidStateTransition {
            from_state: "HostOwned",
            to_state: "Delegated",
            operation: "enable delegation this way (with mutator parameter)"
        })
    ));
    assert!(property.try_enable_delegation(&accessor, None).is_ok());
    assert!(matches!(
        property.try_localize(),
        Err(PropertyError::InvalidStateTransition { from_state: "Delegated", to_state: "Local", operation: "be made local" })
    ));
    assert!(property.try_disable_delegation().is_ok());
    assert_eq!(*property.deref(), 3);
    assert!(matches!(
        property.try_disable_delegation(),
        Err(PropertyError::InvalidStateTransition {
            from_state: "HostOwned",
            to_state: "HostOwned",
            operation: "disable delegation (not delegated)"
        })
    ));
    assert!(property.try_localize().is_ok());
    assert_eq!(*property.deref(), 3);
}

#[test]
fn remote_owned_property_is_delegated_with_a_mutator_argument() {
    let mut property = Property::new_read(2u32);
    let (_auth_mutator, accessor) = EntityAuthChannel::new_channel(HostType::Client);
    let mutator = PropertyMutator::new(5);
    assert!(matches!(
        property.try_enable_delegation(&accessor, None),
        Err(PropertyError::InvalidStateTransition {
            from_state: "RemoteOwned",
            to_state: "Delegated",
            operation: "enable delegation this way (without mutator parameter)"
        })
    ));
    assert!(property.try_enable_delegation(&accessor, Some((4, &mutator))).is_ok());
    assert_eq!(*property.deref(), 2);
    assert!(matches!(
        property.try_remote_publish(0, &mutator),
        Err(PropertyError::InvalidStateTransition { from_state: "Delegated", to_state: "RemotePublic", operation: "be made public" })
    ));
}

#[test]
fn delegated_property_follows_authority() {
    let mut property = Property::host_owned(1u32, 0);
    let mutator = PropertyMutator::new(5);
    property.set_mutator(&mutator);
    let (auth_mutator, accessor) = EntityAuthChannel::new_channel(HostType::Server);
    property.enable_delegation(&accessor, None);
    // The server starts with the entity available, and may change it.
    *property.try_deref_mut().unwrap() = 4;
    assert_eq!(*property.deref(), 4);
    assert_eq!(property.try_write().ok(), Some(&4));
    property.try_read(Some(9)).unwrap();
    assert_eq!(*property.deref(), 4);
    // Once a client holds authority the server takes the client's values only.
    auth_mutator.set_auth_status(EntityAuthStatus::Granted);
    match property.try_deref_mut() {
        Err(PropertyError::InsufficientAuthority { operation, current_authority }) => {
            assert_eq!(operation, "mutating a Delegated Property");
            assert_eq!(current_authority, "HostEntityAuthStatus { host_type: Server, auth_status: Granted }");
        }
        _ => panic!("a server without authority changed a delegated value"),
    }
    match property.try_write() {
        Err(PropertyError::InsufficientAuthority { operation, .. }) => {
            assert_eq!(operation, "performing write operation");
        }
        _ => panic!("a server without authority sent a delegated value"),
    }
    let other = Property::new_local(6u32);
    assert!(matches!(property.try_mirror(&other), Err(PropertyError::InsufficientAuthority { .. })));
    assert_eq!(*property.deref(), 4);
    property.try_read(Some(9)).unwrap();
    assert_eq!(*property.deref(), 9);
}

#[test]
fn property_equality_compares_values() {
    let a = Property::new_local(3u32);
    let b = Property::host_owned(3u32, 1);
    let c = Property::new_read(4u32);
    assert!(a.equals(&b));
    assert!(!a.equals(&c));
}
