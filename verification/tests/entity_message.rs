use naia_shared::entity_command::EntityCommand;
use naia_shared::entity_event::EntityEvent;
use naia_shared::entity_message::{EntityMessage, EntityMessageType};
use naia_shared::local_entity_map::LocalEntityMap;
use naia_shared::types::{ComponentKind, EntityAuthStatus, GlobalEntity, HostEntity, HostType, OwnedLocalEntity, RemoteEntity};

#[test]
fn entity_message_apply_redirects() {
    let old_entity = OwnedLocalEntity::Remote(42);
    let new_entity = OwnedLocalEntity::Host(100);

    let message = EntityMessage::<()>::Spawn(());
    let message_with_entity = message.with_entity(old_entity);

    let redirected_message = message_with_entity.apply_entity_redirect(&old_entity, &new_entity);

    assert_eq!(redirected_message.entity(), Some(new_entity));
}

#[test]
fn redirect_leaves_other_entities_alone() {
    let kind = ComponentKind::new(3);
    let message = EntityMessage::InsertComponent(OwnedLocalEntity::Remote(1), kind);
    let out = message.apply_entity_redirect(&OwnedLocalEntity::Remote(2), &OwnedLocalEntity::Host(9));
    assert_eq!(out, message);
    let release = EntityMessage::<OwnedLocalEntity>::ReleaseAuthority(OwnedLocalEntity::Remote(2));
    let out = release.apply_entity_redirect(&OwnedLocalEntity::Remote(2), &OwnedLocalEntity::Host(9));
    assert_eq!(out, EntityMessage::ReleaseAuthority(OwnedLocalEntity::Host(9)));
}

#[test]
fn strip_and_with_entity_are_inverse() {
    let kind = ComponentKind::new(7);
    let message = EntityMessage::RemoveComponent(RemoteEntity(5), kind);
    let stripped = message.strip_entity();
    assert_eq!(stripped, EntityMessage::RemoveComponent((), kind));
    assert_eq!(stripped.with_entity(RemoteEntity(5)), message);
    assert_eq!(message.get_type(), EntityMessageType::RemoveComponent);
    assert_eq!(message.component_kind(), Some(kind));
    assert_eq!(EntityMessage::<RemoteEntity>::Noop.entity(), None);
    assert_eq!(EntityMessage::<RemoteEntity>::Noop.get_type(), EntityMessageType::Noop);
    assert_eq!(EntityMessage::Publish(RemoteEntity(1)).component_kind(), None);
}

#[test]
fn message_type_with_component_kind() {
    let kind = ComponentKind::new(2);
    assert_eq!(EntityMessageType::InsertComponent.with_component_kind(&kind), EntityMessage::InsertComponent((), kind));
    assert_eq!(EntityMessageType::RemoveComponent.with_component_kind(&kind), EntityMessage::RemoveComponent((), kind));
}

#[test]
fn response_is_readdressed_to_host_number() {
    let message = EntityMessage::MigrateResponse(RemoteEntity(4), HostEntity(8));
    assert_eq!(message.to_host_message(), EntityMessage::MigrateResponse(HostEntity(4), HostEntity(8)));
    let message = EntityMessage::RequestAuthority(RemoteEntity(4), RemoteEntity(6));
    assert_eq!(message.to_host_message(), EntityMessage::RequestAuthority(HostEntity(4), RemoteEntity(6)));
}

#[test]
fn auth_messages_become_events_on_the_global_entity() {
    let mut map = LocalEntityMap::new(HostType::Client);
    map.insert_with_remote_entity(GlobalEntity(50), RemoteEntity(5));
    map.insert_with_host_entity(GlobalEntity(60), HostEntity(6));
    assert_eq!(EntityMessage::Publish(RemoteEntity(5)).to_event(&map), EntityEvent::PublishEntity(GlobalEntity(50)));
    assert_eq!(
        EntityMessage::SetAuthority(RemoteEntity(5), EntityAuthStatus::Granted).to_event(&map),
        EntityEvent::EntityUpdateAuthority(GlobalEntity(50), EntityAuthStatus::Granted)
    );
    assert_eq!(
        EntityMessage::DisableDelegation(HostEntity(6)).to_event(&map),
        EntityEvent::DisableDelegationEntity(GlobalEntity(60))
    );
}

#[test]
fn event_kind_and_entity() {
    let kind = ComponentKind::new(1);
    let event = EntityEvent::InsertComponent(GlobalEntity(3), kind);
    assert_eq!(event.to_type(), Some(EntityMessageType::InsertComponent));
    assert_eq!(event.entity(), GlobalEntity(3));
    let update = EntityEvent::UpdateComponent(12, GlobalEntity(4), kind);
    assert_eq!(update.to_type(), None);
    assert_eq!(update.entity(), GlobalEntity(4));
    assert_eq!(
        EntityEvent::EntityMigrateResponse(GlobalEntity(5), HostEntity(1)).to_type(),
        Some(EntityMessageType::EntityMigrateResponse)
    );
}

#[test]
fn command_accessors() {
    let kind = ComponentKind::new(9);
    let command = EntityCommand::InsertComponent(GlobalEntity(8), kind);
    assert_eq!(command.entity(), GlobalEntity(8));
    assert_eq!(command.component_kind(), Some(kind));
    assert_eq!(command.get_type(), EntityMessageType::InsertComponent);
    let command = EntityCommand::SetAuthority(GlobalEntity(1), EntityAuthStatus::Denied);
    assert_eq!(command.component_kind(), None);
    assert_eq!(command.get_type(), EntityMessageType::UpdateAuthority);
}

#[test]
fn entity_event_log_names_kind_and_entity() {
    assert_eq!(EntityEvent::SpawnEntity(GlobalEntity(5)).log(), "SpawnEntity GlobalEntity(5)");
    assert_eq!(
        EntityEvent::EntityReleaseAuthority(GlobalEntity(9)).log(),
        "ReleaseAuthority GlobalEntity(9)"
    );
    assert_eq!(
        EntityEvent::UpdateComponent(3, GlobalEntity(7), ComponentKind { id: 1 }).log(),
        "UpdateComponent GlobalEntity(7)"
    );
}
