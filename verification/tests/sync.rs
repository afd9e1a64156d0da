use naia_shared::entity_command::EntityCommand;
use naia_shared::entity_message::EntityMessage;
use naia_shared::sync::auth_channel::{AuthChannel, EntityAuthChannelState};
use naia_shared::sync::auth_channel_receiver::AuthChannelReceiver;
use naia_shared::sync::auth_channel_sender::AuthChannelSender;
use naia_shared::sync::component_channel::ComponentChannel;
use naia_shared::sync::config::{EngineConfig, FLUSH_THRESHOLD, MAX_IN_FLIGHT};
use naia_shared::sync::engine::Engine;
use naia_shared::sync::entity_channel_receiver::{EntityChannelReceiver, EntityChannelState};
use naia_shared::sync::entity_channel_sender::EntityChannelSender;
use naia_shared::sync::event::{Event, MsgKind, PathSeg};
use naia_shared::sync::sender_engine::SenderEngine;
use naia_shared::types::{ComponentKind, EntityAuthStatus, GlobalEntity, HostType, RemoteEntity};

fn component_kind(n: u16) -> ComponentKind {
    ComponentKind::new(n)
}

fn check(engine: &mut Engine<RemoteEntity>, expected: Vec<EntityMessage<RemoteEntity>>) {
    let out = engine.receive_messages();
    assert_eq!(expected.len(), out.len(), "Expected {} messages, got {}", expected.len(), out.len());
    for (i, expected_msg) in expected.iter().enumerate() {
        assert_eq!(expected_msg, &out[i], "At index {}", i);
    }
}

#[test]
fn engine_basic_spawn_insert() {
    let mut engine: Engine<RemoteEntity> = Engine::new(HostType::Client);

    let entity = RemoteEntity::new(1);
    let comp = component_kind(1);

    engine.accept_message(1, EntityMessage::Spawn(entity), false);
    engine.accept_message(2, EntityMessage::InsertComponent(entity, comp), false);

    let out = engine.receive_messages();
    assert_eq!(out.len(), 2);
    assert!(matches!(out[0], EntityMessage::Spawn(e) if e == entity));
    assert!(matches!(out[1], EntityMessage::InsertComponent(e, k) if e == entity && k == comp));
}

#[test]
fn engine_basic() {
    let mut engine: Engine<RemoteEntity> = Engine::new(HostType::Server);
    let entity = RemoteEntity::new(1);
    let comp = component_kind(1);

    engine.accept_message(1, EntityMessage::Spawn(entity), false);
    engine.accept_message(2, EntityMessage::InsertComponent(entity, comp), false);
    engine.accept_message(3, EntityMessage::RemoveComponent(entity, comp), false);
    engine.accept_message(4, EntityMessage::Despawn(entity), false);

    check(
        &mut engine,
        vec![
            EntityMessage::Spawn(entity),
            EntityMessage::InsertComponent(entity, comp),
            EntityMessage::RemoveComponent(entity, comp),
            EntityMessage::Despawn(entity),
        ],
    );
}

#[test]
fn engine_entity_channels_do_not_block() {
    let mut engine: Engine<RemoteEntity> = Engine::new(HostType::Server);

    let entity_a = RemoteEntity::new(1);
    let entity_b = RemoteEntity::new(2);
    let entity_c = RemoteEntity::new(3);

    engine.accept_message(3, EntityMessage::Spawn(entity_a), false);
    engine.accept_message(2, EntityMessage::Spawn(entity_b), false);
    engine.accept_message(1, EntityMessage::Spawn(entity_c), false);

    check(
        &mut engine,
        vec![EntityMessage::Spawn(entity_a), EntityMessage::Spawn(entity_b), EntityMessage::Spawn(entity_c)],
    );
}

#[test]
fn engine_component_channels_do_not_block() {
    let mut engine: Engine<RemoteEntity> = Engine::new(HostType::Server);

    let entity = RemoteEntity::new(1);
    let comp_a = component_kind(1);
    let comp_b = component_kind(2);
    let comp_c = component_kind(3);

    engine.accept_message(1, EntityMessage::Spawn(entity), false);
    engine.accept_message(4, EntityMessage::InsertComponent(entity, comp_a), false);
    engine.accept_message(3, EntityMessage::InsertComponent(entity, comp_b), false);
    engine.accept_message(2, EntityMessage::InsertComponent(entity, comp_c), false);

    check(
        &mut engine,
        vec![
            EntityMessage::Spawn(entity),
            EntityMessage::InsertComponent(entity, comp_a),
            EntityMessage::InsertComponent(entity, comp_b),
            EntityMessage::InsertComponent(entity, comp_c),
        ],
    );
}

#[test]
fn wrap_ordering_simple() {
    let mut engine: Engine<RemoteEntity> = Engine::new(HostType::Server);

    let entity = RemoteEntity::new(1);
    let comp = component_kind(1);

    engine.accept_message(65_534, EntityMessage::Spawn(entity), false);
    engine.accept_message(0, EntityMessage::InsertComponent(entity, comp), false);

    check(&mut engine, vec![EntityMessage::Spawn(entity), EntityMessage::InsertComponent(entity, comp)]);
}

#[test]
fn guard_band_flush() {
    let mut engine: Engine<RemoteEntity> = Engine::new(HostType::Server);
    let entity = RemoteEntity::new(1);

    let near_flush_seq = engine.config.flush_threshold - 2;
    let wrap_beyond_seq = engine.config.flush_threshold + 1;

    engine.accept_message(near_flush_seq, EntityMessage::Spawn(entity), false);
    engine.accept_message(wrap_beyond_seq, EntityMessage::Spawn(entity), false);

    check(&mut engine, vec![EntityMessage::Spawn(entity)]);
}

#[test]
fn noop_safe() {
    let mut engine: Engine<RemoteEntity> = Engine::new(HostType::Server);

    engine.accept_message(10, EntityMessage::Noop, false);

    check(&mut engine, Vec::new());
}

#[test]
fn backlog_drains_on_prereq_arrival() {
    let mut engine: Engine<RemoteEntity> = Engine::new(HostType::Server);
    let entity = RemoteEntity::new(1);
    let comp = component_kind(1);

    engine.accept_message(5, EntityMessage::InsertComponent(entity, comp), false);
    engine.accept_message(6, EntityMessage::Spawn(entity), false);

    check(&mut engine, vec![EntityMessage::Spawn(entity), EntityMessage::InsertComponent(entity, comp)]);
}

#[test]
fn entity_despawn_before_spawn() {
    let mut engine: Engine<RemoteEntity> = Engine::new(HostType::Server);

    let entity = RemoteEntity::new(1);
    let comp = component_kind(1);

    engine.accept_message(3, EntityMessage::Despawn(entity), false);
    engine.accept_message(2, EntityMessage::InsertComponent(entity, comp), false);
    engine.accept_message(1, EntityMessage::Spawn(entity), false);

    check(
        &mut engine,
        vec![
            EntityMessage::Spawn(entity),
            EntityMessage::InsertComponent(entity, comp),
            EntityMessage::Despawn(entity),
        ],
    );
}

#[test]
fn component_remove_before_insert() {
    let mut engine: Engine<RemoteEntity> = Engine::new(HostType::Server);

    let entity = RemoteEntity::new(1);
    let comp = component_kind(1);

    engine.accept_message(1, EntityMessage::Spawn(entity), false);
    engine.accept_message(3, EntityMessage::RemoveComponent(entity, comp), false);
    engine.accept_message(2, EntityMessage::InsertComponent(entity, comp), false);

    check(
        &mut engine,
        vec![
            EntityMessage::Spawn(entity),
            EntityMessage::InsertComponent(entity, comp),
            EntityMessage::RemoveComponent(entity, comp),
        ],
    );
}

#[test]
fn empty_drain_safe() {
    let mut engine: Engine<RemoteEntity> = Engine::new(HostType::Server);

    let out1 = engine.receive_messages();
    assert!(out1.is_empty());

    let out2 = engine.receive_messages();
    assert!(out2.is_empty());
}

#[test]
fn entity_auth_basic() {
    let mut engine: Engine<RemoteEntity> = Engine::new(HostType::Server);

    let entity = RemoteEntity::new(1);

    engine.accept_message(1, EntityMessage::Spawn(entity), false);
    engine.accept_message(2, EntityMessage::Publish(entity), false);
    engine.accept_message(3, EntityMessage::EnableDelegation(entity), false);
    engine.accept_message(4, EntityMessage::SetAuthority(entity, EntityAuthStatus::Granted), false);
    engine.accept_message(5, EntityMessage::SetAuthority(entity, EntityAuthStatus::Available), false);
    engine.accept_message(6, EntityMessage::DisableDelegation(entity), false);
    engine.accept_message(7, EntityMessage::Unpublish(entity), false);
    engine.accept_message(8, EntityMessage::Despawn(entity), false);

    check(
        &mut engine,
        vec![
            EntityMessage::Spawn(entity),
            EntityMessage::Publish(entity),
            EntityMessage::EnableDelegation(entity),
            EntityMessage::SetAuthority(entity, EntityAuthStatus::Granted),
            EntityMessage::SetAuthority(entity, EntityAuthStatus::Available),
            EntityMessage::DisableDelegation(entity),
            EntityMessage::Unpublish(entity),
            EntityMessage::Despawn(entity),
        ],
    );
}

#[test]
fn entity_auth_scrambled() {
    let mut engine: Engine<RemoteEntity> = Engine::new(HostType::Server);

    let entity = RemoteEntity::new(1);

    engine.accept_message(8, EntityMessage::Despawn(entity), false);
    engine.accept_message(6, EntityMessage::DisableDelegation(entity), false);
    engine.accept_message(4, EntityMessage::SetAuthority(entity, EntityAuthStatus::Granted), false);
    engine.accept_message(2, EntityMessage::Publish(entity), false);
    engine.accept_message(1, EntityMessage::Spawn(entity), false);
    engine.accept_message(3, EntityMessage::EnableDelegation(entity), false);
    engine.accept_message(5, EntityMessage::SetAuthority(entity, EntityAuthStatus::Available), false);
    engine.accept_message(7, EntityMessage::Unpublish(entity), false);

    check(
        &mut engine,
        vec![EntityMessage::Spawn(entity), EntityMessage::Publish(entity), EntityMessage::Despawn(entity)],
    );
}

#[test]
fn remote_component_channel_is_inserted() {
    let channel = ComponentChannel::new();
    assert!(!channel.is_inserted());
}

#[test]
fn remote_entity_channel_get_state() {
    let channel = EntityChannelReceiver::new(HostType::Server);
    assert_eq!(channel.get_state(), EntityChannelState::Despawned);
}

#[test]
fn host_entity_channel_extract_outgoing_commands() {
    let mut channel = EntityChannelSender::new(HostType::Server);
    let commands = channel.extract_outgoing_commands();
    assert!(commands.is_empty());
}

#[test]
fn client_sees_spawned_entities_published() {
    let mut engine: Engine<RemoteEntity> = Engine::new(HostType::Client);
    let entity = RemoteEntity::new(4);
    engine.accept_message(1, EntityMessage::Spawn(entity), false);
    engine.accept_message(2, EntityMessage::Publish(entity), false);
    engine.accept_message(3, EntityMessage::Unpublish(entity), false);
    // A published entity cannot be published again, so the publish waits
    // behind the unpublish that is never legal before it.
    check(&mut engine, vec![EntityMessage::Spawn(entity)]);
}

#[test]
fn stale_message_after_spawn_is_dropped() {
    let mut engine: Engine<RemoteEntity> = Engine::new(HostType::Server);
    let entity = RemoteEntity::new(2);
    let comp = component_kind(9);
    engine.accept_message(10, EntityMessage::Spawn(entity), false);
    engine.accept_message(11, EntityMessage::Despawn(entity), false);
    engine.accept_message(9, EntityMessage::InsertComponent(entity, comp), false);
    check(&mut engine, vec![EntityMessage::Spawn(entity), EntityMessage::Despawn(entity)]);
    assert!(engine.host_has_remote_entity(&entity));
}

#[test]
fn tracked_entity_starts_delegated_with_components() {
    let mut engine: Engine<RemoteEntity> = Engine::new(HostType::Server);
    let entity = RemoteEntity::new(3);
    let comp = component_kind(5);
    engine.track_hosts_redundant_remote_entity(&entity, &vec![comp]);
    assert!(engine.host_has_remote_entity(&entity));
    engine.accept_message(1, EntityMessage::RemoveComponent(entity, comp), false);
    engine.accept_message(2, EntityMessage::DisableDelegation(entity), false);
    check(&mut engine, vec![EntityMessage::RemoveComponent(entity, comp), EntityMessage::DisableDelegation(entity)]);
    engine.untrack_hosts_redundant_remote_entity(&entity);
    assert!(!engine.host_has_remote_entity(&entity));
}

#[test]
fn component_channel_alternates() {
    let mut channel = ComponentChannel::new();
    let comp = component_kind(2);
    channel.accept_message(2, EntityMessage::RemoveComponent((), comp));
    assert!(!channel.is_inserted());
    channel.accept_message(1, EntityMessage::InsertComponent((), comp));
    assert!(!channel.is_inserted());
    let mut out = Vec::new();
    channel.drain_messages_into(&comp, &mut out);
    assert_eq!(out, vec![EntityMessage::InsertComponent((), comp), EntityMessage::RemoveComponent((), comp)]);
    // An insert no newer than the last insert that took effect is ignored.
    channel.accept_message(3, EntityMessage::InsertComponent((), comp));
    assert!(channel.is_inserted());
    channel.accept_message(3, EntityMessage::InsertComponent((), comp));
    let mut out = Vec::new();
    channel.drain_messages_into(&comp, &mut out);
    assert_eq!(out, vec![EntityMessage::InsertComponent((), comp)]);
}

#[test]
fn entity_channel_receiver_components() {
    let mut channel = EntityChannelReceiver::new(HostType::Server);
    let comp = component_kind(1);
    channel.accept_message(1, EntityMessage::Spawn(()));
    channel.accept_message(2, EntityMessage::InsertComponent((), comp));
    assert_eq!(channel.get_state(), EntityChannelState::Spawned);
    assert!(channel.has_component_kind(&comp));
    let mut out: Vec<EntityMessage<u64>> = Vec::new();
    channel.drain_messages_into(7u64, &mut out);
    assert_eq!(out, vec![EntityMessage::Spawn(7), EntityMessage::InsertComponent(7, comp)]);
}

#[test]
fn auth_channel_receiver_waits_for_spawn() {
    let mut channel = AuthChannelReceiver::new();
    channel.accept_message(false, 1, EntityMessage::Publish(()));
    let mut out = Vec::new();
    channel.drain_messages_into(&mut out);
    assert!(out.is_empty());
    channel.process_messages(true);
    channel.drain_messages_into(&mut out);
    assert_eq!(out, vec![EntityMessage::Publish(())]);
}

#[test]
fn sender_engine_checks_lifecycle() {
    let mut engine = SenderEngine::new(HostType::Client);
    let entity = GlobalEntity(1);
    let comp = component_kind(3);
    engine.accept_command(EntityCommand::Spawn(entity));
    engine.accept_command(EntityCommand::InsertComponent(entity, comp));
    engine.accept_command(EntityCommand::Publish(entity));
    engine.accept_command(EntityCommand::EnableDelegation(entity));
    engine.accept_command(EntityCommand::RemoveComponent(entity, comp));
    assert!(engine.has_entity(&entity));
    assert_eq!(engine.component_kinds(&entity), Some(Vec::new()));
    engine.accept_command(EntityCommand::Despawn(entity));
    assert!(!engine.has_entity(&entity));
    let out = engine.take_outgoing_commands();
    assert_eq!(
        out,
        vec![
            EntityCommand::Spawn(entity),
            EntityCommand::InsertComponent(entity, comp),
            EntityCommand::Publish(entity),
            EntityCommand::EnableDelegation(entity),
            EntityCommand::RemoveComponent(entity, comp),
            EntityCommand::Despawn(entity),
        ]
    );
    assert!(engine.take_outgoing_commands().is_empty());
}

#[test]
fn auth_senders_follow_the_lifecycle() {
    let mut sender = AuthChannelSender::new();
    sender.accept_message(EntityCommand::Publish(GlobalEntity(1)));
    sender.accept_message(EntityCommand::EnableDelegation(GlobalEntity(1)));
    sender.accept_message(EntityCommand::DisableDelegation(GlobalEntity(1)));
    let mut out = Vec::new();
    sender.drain_messages_into(&mut out);
    assert_eq!(out.len(), 3);
    let mut channel = AuthChannel::new(HostType::Server);
    channel.validate_command(EntityCommand::Unpublish(GlobalEntity(2)));
    let mut out = Vec::new();
    channel.sender_drain_messages_into(&mut out);
    assert_eq!(out, vec![EntityCommand::Unpublish(GlobalEntity(2))]);
    let _ = EntityAuthChannelState::Delegated;
}

#[test]
fn config_and_events() {
    let config = EngineConfig::default();
    assert_eq!(config.max_in_flight, MAX_IN_FLIGHT);
    assert_eq!(config.flush_threshold, FLUSH_THRESHOLD);
    assert_eq!(MAX_IN_FLIGHT as u32 + FLUSH_THRESHOLD as u32, 65_536);
    let event = Event::new(3, vec![PathSeg::Entity(1), PathSeg::Comp(2)], MsgKind::Insert, vec![9]);
    assert_eq!(event.seq, 3);
    assert_eq!(event.kind, MsgKind::Insert);
    assert_eq!(event.path, vec![PathSeg::Entity(1), PathSeg::Comp(2)]);
}

#[test]
fn engine_hands_out_each_message_once() {
    let mut engine: Engine<RemoteEntity> = Engine::new(HostType::Client);
    let entity = RemoteEntity::new(7);
    let comp = component_kind(3);

    engine.accept_message(3, EntityMessage::RemoveComponent(entity, comp), false);
    engine.accept_message(2, EntityMessage::InsertComponent(entity, comp), false);
    assert!(engine.receive_messages().is_empty());

    engine.accept_message(1, EntityMessage::Spawn(entity), false);
    check(
        &mut engine,
        vec![
            EntityMessage::Spawn(entity),
            EntityMessage::InsertComponent(entity, comp),
            EntityMessage::RemoveComponent(entity, comp),
        ],
    );

    engine.accept_message(4, EntityMessage::InsertComponent(entity, comp), false);
    check(&mut engine, vec![EntityMessage::InsertComponent(entity, comp)]);
    check(&mut engine, vec![]);
}
