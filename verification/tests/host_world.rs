use naia_shared::entity_command::EntityCommand;
use naia_shared::entity_event::EntityEvent;
use naia_shared::entity_message::{EntityMessage, EntityMessageType};
use naia_shared::errors::PacketWriteError;
use naia_shared::host_world::{
    command_message, commands_that_fit, remaining_update_kinds, write_update_kinds, EntityCommandManager, HostWorldManager,
    HostWorldWriter,
};
use std::collections::VecDeque;
use naia_socket_shared::Instant;
use naia_shared::local_entity_map::LocalEntityMap;
use naia_shared::types::{ComponentKind, GlobalEntity, HostEntity, HostType, OwnedLocalEntity, RemoteEntity};

#[test]
fn insert_without_entity_or_component_goes_out_as_noop() {
    let g = GlobalEntity(4);
    let k = ComponentKind { id: 2 };
    let local = OwnedLocalEntity::Host(4);
    let insert = EntityCommand::InsertComponent(g, k);
    assert_eq!(command_message(&insert, false, true, local), (EntityMessageType::Noop, EntityMessage::Noop));
    assert_eq!(command_message(&insert, true, false, local), (EntityMessageType::Noop, EntityMessage::Noop));
    assert_eq!(
        command_message(&insert, true, true, local),
        (EntityMessageType::InsertComponent, EntityMessage::InsertComponent(g, k))
    );
    let remove = EntityCommand::RemoveComponent(g, k);
    assert_eq!(command_message(&remove, false, true, local), (EntityMessageType::Noop, EntityMessage::Noop));
    assert_eq!(
        command_message(&EntityCommand::Spawn(g), false, false, local),
        (EntityMessageType::SpawnEntity, EntityMessage::Spawn(g))
    );
    assert_eq!(
        command_message(&EntityCommand::ReleaseAuthority(g), true, true, OwnedLocalEntity::Remote(7)),
        (EntityMessageType::ReleaseAuthority, EntityMessage::ReleaseAuthority(OwnedLocalEntity::Remote(7)))
    );
}

#[test]
fn commands_fit_while_the_packet_has_room() {
    assert_eq!(commands_that_fit(&vec![10, 20, 30], 35, false), Ok(2));
    assert_eq!(commands_that_fit(&vec![10, 20, 30], 60, false), Ok(3));
    assert_eq!(commands_that_fit(&vec![], 0, false), Ok(0));
    assert_eq!(commands_that_fit(&vec![40], 35, true), Ok(0));
    assert_eq!(
        commands_that_fit(&vec![40, 1], 35, false),
        Err(PacketWriteError::BlockingOverflow { bits_needed: 40, bits_free: 35 })
    );
}

#[test]
fn remaining_update_kinds_drop_the_written_ones() {
    let a = ComponentKind { id: 1 };
    let b = ComponentKind { id: 2 };
    let c = ComponentKind { id: 3 };
    assert_eq!(remaining_update_kinds(&vec![a, b, c], &vec![b]), vec![a, c]);
    assert_eq!(remaining_update_kinds(&vec![a], &vec![a]), Vec::<ComponentKind>::new());
}

#[test]
fn host_world_records_commands_per_packet() {
    let mut manager = EntityCommandManager::new();
    let now = Instant::now();
    manager.insert_sent_command_packet(3, &now);
    manager.insert_sent_command_packet(3, &now);
    manager.record_command_written(&3, &7, EntityMessage::Spawn(GlobalEntity(1)));
    manager.record_command_written(&3, &8, EntityMessage::Noop);
    assert_eq!(
        manager.notify_packet_delivered(3),
        Some(vec![(7, EntityMessage::Spawn(GlobalEntity(1))), (8, EntityMessage::Noop)])
    );
    assert_eq!(manager.notify_packet_delivered(3), None);
}

#[test]
fn host_world_turns_peer_answers_into_events() {
    let mut map = LocalEntityMap::new(HostType::Server);
    map.insert_with_host_entity(GlobalEntity(5), HostEntity(2));
    let mut manager = HostWorldManager::new();
    manager.process_incoming_messages(
        &map,
        vec![
            EntityMessage::Noop,
            EntityMessage::EnableDelegationResponse(HostEntity(2)),
            EntityMessage::RequestAuthority(HostEntity(2), RemoteEntity(6)),
        ],
    );
    let events = manager.take_incoming_events();
    assert_eq!(events.len(), 2);
    assert_eq!(events[0], EntityEvent::EnableDelegationEntityResponse(GlobalEntity(5)));
    assert!(matches!(events[1], EntityEvent::EntityRequestAuthority(GlobalEntity(5), _)));
}

#[test]
fn measuring_a_command_leaves_the_queue_and_records_nothing() {
    let mut manager = EntityCommandManager::new();
    let g = GlobalEntity(3);
    let k = ComponentKind { id: 1 };
    let mut queue: VecDeque<(u16, EntityCommand)> = VecDeque::new();
    queue.push_back((9, EntityCommand::InsertComponent(g, k)));
    let mut last = None;
    let written = HostWorldWriter::write_command(&mut manager, &5, &queue, &mut last, false, true, false, OwnedLocalEntity::Host(3));
    assert_eq!(written, (EntityMessageType::Noop, EntityMessage::Noop));
    assert_eq!(last, Some(9));
    assert_eq!(queue.len(), 1);
    manager.insert_sent_command_packet(5, &Instant::now());
    let written = HostWorldWriter::write_command(&mut manager, &5, &queue, &mut last, true, true, true, OwnedLocalEntity::Host(3));
    assert_eq!(written, (EntityMessageType::InsertComponent, EntityMessage::InsertComponent(g, k)));
    assert_eq!(queue.len(), 1);
}

#[test]
fn writing_commands_pops_what_fits_and_sets_has_written() {
    let mut manager = EntityCommandManager::new();
    let a = GlobalEntity(1);
    let b = GlobalEntity(2);
    let mut queue: VecDeque<(u16, EntityCommand)> = VecDeque::new();
    queue.push_back((4, EntityCommand::Spawn(a)));
    queue.push_back((5, EntityCommand::Despawn(b)));
    queue.push_back((6, EntityCommand::Spawn(b)));
    let mut has_written = false;
    let locals = vec![OwnedLocalEntity::Host(1); 3];
    let written = HostWorldWriter::write_commands(&mut manager, &Instant::now(), &7, &mut queue, &vec![10, 10, 10], 25, &mut has_written, &vec![true; 3], &vec![true; 3], &locals)
        .unwrap();
    assert_eq!(
        written,
        vec![
            (4, EntityMessageType::SpawnEntity, EntityMessage::Spawn(a)),
            (5, EntityMessageType::DespawnEntity, EntityMessage::Despawn(b)),
        ]
    );
    assert!(has_written);
    assert_eq!(queue.len(), 1);
    assert_eq!(queue[0], (6, EntityCommand::Spawn(b)));
}

#[test]
fn a_first_command_too_large_for_an_empty_packet_is_an_error_and_changes_nothing() {
    let mut manager = EntityCommandManager::new();
    let mut queue: VecDeque<(u16, EntityCommand)> = VecDeque::new();
    queue.push_back((4, EntityCommand::Spawn(GlobalEntity(1))));
    let mut has_written = false;
    let r = HostWorldWriter::write_commands(
        &mut manager,
        &Instant::now(),
        &7,
        &mut queue,
        &vec![50],
        25,
        &mut has_written,
        &vec![true],
        &vec![true],
        &vec![OwnedLocalEntity::Host(1)],
    );
    assert_eq!(r, Err(PacketWriteError::BlockingOverflow { bits_needed: 50, bits_free: 25 }));
    assert!(!has_written);
    assert_eq!(queue.len(), 1);
    let mut has_written = true;
    let r = HostWorldWriter::write_commands(
        &mut manager,
        &Instant::now(),
        &7,
        &mut queue,
        &vec![50],
        25,
        &mut has_written,
        &vec![true],
        &vec![true],
        &vec![OwnedLocalEntity::Host(1)],
    );
    assert_eq!(r, Ok(vec![]));
    assert_eq!(queue.len(), 1);
}

#[test]
fn update_kinds_that_fit_are_written_and_the_rest_stay_pending() {
    let k1 = ComponentKind { id: 1 };
    let k2 = ComponentKind { id: 2 };
    let k3 = ComponentKind { id: 3 };
    let mut has_written = false;
    let r = write_update_kinds(&vec![k1, k2, k3], &vec![8, 8, 8], 20, &mut has_written);
    assert_eq!(r, Ok((vec![k1, k2], vec![k3])));
    assert!(has_written);
    let mut has_written = false;
    let r = write_update_kinds(&vec![k1], &vec![30], 20, &mut has_written);
    assert_eq!(r, Err(PacketWriteError::BlockingOverflow { bits_needed: 30, bits_free: 20 }));
    assert!(!has_written);
}

#[test]
fn written_commands_are_recorded_for_their_packet() {
    let mut manager = EntityCommandManager::new();
    let a = GlobalEntity(1);
    let mut queue: VecDeque<(u16, EntityCommand)> = VecDeque::new();
    queue.push_back((4, EntityCommand::Spawn(a)));
    queue.push_back((5, EntityCommand::Publish(a)));
    let mut has_written = false;
    let _ = HostWorldWriter::write_commands(
        &mut manager,
        &Instant::now(),
        &9,
        &mut queue,
        &vec![5, 5],
        100,
        &mut has_written,
        &vec![true; 2],
        &vec![true; 2],
        &vec![OwnedLocalEntity::Host(1); 2],
    );
    assert!(queue.is_empty());
    assert_eq!(
        manager.notify_packet_delivered(9),
        Some(vec![(4, EntityMessage::Spawn(a)), (5, EntityMessage::Publish(a))])
    );
}

#[test]
fn packet_records_older_than_a_minute_are_dropped_from_the_front() {
    let mut manager = EntityCommandManager::new();
    let now = Instant::now();
    manager.insert_sent_command_packet(1, &now);
    manager.insert_sent_command_packet(2, &now);
    manager.insert_sent_command_packet(3, &now);
    manager.drop_expired_command_packets(&vec![60_000_000_001, 60_000_000_000, 70_000_000_000]);
    assert_eq!(manager.notify_packet_delivered(1), None);
    assert_eq!(manager.notify_packet_delivered(2), Some(vec![]));
    assert_eq!(manager.notify_packet_delivered(3), Some(vec![]));
}

#[test]
fn fresh_packet_records_are_kept() {
    let mut manager = EntityCommandManager::new();
    let now = Instant::now();
    manager.insert_sent_command_packet(1, &now);
    manager.handle_dropped_command_packets(&now);
    assert_eq!(manager.notify_packet_delivered(1), Some(vec![]));
}
