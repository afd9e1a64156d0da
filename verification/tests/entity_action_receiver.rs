use naia_shared::entity_action_receiver::{EntityAction, EntityActionReceiver, EntityChannel};
use naia_shared::types::ComponentKind;

fn receive(receiver: &mut EntityActionReceiver<u64>, actions: Vec<(u16, EntityAction<u64>)>) -> Vec<EntityAction<u64>> {
    for (index, action) in actions {
        receiver.buffer_action(index, action);
    }
    receiver.receive_actions()
}

#[test]
fn spawn_then_insert_in_order() {
    let mut receiver = EntityActionReceiver::<u64>::new();
    let kind = ComponentKind::new(1);
    let out = receive(
        &mut receiver,
        vec![(1, EntityAction::SpawnEntity(7, vec![kind])), (2, EntityAction::InsertComponent(7, kind))],
    );
    assert_eq!(out, vec![EntityAction::SpawnEntity(7, vec![kind]), EntityAction::InsertComponent(7, kind)]);
}

#[test]
fn despawn_waits_for_its_spawn() {
    let mut receiver = EntityActionReceiver::<u64>::new();
    let out = receive(&mut receiver, vec![(2, EntityAction::DespawnEntity(7))]);
    assert!(out.is_empty());
    let out = receive(&mut receiver, vec![(1, EntityAction::SpawnEntity(7, Vec::new()))]);
    assert_eq!(out, vec![EntityAction::SpawnEntity(7, Vec::new()), EntityAction::DespawnEntity(7)]);
}

#[test]
fn stale_spawn_is_dropped() {
    let mut receiver = EntityActionReceiver::<u64>::new();
    let out = receive(
        &mut receiver,
        vec![(5, EntityAction::SpawnEntity(1, Vec::new())), (6, EntityAction::DespawnEntity(1))],
    );
    assert_eq!(out.len(), 2);
    let out = receive(&mut receiver, vec![(3, EntityAction::SpawnEntity(1, Vec::new()))]);
    assert!(out.is_empty());
}

#[test]
fn remove_waits_for_its_insert() {
    let mut receiver = EntityActionReceiver::<u64>::new();
    let kind = ComponentKind::new(4);
    let out = receive(
        &mut receiver,
        vec![
            (1, EntityAction::SpawnEntity(2, Vec::new())),
            (3, EntityAction::RemoveComponent(2, kind)),
            (2, EntityAction::InsertComponent(2, kind)),
        ],
    );
    assert_eq!(
        out,
        vec![
            EntityAction::SpawnEntity(2, Vec::new()),
            EntityAction::InsertComponent(2, kind),
            EntityAction::RemoveComponent(2, kind),
        ]
    );
}

#[test]
fn entities_do_not_block_each_other() {
    let mut receiver = EntityActionReceiver::<u64>::new();
    let out = receive(
        &mut receiver,
        vec![(2, EntityAction::DespawnEntity(1)), (3, EntityAction::SpawnEntity(2, Vec::new()))],
    );
    assert_eq!(out, vec![EntityAction::SpawnEntity(2, Vec::new())]);
}

#[test]
fn tracked_entity_starts_spawned() {
    let mut receiver = EntityActionReceiver::<u64>::new();
    let kind = ComponentKind::new(3);
    receiver.track_hosts_redundant_remote_entity(&9, &vec![kind]);
    let out = receive(&mut receiver, vec![(1, EntityAction::SpawnEntity(9, Vec::new()))]);
    assert!(out.is_empty());
    let out = receive(&mut receiver, vec![(2, EntityAction::DespawnEntity(9))]);
    assert_eq!(out, vec![EntityAction::DespawnEntity(9)]);
    receiver.untrack_hosts_redundant_remote_entity(&9);
}

#[test]
fn noop_is_ignored() {
    let mut receiver = EntityActionReceiver::<u64>::new();
    let out = receive(&mut receiver, vec![(1, EntityAction::Noop)]);
    assert!(out.is_empty());
    assert_eq!(EntityAction::<u64>::Noop.entity(), None);
    assert_eq!(EntityAction::DespawnEntity(3u64).entity(), Some(3));
}

#[test]
fn entity_channel_handles_actions_directly() {
    let kind = ComponentKind::new(6);
    let mut channel = EntityChannel::new(11u64);
    let mut out = Vec::new();
    channel.receive_action(1, EntityAction::SpawnEntity(11, Vec::new()), &mut out);
    channel.receive_insert_component_action(2, kind, &mut out);
    channel.receive_insert_component_action(3, kind, &mut out);
    channel.receive_remove_component_action(4, kind, &mut out);
    assert_eq!(
        out,
        vec![
            EntityAction::SpawnEntity(11, Vec::new()),
            EntityAction::InsertComponent(11, kind),
            EntityAction::RemoveComponent(11, kind),
        ]
    );
}
