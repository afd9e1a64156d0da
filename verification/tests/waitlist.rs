use naia_shared::entity_waitlist::{EntityWaitlist, WaitlistStore};
use naia_shared::errors::RemoteWorldError;
use naia_shared::types::RemoteEntity;
use naia_socket_shared::Instant;

#[test]
fn waitlist_item_waits_for_all_its_entities() {
    let mut waitlist = EntityWaitlist::new();
    let mut store: WaitlistStore<&str> = WaitlistStore::new();
    let now = Instant::now();
    waitlist.queue(&vec![RemoteEntity(1), RemoteEntity(2)], &mut store, "a");
    assert_eq!(waitlist.collect_ready_items(&now, &mut store), None);
    waitlist.add_entity(&RemoteEntity(1));
    assert_eq!(waitlist.collect_ready_items(&now, &mut store), None);
    waitlist.add_entity(&RemoteEntity(2));
    assert_eq!(waitlist.collect_ready_items(&now, &mut store), Some(vec!["a"]));
    assert_eq!(waitlist.collect_ready_items(&now, &mut store), None);
}

#[test]
fn waitlist_item_is_ready_at_once_when_its_entities_are_in_scope() {
    let mut waitlist = EntityWaitlist::new();
    let mut store: WaitlistStore<u32> = WaitlistStore::new();
    let now = Instant::now();
    waitlist.add_entity(&RemoteEntity(3));
    let handle = waitlist.queue(&vec![RemoteEntity(3)], &mut store, 30);
    assert!(matches!(
        waitlist.try_remove_waiting_handle(&handle),
        Err(RemoteWorldError::WaitlistHandleMissing { handle: h }) if h == handle
    ));
    let empty = waitlist.queue(&vec![], &mut store, 31);
    assert_ne!(handle, empty);
    let mut items = waitlist.collect_ready_items(&now, &mut store).unwrap();
    items.sort();
    assert_eq!(items, vec![30, 31]);
}

#[test]
fn waitlist_entity_out_of_scope_holds_items_back() {
    let mut waitlist = EntityWaitlist::new();
    let mut store: WaitlistStore<u32> = WaitlistStore::new();
    let now = Instant::now();
    waitlist.add_entity(&RemoteEntity(4));
    waitlist.remove_entity(&RemoteEntity(4));
    waitlist.queue(&vec![RemoteEntity(4)], &mut store, 40);
    assert_eq!(waitlist.collect_ready_items(&now, &mut store), None);
    waitlist.add_entity(&RemoteEntity(4));
    assert_eq!(waitlist.collect_ready_items(&now, &mut store), Some(vec![40]));
}

#[test]
fn waitlist_removed_handle_never_becomes_ready() {
    let mut waitlist = EntityWaitlist::new();
    let mut store: WaitlistStore<u32> = WaitlistStore::new();
    let now = Instant::now();
    let handle = waitlist.queue(&vec![RemoteEntity(5)], &mut store, 50);
    assert!(waitlist.try_remove_waiting_handle(&handle).is_ok());
    waitlist.add_entity(&RemoteEntity(5));
    assert_eq!(waitlist.collect_ready_items(&now, &mut store), None);
}

#[test]
fn waitlist_expired_items_are_dropped() {
    let mut waitlist = EntityWaitlist::new();
    let mut store: WaitlistStore<u32> = WaitlistStore::new();
    let now = Instant::now();
    waitlist.queue(&vec![RemoteEntity(6)], &mut store, 60);
    waitlist.queue(&vec![RemoteEntity(7)], &mut store, 70);
    let mut later = now.clone();
    later.add_millis(59_000);
    assert_eq!(waitlist.collect_ready_items(&later, &mut store), None);
    waitlist.add_entity(&RemoteEntity(7));
    let mut much_later = now.clone();
    much_later.add_millis(61_000);
    assert_eq!(waitlist.collect_ready_items(&much_later, &mut store), Some(vec![70]));
    waitlist.add_entity(&RemoteEntity(6));
    assert_eq!(waitlist.collect_ready_items(&much_later, &mut store), None);
}

#[test]
fn waitlist_handle_expires_once_it_waited_the_time_to_live() {
    let mut waitlist = EntityWaitlist::new();
    let mut store: WaitlistStore<u32> = WaitlistStore::new();
    let first = waitlist.queue(&vec![RemoteEntity(9)], &mut store, 90);
    let second = waitlist.queue(&vec![RemoteEntity(9)], &mut store, 91);
    assert!(waitlist.try_expire_waited_handles(&vec![59_999, 60_000]).is_ok());
    assert!(waitlist.try_expire_waited_handles(&vec![60_000, 59_999]).is_ok());
    assert!(waitlist.try_remove_waiting_handle(&first).is_err());
    assert!(waitlist.try_remove_waiting_handle(&second).is_ok());
}
