use pasture::components::{Player, Position};
use pasture::store::Store;

fn store_with_two() -> (Store, u64, u64) {
    let mut store = Store::new();
    let a = store.request_spawn(Some(Position { x: 0, y: 0 }), Some(Player { speed: 1 }), None);
    let b = store.request_spawn(Some(Position { x: 1, y: 1 }), None, None);
    store.commit();
    (store, a, b)
}

#[test]
fn despawn_removes_exactly_the_requested_entity() {
    let (mut store, a, b) = store_with_two();
    store.request_despawn(b);
    store.commit();
    assert_eq!(store.entities.len(), 1);
    assert_eq!(store.entities[0].id, a);
}

#[test]
fn despawning_twice_is_a_noop_the_second_time() {
    let (mut store, a, b) = store_with_two();
    store.request_despawn(b);
    store.request_despawn(b);
    store.commit();
    assert_eq!(store.entities.len(), 1);
    assert_eq!(store.entities[0].id, a);
}

#[test]
fn despawning_an_unknown_id_is_a_noop() {
    let (mut store, _, _) = store_with_two();
    store.request_despawn(999);
    store.commit();
    assert_eq!(store.entities.len(), 2);
}

#[test]
fn despawning_an_already_removed_id_is_a_noop() {
    let (mut store, _, b) = store_with_two();
    store.request_despawn(b);
    store.commit();
    // The entity is gone; asking again on a later frame must be harmless.
    store.request_despawn(b);
    store.commit();
    assert_eq!(store.entities.len(), 1);
}

#[test]
fn despawn_is_deferred_until_commit() {
    let (mut store, _, b) = store_with_two();
    store.request_despawn(b);
    assert_eq!(store.entities.len(), 2);
    store.commit();
    assert_eq!(store.entities.len(), 1);
}
