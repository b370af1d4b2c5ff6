use pasture::components::{Cow, InputSnapshot, Lifetime, Player, Position};
use pasture::rules::character_movement;
use pasture::store::Store;

fn store_with_player(x: i64, y: i64, speed: u64) -> Store {
    let mut store = Store::new();
    store.request_spawn(Some(Position { x, y }), Some(Player { speed }), None);
    store.commit();
    store
}

fn held(up: bool, down: bool, left: bool, right: bool) -> InputSnapshot {
    InputSnapshot { up, down, left, right, spawn_just_pressed: false }
}

#[test]
fn up_moves_y_by_speed_times_time() {
    let mut store = store_with_player(0, 0, 3);
    character_movement(&mut store, held(true, false, false, false), 7);
    assert_eq!(store.entities[0].pos, Some(Position { x: 0, y: 21 }));
}

#[test]
fn down_and_left_subtract() {
    let mut store = store_with_player(10, 10, 2);
    character_movement(&mut store, held(false, true, true, false), 4);
    assert_eq!(store.entities[0].pos, Some(Position { x: 2, y: 2 }));
}

#[test]
fn diagonal_is_not_normalized() {
    let mut store = store_with_player(0, 0, 3);
    character_movement(&mut store, held(true, false, false, true), 7);
    assert_eq!(store.entities[0].pos, Some(Position { x: 21, y: 21 }));
}

#[test]
fn opposed_keys_cancel() {
    let mut store = store_with_player(5, -5, 100);
    character_movement(&mut store, held(true, true, true, true), 9);
    assert_eq!(store.entities[0].pos, Some(Position { x: 5, y: -5 }));
}

#[test]
fn no_keys_held_is_a_noop() {
    let mut store = store_with_player(5, 6, 100);
    character_movement(&mut store, held(false, false, false, false), 9);
    assert_eq!(store.entities[0].pos, Some(Position { x: 5, y: 6 }));
}

#[test]
fn non_player_entities_do_not_move() {
    let mut store = Store::new();
    store.request_spawn(
        Some(Position { x: 1, y: 2 }),
        None,
        Some(Cow { lifetime: Lifetime::new(5) }),
    );
    store.commit();
    character_movement(&mut store, held(true, false, false, true), 10);
    assert_eq!(store.entities[0].pos, Some(Position { x: 1, y: 2 }));
}

#[test]
fn empty_store_movement_is_a_noop() {
    let mut store = Store::new();
    character_movement(&mut store, held(true, false, false, false), 10);
    assert_eq!(store.entities.len(), 0);
}
