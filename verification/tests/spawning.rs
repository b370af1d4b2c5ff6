use pasture::components::{Money, Player, Position};
use pasture::rules::spawn_cow;
use pasture::store::{QueryError, Store};

fn store_with_player_at(x: i64, y: i64) -> Store {
    let mut store = Store::new();
    store.request_spawn(Some(Position { x, y }), Some(Player { speed: 100 }), None);
    store.commit();
    store
}

#[test]
fn spawn_debits_cost_and_requests_one_cow() {
    let mut store = store_with_player_at(3, 4);
    let mut money = Money(100);
    let r = spawn_cow(&mut store, &mut money, true);
    assert!(r.is_ok());
    assert_eq!(money.0, 90);
    assert_eq!(store.pending_spawn.len(), 1);
    let cow = store.pending_spawn[0];
    assert_eq!(cow.pos, Some(Position { x: 3, y: 4 }));
    assert!(cow.player.is_none());
    let lifetime = cow.cow.unwrap().lifetime;
    assert_eq!(lifetime.elapsed, 0);
    assert_eq!(lifetime.duration, 5);
    // Not yet live: the spawn is deferred until the commit.
    assert_eq!(store.entities.len(), 1);
    store.commit();
    assert_eq!(store.entities.len(), 2);
}

#[test]
fn spawn_at_exact_cost_succeeds() {
    let mut store = store_with_player_at(0, 0);
    let mut money = Money(10);
    let r = spawn_cow(&mut store, &mut money, true);
    assert!(r.is_ok());
    assert_eq!(money.0, 0);
    assert_eq!(store.pending_spawn.len(), 1);
}

#[test]
fn spawn_below_cost_changes_nothing_however_often() {
    let mut store = store_with_player_at(0, 0);
    let mut money = Money(9);
    for _ in 0..4 {
        let r = spawn_cow(&mut store, &mut money, true);
        assert!(r.is_ok());
        assert_eq!(money.0, 9);
        assert_eq!(store.pending_spawn.len(), 0);
    }
    store.commit();
    assert_eq!(store.entities.len(), 1);
}

#[test]
fn spawn_without_edge_trigger_is_a_noop() {
    let mut store = store_with_player_at(0, 0);
    let mut money = Money(100);
    let r = spawn_cow(&mut store, &mut money, false);
    assert!(r.is_ok());
    assert_eq!(money.0, 100);
    assert_eq!(store.pending_spawn.len(), 0);
}

#[test]
fn spawn_with_no_player_fails_loudly() {
    let mut store = Store::new();
    let mut money = Money(100);
    let r = spawn_cow(&mut store, &mut money, true);
    assert_eq!(r, Err(QueryError::PlayerCountNotOne(0)));
    assert_eq!(money.0, 100);
    assert_eq!(store.pending_spawn.len(), 0);
}

#[test]
fn spawn_with_two_players_fails_loudly() {
    let mut store = store_with_player_at(0, 0);
    store.request_spawn(Some(Position { x: 1, y: 1 }), Some(Player { speed: 1 }), None);
    store.commit();
    let mut money = Money(100);
    let r = spawn_cow(&mut store, &mut money, true);
    assert_eq!(r, Err(QueryError::PlayerCountNotOne(2)));
    assert_eq!(money.0, 100);
}
