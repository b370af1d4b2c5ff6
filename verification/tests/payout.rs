use pasture::components::{Cow, Lifetime, Money, Position};
use pasture::rules::cow_lifetime;
use pasture::store::Store;

fn store_with_cow(duration: u64) -> (Store, u64) {
    let mut store = Store::new();
    let id = store.request_spawn(
        Some(Position { x: 0, y: 0 }),
        None,
        Some(Cow { lifetime: Lifetime::new(duration) }),
    );
    store.commit();
    (store, id)
}

#[test]
fn cow_pays_exactly_once_when_time_is_up() {
    let (mut store, id) = store_with_cow(5);
    let mut money = Money(0);
    cow_lifetime(&mut store, &mut money, 5);
    assert_eq!(money.0, 15);
    assert_eq!(store.pending_despawn, vec![id]);
    // The cow is only gone after the commit.
    assert_eq!(store.entities.len(), 1);
    store.commit();
    assert_eq!(store.entities.len(), 0);
}

#[test]
fn cow_pays_after_accumulated_ticks() {
    let (mut store, id) = store_with_cow(5);
    let mut money = Money(7);
    cow_lifetime(&mut store, &mut money, 2);
    assert_eq!(money.0, 7);
    assert_eq!(store.entities[0].cow.unwrap().lifetime.elapsed, 2);
    assert_eq!(store.pending_despawn.len(), 0);
    cow_lifetime(&mut store, &mut money, 3);
    assert_eq!(money.0, 22);
    assert_eq!(store.pending_despawn, vec![id]);
}

#[test]
fn finished_cow_is_never_credited_again() {
    let (mut store, _) = store_with_cow(5);
    let mut money = Money(0);
    cow_lifetime(&mut store, &mut money, 9);
    assert_eq!(money.0, 15);
    // Defensively tick the finished cow again before any commit: no credit,
    // no second despawn request, countdown unchanged.
    cow_lifetime(&mut store, &mut money, 9);
    assert_eq!(money.0, 15);
    assert_eq!(store.pending_despawn.len(), 1);
    assert_eq!(store.entities[0].cow.unwrap().lifetime.elapsed, 5);
}

#[test]
fn unfinished_cow_credits_nothing() {
    let (mut store, _) = store_with_cow(5);
    let mut money = Money(3);
    cow_lifetime(&mut store, &mut money, 4);
    assert_eq!(money.0, 3);
    assert_eq!(store.pending_despawn.len(), 0);
}

#[test]
fn each_finished_cow_pays_fifteen() {
    let mut store = Store::new();
    store.request_spawn(None, None, Some(Cow { lifetime: Lifetime::new(5) }));
    store.request_spawn(None, None, Some(Cow { lifetime: Lifetime::new(3) }));
    store.commit();
    let mut money = Money(0);
    cow_lifetime(&mut store, &mut money, 5);
    assert_eq!(money.0, 30);
    assert_eq!(store.pending_despawn.len(), 2);
}
