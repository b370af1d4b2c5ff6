//! The three per-frame rules. The movement rule integrates held direction
//! keys into player positions. The spawn rule buys a timed cow entity at the
//! player's position on the spawn key's edge trigger, when the balance
//! allows. The lifetime rule advances every cow's countdown and, on the tick
//! a countdown runs down, pays out once and requests the cow's despawn.

use vstd::prelude::*;

use crate::components::{Cow, InputSnapshot, Lifetime, Money, Position};
use crate::store::{
    Entity, QueryError, Store, StoreModel, entity_wf, is_player_entity, live_after, player_count,
    the_player,
};
use crate::{COW_DURATION, COW_REWARD, SPAWN_COST};

verus! {

/// Signed distance one frame adds to the x coordinate: `speed * t` to the
/// right for a held "right", the same to the left for a held "left". Opposed
/// keys cancel; nothing is normalized.
pub open spec fn x_delta(speed: u64, inp: InputSnapshot, t: u64) -> int {
    (if inp.right {
        speed * t
    } else {
        0
    }) - (if inp.left {
        speed * t
    } else {
        0
    })
}

/// Signed distance one frame adds to the y coordinate: `speed * t` up for a
/// held "up", the same down for a held "down". Opposed keys cancel; nothing
/// is normalized.
pub open spec fn y_delta(speed: u64, inp: InputSnapshot, t: u64) -> int {
    (if inp.up {
        speed * t
    } else {
        0
    }) - (if inp.down {
        speed * t
    } else {
        0
    })
}

/// Where a position ends up after one frame of held keys.
pub open spec fn moved_position(p: Position, speed: u64, inp: InputSnapshot, t: u64) -> Position {
    Position {
        x: (p.x + x_delta(speed, inp, t)) as i64,
        y: (p.y + y_delta(speed, inp, t)) as i64,
    }
}

/// The machine-word bound the movement rule needs: for a player entity, the
/// frame's distance and the coordinates it leads to fit in the word.
pub open spec fn movement_fits(e: Entity, inp: InputSnapshot, t: u64) -> bool {
    is_player_entity(e) ==> {
        let speed = e.player->Some_0.speed;
        let p = e.pos->Some_0;
        &&& speed * t <= i64::MAX
        &&& i64::MIN <= p.x + x_delta(speed, inp, t) <= i64::MAX
        &&& i64::MIN <= p.y + y_delta(speed, inp, t) <= i64::MAX
    }
}

/// What the movement rule does to one entity: a player entity's position is
/// moved by the frame's deltas; every other entity is untouched.
pub open spec fn spec_move_entity(e: Entity, inp: InputSnapshot, t: u64) -> Entity {
    if is_player_entity(e) {
        Entity {
            id: e.id,
            pos: Some(moved_position(e.pos->Some_0, e.player->Some_0.speed, inp, t)),
            player: e.player,
            cow: e.cow,
        }
    } else {
        e
    }
}

/// What the movement rule does to the store: every live entity is moved as
/// `spec_move_entity` says; pending requests and ids are untouched.
pub open spec fn spec_movement(m: StoreModel, inp: InputSnapshot, t: u64) -> StoreModel {
    StoreModel {
        entities: m.entities.map_values(|e: Entity| spec_move_entity(e, inp, t)),
        pending_spawn: m.pending_spawn,
        pending_despawn: m.pending_despawn,
        next_id: m.next_id,
    }
}

/// Per frame, move every player entity by `speed * t` along each held
/// direction. Simultaneous keys compose additively: a diagonal frame moves
/// both axes by the full `speed * t`, and opposed keys cancel. An empty
/// query is a valid no-op.
pub fn character_movement(store: &mut Store, input: InputSnapshot, t: u64)
    requires
        forall|i: int|
            0 <= i < old(store)@.entities.len() ==> movement_fits(
                #[trigger] old(store)@.entities[i],
                input,
                t,
            ),
    ensures
        final(store)@ == spec_movement(old(store)@, input, t),
        old(store)@.wf() ==> final(store)@.wf(),
{
    let n = store.entities.len();
    let mut i: usize = 0;
    while i < n
        invariant
            i <= n,
            n == store.entities@.len(),
            store.entities@.len() == old(store)@.entities.len(),
            store@.pending_spawn == old(store)@.pending_spawn,
            store@.pending_despawn == old(store)@.pending_despawn,
            store@.next_id == old(store)@.next_id,
            forall|k: int|
                0 <= k < old(store)@.entities.len() ==> movement_fits(
                    #[trigger] old(store)@.entities[k],
                    input,
                    t,
                ),
            forall|k: int|
                i <= k < n ==> store.entities@[k] == #[trigger] old(store)@.entities[k],
            forall|k: int|
                0 <= k < i ==> store.entities@[k] == spec_move_entity(
                    #[trigger] old(store)@.entities[k],
                    input,
                    t,
                ),
        decreases n - i,
    {
        proof {
            assert(store.entities@[i as int] == old(store)@.entities[i as int]);
            assert(movement_fits(old(store)@.entities[i as int], input, t));
        }
        let e = store.entities[i];
        if e.player.is_some() && e.pos.is_some() {
            let speed = e.player.unwrap().speed;
            let p = e.pos.unwrap();
            let d = (speed * t) as i64;
            let mut dx: i64 = 0;
            let mut dy: i64 = 0;
            if input.up {
                dy = d;
            }
            if input.down {
                dy = dy - d;
            }
            if input.right {
                dx = d;
            }
            if input.left {
                dx = dx - d;
            }
            let np = Position { x: p.x + dx, y: p.y + dy };
            store.entities[i] = Entity { id: e.id, pos: Some(np), player: e.player, cow: e.cow };
        }
        i = i + 1;
    }
    proof {
        assert(store.entities@ =~= old(store)@.entities.map_values(
            |e: Entity| spec_move_entity(e, input, t),
        ));
        assert(store@ =~= spec_movement(old(store)@, input, t));
        if old(store)@.wf() {
            assert forall|k: int| 0 <= k < store@.entities.len() implies entity_wf(
                #[trigger] store@.entities[k],
            ) && store@.entities[k].id < store@.next_id by {
                assert(store@.entities[k] == spec_move_entity(old(store)@.entities[k], input, t));
            }
        }
    }
}

/// For every speed and elapsed time, each axis is driven by its own keys
/// alone: a single held key contributes exactly `speed * t` with its sign,
/// opposed keys cancel exactly, and no key at all contributes nothing.
pub proof fn lemma_deltas_compose_additively(speed: u64, inp: InputSnapshot, t: u64)
    ensures
        (inp.up && !inp.down) ==> y_delta(speed, inp, t) == speed * t,
        (inp.down && !inp.up) ==> y_delta(speed, inp, t) == -(speed * t),
        (inp.up == inp.down) ==> y_delta(speed, inp, t) == 0,
        (inp.right && !inp.left) ==> x_delta(speed, inp, t) == speed * t,
        (inp.left && !inp.right) ==> x_delta(speed, inp, t) == -(speed * t),
        (inp.left == inp.right) ==> x_delta(speed, inp, t) == 0,
{
}

/// Movement composes additively and nothing is normalized: for any elapsed
/// time and speed, a held "up" (without "down") moves y by exactly
/// `speed * t`; x is untouched when no horizontal key is held, and a
/// simultaneously held "right" (without "left") moves x by the full
/// `speed * t` as well, independently of the vertical axis.
pub proof fn lemma_no_diagonal_normalization(e: Entity, inp: InputSnapshot, t: u64)
    requires
        is_player_entity(e),
        movement_fits(e, inp, t),
        inp.up,
        !inp.down,
    ensures
        spec_move_entity(e, inp, t).pos->Some_0.y == e.pos->Some_0.y + e.player->Some_0.speed * t,
        (!inp.left && !inp.right) ==> spec_move_entity(e, inp, t).pos->Some_0.x
            == e.pos->Some_0.x,
        (inp.right && !inp.left) ==> spec_move_entity(e, inp, t).pos->Some_0.x
            == e.pos->Some_0.x + e.player->Some_0.speed * t,
{
}

/// The movement rule neither adds nor removes player entities, and moving the
/// store's single player moves exactly that entity.
pub proof fn lemma_movement_preserves_players(m: StoreModel, inp: InputSnapshot, t: u64)
    ensures
        player_count(spec_movement(m, inp, t).entities) == player_count(m.entities),
        player_count(m.entities) == 1 ==> the_player(spec_movement(m, inp, t).entities)
            == spec_move_entity(the_player(m.entities), inp, t),
    decreases m.entities.len(),
{
    reveal(Seq::filter);
    let s = m.entities;
    let moved = spec_movement(m, inp, t).entities;
    if s.len() == 0 {
        assert(moved =~= Seq::<Entity>::empty());
    } else {
        let sub_m = StoreModel {
            entities: s.drop_last(),
            pending_spawn: m.pending_spawn,
            pending_despawn: m.pending_despawn,
            next_id: m.next_id,
        };
        lemma_movement_preserves_players(sub_m, inp, t);
        let e = s.last();
        let moved_sub = spec_movement(sub_m, inp, t).entities;
        assert(s =~= s.drop_last().push(e));
        assert(moved =~= moved_sub.push(spec_move_entity(e, inp, t)));
        crate::store::lemma_players_push(s.drop_last(), e);
        crate::store::lemma_players_push(moved_sub, spec_move_entity(e, inp, t));
    }
}

/// The entity the spawn rule requests: a cow at the player's position, its
/// countdown armed at the full duration with nothing elapsed.
pub open spec fn new_cow_entity(id: u64, at: Position) -> Entity {
    Entity {
        id,
        pos: Some(at),
        player: None,
        cow: Some(Cow { lifetime: Lifetime { elapsed: 0, duration: COW_DURATION } }),
    }
}

/// What the spawn rule does to the store and the balance. With the edge
/// signal raised, exactly one player to read a position from, and at least
/// the cost in hand, the balance is debited by the cost and exactly one cow
/// entity is requested at the player's position. In every other case nothing
/// changes: a missing edge or a short balance is a silent no-op (and a player
/// count other than one is a loud error of the rule itself).
pub open spec fn spec_spawn(m: StoreModel, money: u64, pressed: bool) -> (StoreModel, u64) {
    if pressed && player_count(m.entities) == 1 && money >= SPAWN_COST {
        (
            StoreModel {
                entities: m.entities,
                pending_spawn: m.pending_spawn.push(
                    new_cow_entity(m.next_id, the_player(m.entities).pos->Some_0),
                ),
                pending_despawn: m.pending_despawn,
                next_id: (m.next_id + 1) as u64,
            },
            (money - SPAWN_COST) as u64,
        )
    } else {
        (m, money)
    }
}

/// On the spawn key's edge trigger, buy one cow: debit the cost from the
/// balance and request a cow entity at the single player's position, its
/// countdown armed at the full duration. Without the edge trigger nothing
/// happens; with it but too little balance, nothing happens silently; with it
/// but a player count other than one, the "exactly one" query fails loudly
/// and nothing is changed.
pub fn spawn_cow(store: &mut Store, money: &mut Money, spawn_pressed: bool) -> (r: Result<
    (),
    QueryError,
>)
    requires
        old(store)@.wf(),
        old(store)@.next_id < u64::MAX,
    ensures
        final(store)@.wf(),
        r is Ok <==> (!spawn_pressed || player_count(old(store)@.entities) == 1),
        r is Ok ==> (final(store)@, final(money).0) == spec_spawn(
            old(store)@,
            old(money).0,
            spawn_pressed,
        ),
        r matches Err(QueryError::PlayerCountNotOne(n)) ==> spawn_pressed && n as int
            == player_count(old(store)@.entities) && n != 1 && final(store)@ == old(store)@
            && *final(money) == *old(money),
{
    if !spawn_pressed {
        return Ok(());
    }
    match store.single_player() {
        Err(e) => Err(e),
        Ok(player_entity) => {
            if money.0 >= SPAWN_COST {
                money.0 = money.0 - SPAWN_COST;
                let at = player_entity.pos.unwrap();
                let lifetime = Lifetime::new(COW_DURATION);
                let _ = store.request_spawn(Some(at), None, Some(Cow { lifetime }));
                proof {
                    assert(store@ =~= spec_spawn(old(store)@, old(money).0, spawn_pressed).0);
                }
                Ok(())
            } else {
                Ok(())
            }
        },
    }
}

/// With the edge trigger raised, exactly one player, and at least the cost in
/// hand, a spawn always succeeds exactly once: it debits exactly the cost,
/// leaves the live entities alone, and requests exactly one new entity — a
/// cow at the player's position whose countdown is armed at the full
/// duration with nothing elapsed.
pub proof fn lemma_spawn_debits_and_arms_once(m: StoreModel, money: u64)
    requires
        player_count(m.entities) == 1,
        money >= SPAWN_COST,
    ensures
        ({
            let r = spec_spawn(m, money, true);
            &&& r.1 == money - SPAWN_COST
            &&& r.0.entities == m.entities
            &&& r.0.pending_spawn == m.pending_spawn.push(
                new_cow_entity(m.next_id, the_player(m.entities).pos->Some_0),
            )
            &&& r.0.pending_spawn.last().cow == Some(
                Cow { lifetime: Lifetime { elapsed: 0, duration: COW_DURATION } },
            )
        }),
{
}

/// A spawn attempted with less than the cost in hand mutates nothing — no
/// debit, no new entity — however many times the edge triggers while the
/// balance stays short: each such attempt returns the state unchanged, so a
/// second one starts from, and returns, the same state.
pub proof fn lemma_spawn_insufficient_is_noop(
    m: StoreModel,
    money: u64,
    pressed1: bool,
    pressed2: bool,
)
    requires
        money < SPAWN_COST,
    ensures
        spec_spawn(m, money, pressed1) == (m, money),
        spec_spawn(spec_spawn(m, money, pressed1).0, spec_spawn(m, money, pressed1).1, pressed2)
            == (m, money),
{
}

/// Whether this frame's tick makes the entity's countdown run down: it
/// carries a cow whose countdown was not finished and is after the tick.
pub open spec fn entity_fires(e: Entity, t: u64) -> bool {
    e.cow is Some && e.cow->Some_0.lifetime.fires(t)
}

/// What the lifetime rule does to one entity: a cow's countdown accumulates
/// the frame's time, saturating at its duration; every other entity is
/// untouched.
pub open spec fn spec_age_entity(e: Entity, t: u64) -> Entity {
    if e.cow is Some {
        Entity {
            id: e.id,
            pos: e.pos,
            player: e.player,
            cow: Some(Cow { lifetime: e.cow->Some_0.lifetime.spec_ticked(t) }),
        }
    } else {
        e
    }
}

/// The entities whose countdown runs down on this frame, in store order.
pub open spec fn fired(s: Seq<Entity>, t: u64) -> Seq<Entity> {
    s.filter(|e: Entity| entity_fires(e, t))
}

/// How many countdowns run down on this frame.
pub open spec fn fired_count(s: Seq<Entity>, t: u64) -> int {
    fired(s, t).len() as int
}

/// The ids whose despawn the lifetime rule requests this frame, in store
/// order: the ids of the entities whose countdown runs down.
pub open spec fn fired_ids(s: Seq<Entity>, t: u64) -> Seq<u64> {
    fired(s, t).map_values(|e: Entity| e.id)
}

/// Adding one entity to the end of a sequence adds it to the fired entities
/// exactly when its countdown runs down on this frame.
proof fn lemma_fired_push(s: Seq<Entity>, t: u64, e: Entity)
    ensures
        fired(s.push(e), t) == if entity_fires(e, t) {
            fired(s, t).push(e)
        } else {
            fired(s, t)
        },
{
    broadcast use Seq::lemma_filter_push;

    assert(fired(s.push(e), t) == fired(s.push(e), t));
}

/// What the lifetime rule does to the store and the balance: every cow's
/// countdown accumulates the frame's time; the balance is credited with the
/// reward exactly once for each countdown that runs down on this frame; and
/// exactly the ids of those cows are appended to the despawn requests.
pub open spec fn spec_lifetime(m: StoreModel, money: u64, t: u64) -> (StoreModel, u64) {
    (
        StoreModel {
            entities: m.entities.map_values(|e: Entity| spec_age_entity(e, t)),
            pending_spawn: m.pending_spawn,
            pending_despawn: m.pending_despawn + fired_ids(m.entities, t),
            next_id: m.next_id,
        },
        (money + COW_REWARD * fired_count(m.entities, t)) as u64,
    )
}

/// A cow fires at most once: after the tick on which its countdown ran down,
/// no later tick makes it fire again.
pub proof fn lemma_cow_fires_at_most_once(e: Entity, t1: u64, t2: u64)
    requires
        entity_wf(e),
        entity_fires(e, t1),
    ensures
        !entity_fires(spec_age_entity(e, t1), t2),
{
}

/// A cow observed with its countdown already finished is left exactly as it
/// is and never fires, so it is never credited again.
pub proof fn lemma_finished_cow_credits_nothing(e: Entity, t: u64)
    requires
        entity_wf(e),
        e.cow is Some,
        e.cow->Some_0.lifetime.spec_finished(),
    ensures
        !entity_fires(e, t),
        spec_age_entity(e, t) == e,
{
    crate::components::lemma_finished_tick_is_noop(e.cow->Some_0.lifetime, t);
}

/// Every cow that fires on this frame has its despawn requested on this
/// frame: its id is among the ids the lifetime rule appends.
pub proof fn lemma_fired_cow_scheduled_for_despawn(s: Seq<Entity>, t: u64, i: int)
    requires
        0 <= i < s.len(),
        entity_fires(s[i], t),
    ensures
        fired_ids(s, t).contains(s[i].id),
{
    broadcast use vstd::seq_lib::group_filter_ensures;

    assert(fired(s, t).contains(s[i]));
    let j = choose|j: int| 0 <= j < fired(s, t).len() && fired(s, t)[j] == s[i];
    assert(fired_ids(s, t)[j] == s[i].id);
}

/// A cow that fires on some frame is gone afterwards: once the frame's
/// despawns are applied, no surviving live entity carries its id, so no
/// later query sees it.
pub proof fn lemma_fired_cow_absent_after_commit(m: StoreModel, money: u64, t: u64, i: int)
    requires
        0 <= i < m.entities.len(),
        entity_fires(m.entities[i], t),
    ensures
        ({
            let aged = spec_lifetime(m, money, t).0;
            forall|k: int|
                0 <= k < live_after(aged.entities, aged.pending_despawn).len()
                    ==> #[trigger] live_after(aged.entities, aged.pending_despawn)[k].id
                    != m.entities[i].id
        }),
{
    broadcast use vstd::seq_lib::group_filter_ensures;

    lemma_fired_cow_scheduled_for_despawn(m.entities, t, i);
    let aged = spec_lifetime(m, money, t).0;
    let id = m.entities[i].id;
    let j = choose|j: int|
        0 <= j < fired_ids(m.entities, t).len() && fired_ids(m.entities, t)[j] == id;
    assert(aged.pending_despawn[m.pending_despawn.len() + j] == id);
    assert(aged.pending_despawn.contains(id));
    let survivors = live_after(aged.entities, aged.pending_despawn);
    assert forall|k: int| 0 <= k < survivors.len() implies #[trigger] survivors[k].id != id by {
        assert(!aged.pending_despawn.contains(survivors[k].id));
    }
}

/// Per frame, advance every cow's countdown by the frame's time, saturating
/// at its duration. On the tick a countdown runs down — and only then — the
/// balance is credited with the reward, once, and the cow's despawn is
/// requested; a countdown found already finished credits nothing. No error
/// conditions: an empty query is a valid no-op.
pub fn cow_lifetime(store: &mut Store, money: &mut Money, t: u64)
    requires
        old(store)@.wf(),
        old(money).0 + COW_REWARD * old(store)@.entities.len() <= u64::MAX,
    ensures
        final(store)@.wf(),
        (final(store)@, final(money).0) == spec_lifetime(old(store)@, old(money).0, t),
{
    broadcast use vstd::seq_lib::group_filter_ensures;

    let n = store.entities.len();
    let mut i: usize = 0;
    while i < n
        invariant
            i <= n,
            n == store.entities@.len(),
            store.entities@.len() == old(store)@.entities.len(),
            old(store)@.wf(),
            old(money).0 + COW_REWARD * old(store)@.entities.len() <= u64::MAX,
            store@.pending_spawn == old(store)@.pending_spawn,
            store@.next_id == old(store)@.next_id,
            forall|k: int|
                i <= k < n ==> store.entities@[k] == #[trigger] old(store)@.entities[k],
            forall|k: int|
                0 <= k < i ==> store.entities@[k] == spec_age_entity(
                    #[trigger] old(store)@.entities[k],
                    t,
                ),
            money.0 == old(money).0 + COW_REWARD * fired_count(
                old(store)@.entities.take(i as int),
                t,
            ),
            store@.pending_despawn == old(store)@.pending_despawn + fired_ids(
                old(store)@.entities.take(i as int),
                t,
            ),
        decreases n - i,
    {
        proof {
            let s = old(store)@.entities;
            assert(s.take(i + 1) =~= s.take(i as int).push(s[i as int]));
            lemma_fired_push(s.take(i as int), t, s[i as int]);
            assert(fired_count(s.take(i as int), t) <= i);
            if entity_fires(s[i as int], t) {
                assert(fired_ids(s.take(i + 1), t) =~= fired_ids(s.take(i as int), t).push(
                    s[i as int].id,
                ));
            } else {
                assert(fired_ids(s.take(i + 1), t) =~= fired_ids(s.take(i as int), t));
            }
        }
        let e = store.entities[i];
        match e.cow {
            None => {},
            Some(c) => {
                let was_finished = c.lifetime.finished();
                let mut lifetime = c.lifetime;
                lifetime.tick(t);
                store.entities[i] = Entity {
                    id: e.id,
                    pos: e.pos,
                    player: e.player,
                    cow: Some(Cow { lifetime }),
                };
                if lifetime.finished() && !was_finished {
                    money.0 = money.0 + COW_REWARD;
                    store.pending_despawn.push(e.id);
                }
            },
        }
        i = i + 1;
    }
    proof {
        let s = old(store)@.entities;
        assert(s.take(n as int) =~= s);
        assert(store@ =~= spec_lifetime(old(store)@, old(money).0, t).0);
        assert forall|k: int| 0 <= k < store@.entities.len() implies entity_wf(
            #[trigger] store@.entities[k],
        ) && store@.entities[k].id < store@.next_id by {
            assert(store@.entities[k] == spec_age_entity(s[k], t));
            assert(entity_wf(s[k]) && s[k].id < old(store)@.next_id);
        }
    }
}

} // verus!
