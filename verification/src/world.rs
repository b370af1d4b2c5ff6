//! The world and its scheduler: the entity store plus the shared money
//! balance, driven by an external frame pump. Each tick runs the movement,
//! spawn and lifetime rules in a fixed order on the frame's input snapshot
//! and elapsed time, then commits the deferred spawns and despawns.

use vstd::prelude::*;

use crate::components::{InputSnapshot, Money, Player, Position};
use crate::rules::{
    character_movement, cow_lifetime, lemma_movement_preserves_players, movement_fits, spawn_cow,
    spec_lifetime, spec_movement, spec_spawn,
};
use crate::store::{Entity, QueryError, Store, StoreModel, player_count, spec_commit};
use crate::{COW_REWARD, PLAYER_SPEED, STARTING_MONEY};

verus! {

/// The whole game state: the entity store and the shared money balance.
pub struct World {
    pub store: Store,
    pub money: Money,
}

/// The mathematical model of a `World`.
#[verifier::ext_equal]
pub struct WorldModel {
    pub store: StoreModel,
    pub money: u64,
}

impl View for World {
    type V = WorldModel;

    open spec fn view(&self) -> WorldModel {
        WorldModel { store: self.store@, money: self.money.0 }
    }
}

impl WorldModel {
    pub open spec fn wf(self) -> bool {
        self.store.wf()
    }
}

/// What one frame does to the model, in the scheduler's fixed order: the
/// movement rule, then the spawn rule, then the lifetime rule, then the
/// commit of the deferred spawns and despawns.
pub open spec fn spec_tick(w: WorldModel, inp: InputSnapshot, t: u64) -> WorldModel {
    let m1 = spec_movement(w.store, inp, t);
    let after_spawn = spec_spawn(m1, w.money, inp.spawn_just_pressed);
    let after_life = spec_lifetime(after_spawn.0, after_spawn.1, t);
    WorldModel { store: spec_commit(after_life.0), money: after_life.1 }
}

/// The world at startup: the starting balance, and one live player entity at
/// the origin with the fixed speed. Nothing is pending and the player took
/// the first id.
pub fn setup() -> (w: World)
    ensures
        w@.wf(),
        w@.money == STARTING_MONEY,
        w@.store.entities == Seq::<Entity>::empty().push(
            Entity {
                id: 0,
                pos: Some(Position { x: 0, y: 0 }),
                player: Some(Player { speed: PLAYER_SPEED }),
                cow: None,
            },
        ),
        w@.store.pending_spawn == Seq::<Entity>::empty(),
        w@.store.pending_despawn == Seq::<u64>::empty(),
        w@.store.next_id == 1,
        player_count(w@.store.entities) == 1,
{
    let mut store = Store::new();
    let _ = store.request_spawn(
        Some(Position { x: 0, y: 0 }),
        Some(Player { speed: PLAYER_SPEED }),
        None,
    );
    store.commit();
    proof {
        reveal(Seq::filter);
        let e = Entity {
            id: 0,
            pos: Some(Position { x: 0, y: 0 }),
            player: Some(Player { speed: PLAYER_SPEED }),
            cow: None,
        };
        assert(store@.entities =~= Seq::<Entity>::empty().push(e));
        crate::store::lemma_players_push(Seq::<Entity>::empty(), e);
    }
    World { store, money: Money(STARTING_MONEY) }
}

/// One frame: run the movement, spawn and lifetime rules in that fixed order
/// on the frame's input and elapsed time, then commit the deferred spawns
/// and despawns. When the spawn key's edge trigger finds some other number
/// of player entities than one, the frame fails loudly before anything is
/// mutated; otherwise the frame succeeds and does exactly what `spec_tick`
/// says.
pub fn tick(world: &mut World, input: InputSnapshot, t: u64) -> (r: Result<(), QueryError>)
    requires
        old(world)@.wf(),
        old(world)@.store.next_id < u64::MAX,
        forall|i: int|
            0 <= i < old(world)@.store.entities.len() ==> movement_fits(
                #[trigger] old(world)@.store.entities[i],
                input,
                t,
            ),
        old(world)@.money + COW_REWARD * old(world)@.store.entities.len() <= u64::MAX,
    ensures
        final(world)@.wf(),
        r is Ok <==> (!input.spawn_just_pressed || player_count(old(world)@.store.entities)
            == 1),
        r is Ok ==> final(world)@ == spec_tick(old(world)@, input, t),
        r matches Err(QueryError::PlayerCountNotOne(n)) ==> input.spawn_just_pressed && n as int
            == player_count(old(world)@.store.entities) && n != 1 && final(world)@ == old(
            world,
        )@,
{
    if input.spawn_just_pressed {
        match world.store.single_player() {
            Err(e) => {
                return Err(e);
            },
            Ok(_) => {},
        }
    }
    let ghost w0 = old(world)@;
    character_movement(&mut world.store, input, t);
    let ghost m1 = world.store@;
    proof {
        lemma_movement_preserves_players(w0.store, input, t);
    }
    let sr = spawn_cow(&mut world.store, &mut world.money, input.spawn_just_pressed);
    match sr {
        Err(e) => {
            proof {
                assert(false);
            }
            Err(e)
        },
        Ok(_) => {
            let ghost m2 = world.store@;
            let ghost money2 = world.money.0;
            cow_lifetime(&mut world.store, &mut world.money, t);
            world.store.commit();
            proof {
                assert((m2, money2) == spec_spawn(m1, w0.money, input.spawn_just_pressed));
                assert(world@ =~= spec_tick(w0, input, t));
            }
            Ok(())
        },
    }
}

} // verus!
