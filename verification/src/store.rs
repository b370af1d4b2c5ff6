//! The entity store: a collection of live entities, each an identity plus a
//! set of components, with deferred spawn and despawn. Requests made while
//! the frame's rules run are recorded and only applied by `commit`, after all
//! rules have run, so that no rule ever mutates the collection it iterates.

use vstd::prelude::*;

use crate::components::{Cow, Player, Position};

verus! {

/// One entity: a stable identity plus its components. An absent component is
/// `None`. The identity never changes; the components may.
#[derive(Clone, Copy, PartialEq, Eq, Debug)]
pub struct Entity {
    pub id: u64,
    pub pos: Option<Position>,
    pub player: Option<Player>,
    pub cow: Option<Cow>,
}

/// An entity's own invariant: a cow's countdown never runs past its duration.
pub open spec fn entity_wf(e: Entity) -> bool {
    e.cow is Some ==> e.cow->Some_0.lifetime.wf()
}

/// The entities the player queries match: those carrying both a position and
/// the player tag.
pub open spec fn is_player_entity(e: Entity) -> bool {
    e.player is Some && e.pos is Some
}

/// The player entities of `s`, in store order.
pub open spec fn players(s: Seq<Entity>) -> Seq<Entity> {
    s.filter(|e: Entity| is_player_entity(e))
}

/// How many entities of `s` the player query matches.
pub open spec fn player_count(s: Seq<Entity>) -> int {
    players(s).len() as int
}

/// The single player entity of `s`; meaningful when `player_count(s) == 1`.
pub open spec fn the_player(s: Seq<Entity>) -> Entity
    recommends
        player_count(s) == 1,
{
    players(s)[0]
}

/// The entities of `entities` that survive the deferred despawns `despawns`:
/// those whose id was never requested for despawn. Despawning an id that no
/// live entity carries is thereby a no-op, not an error.
pub open spec fn live_after(entities: Seq<Entity>, despawns: Seq<u64>) -> Seq<Entity> {
    entities.filter(|e: Entity| !despawns.contains(e.id))
}

/// The mathematical model of a `Store`.
#[verifier::ext_equal]
pub struct StoreModel {
    pub entities: Seq<Entity>,
    pub pending_spawn: Seq<Entity>,
    pub pending_despawn: Seq<u64>,
    pub next_id: u64,
}

impl StoreModel {
    /// Every entity, live or pending, satisfies its own invariant and carries
    /// an id below the next one to be handed out, so freshly assigned ids
    /// never collide with existing ones.
    pub open spec fn wf(self) -> bool {
        &&& forall|i: int|
            0 <= i < self.entities.len() ==> entity_wf(#[trigger] self.entities[i])
                && self.entities[i].id < self.next_id
        &&& forall|i: int|
            0 <= i < self.pending_spawn.len() ==> entity_wf(#[trigger] self.pending_spawn[i])
                && self.pending_spawn[i].id < self.next_id
    }
}

/// What `commit` does to the model: the despawns are applied to the live
/// entities, the pending spawns become live behind them, and both request
/// lists are drained.
pub open spec fn spec_commit(m: StoreModel) -> StoreModel {
    StoreModel {
        entities: live_after(m.entities, m.pending_despawn) + m.pending_spawn,
        pending_spawn: Seq::<Entity>::empty(),
        pending_despawn: Seq::<u64>::empty(),
        next_id: m.next_id,
    }
}

/// Adding one entity to the end of a sequence adds it to the players exactly
/// when the player query matches it.
pub proof fn lemma_players_push(s: Seq<Entity>, e: Entity)
    ensures
        players(s.push(e)) == if is_player_entity(e) {
            players(s).push(e)
        } else {
            players(s)
        },
{
    broadcast use Seq::lemma_filter_push;

    assert(players(s.push(e)) == players(s.push(e)));
}

/// Adding one entity to the end of a sequence keeps it among the survivors of
/// the despawns exactly when its id was not requested.
proof fn lemma_live_after_push(s: Seq<Entity>, d: Seq<u64>, e: Entity)
    ensures
        live_after(s.push(e), d) == if !d.contains(e.id) {
            live_after(s, d).push(e)
        } else {
            live_after(s, d)
        },
{
    broadcast use Seq::lemma_filter_push;

    assert(live_after(s.push(e), d) == live_after(s.push(e), d));
}

/// Every survivor of the despawns is one of the unfiltered entities.
proof fn lemma_live_after_subset(s: Seq<Entity>, d: Seq<u64>, k: int)
    requires
        0 <= k < live_after(s, d).len(),
    ensures
        s.contains(live_after(s, d)[k]),
    decreases s.len(),
{
    reveal(Seq::filter);
    if s.len() > 0 {
        let sub = s.drop_last();
        let f = live_after(s, d);
        if !d.contains(s.last().id) && k == f.len() - 1 {
            assert(s[s.len() - 1] == f[k]);
        } else {
            lemma_live_after_subset(sub, d, k);
            let j = choose|j: int| 0 <= j < sub.len() && sub[j] == live_after(sub, d)[k];
            assert(s[j] == f[k]);
        }
    }
}

/// The store of live entities, with the deferred requests of the current
/// frame and the next identity to hand out.
pub struct Store {
    pub entities: Vec<Entity>,
    pub pending_spawn: Vec<Entity>,
    pub pending_despawn: Vec<u64>,
    pub next_id: u64,
}

impl View for Store {
    type V = StoreModel;

    open spec fn view(&self) -> StoreModel {
        StoreModel {
            entities: self.entities@,
            pending_spawn: self.pending_spawn@,
            pending_despawn: self.pending_despawn@,
            next_id: self.next_id,
        }
    }
}

/// The error of the "expect exactly one" player query: the store held some
/// other number of player entities than one. Under the rules this is a
/// contract violation, reported loudly rather than guessed around.
#[derive(Clone, Copy, PartialEq, Eq, Debug)]
pub enum QueryError {
    PlayerCountNotOne(usize),
}

impl Store {
    /// An empty store: no entities, no pending requests, ids start at zero.
    pub fn new() -> (s: Store)
        ensures
            s@ == (StoreModel {
                entities: Seq::<Entity>::empty(),
                pending_spawn: Seq::<Entity>::empty(),
                pending_despawn: Seq::<u64>::empty(),
                next_id: 0,
            }),
            s@.wf(),
    {
        let s = Store {
            entities: Vec::new(),
            pending_spawn: Vec::new(),
            pending_despawn: Vec::new(),
            next_id: 0,
        };
        proof {
            assert(s@ =~= (StoreModel {
                entities: Seq::<Entity>::empty(),
                pending_spawn: Seq::<Entity>::empty(),
                pending_despawn: Seq::<u64>::empty(),
                next_id: 0,
            }));
        }
        s
    }

    /// Record a request to spawn an entity with the given components. The
    /// entity gets a fresh id, returned to the caller, and becomes live only
    /// at the next `commit`: no query of this frame sees it.
    pub fn request_spawn(
        &mut self,
        pos: Option<Position>,
        player: Option<Player>,
        cow: Option<Cow>,
    ) -> (id: u64)
        requires
            old(self)@.wf(),
            old(self)@.next_id < u64::MAX,
            cow is Some ==> cow->Some_0.lifetime.wf(),
        ensures
            id == old(self)@.next_id,
            final(self)@ == (StoreModel {
                entities: old(self)@.entities,
                pending_spawn: old(self)@.pending_spawn.push(
                    Entity { id: old(self)@.next_id, pos, player, cow },
                ),
                pending_despawn: old(self)@.pending_despawn,
                next_id: (old(self)@.next_id + 1) as u64,
            }),
            final(self)@.wf(),
    {
        let id = self.next_id;
        self.next_id = self.next_id + 1;
        self.pending_spawn.push(Entity { id, pos, player, cow });
        id
    }

    /// Record a request to despawn the entity with the given id. Applied only
    /// at the next `commit`; requesting an id twice, or an id no live entity
    /// carries, is harmless.
    pub fn request_despawn(&mut self, id: u64)
        ensures
            final(self)@ == (StoreModel {
                entities: old(self)@.entities,
                pending_spawn: old(self)@.pending_spawn,
                pending_despawn: old(self)@.pending_despawn.push(id),
                next_id: old(self)@.next_id,
            }),
            old(self)@.wf() ==> final(self)@.wf(),
    {
        self.pending_despawn.push(id);
    }

    /// How many entities the player query matches.
    pub fn count_players(&self) -> (n: usize)
        ensures
            n as int == player_count(self@.entities),
    {
        broadcast use vstd::seq_lib::group_filter_ensures;

        let mut n: usize = 0;
        let mut i: usize = 0;
        while i < self.entities.len()
            invariant
                i <= self.entities@.len(),
                n as int == player_count(self.entities@.take(i as int)),
            decreases self.entities@.len() - i,
        {
            proof {
                let s = self.entities@;
                assert(s.take(i + 1) =~= s.take(i as int).push(s[i as int]));
                lemma_players_push(s.take(i as int), s[i as int]);
            }
            if self.entities[i].player.is_some() && self.entities[i].pos.is_some() {
                n = n + 1;
            }
            i = i + 1;
        }
        proof {
            assert(self.entities@.take(self.entities@.len() as int) =~= self.entities@);
        }
        n
    }

    /// The "expect exactly one" accessor of the player query: the single
    /// player entity when exactly one exists, and a loud error naming the
    /// actual count otherwise.
    pub fn single_player(&self) -> (r: Result<Entity, QueryError>)
        ensures
            r is Ok <==> player_count(self@.entities) == 1,
            r matches Ok(e) ==> e == the_player(self@.entities) && is_player_entity(e),
            r matches Err(QueryError::PlayerCountNotOne(n)) ==> n as int == player_count(
                self@.entities,
            ) && n != 1,
    {
        broadcast use vstd::seq_lib::group_filter_ensures;

        let mut n: usize = 0;
        let mut first: usize = 0;
        let mut i: usize = 0;
        while i < self.entities.len()
            invariant
                i <= self.entities@.len(),
                n as int == player_count(self.entities@.take(i as int)),
                n > 0 ==> first < i && is_player_entity(self.entities@[first as int]),
            decreases self.entities@.len() - i,
        {
            proof {
                let s = self.entities@;
                assert(s.take(i + 1) =~= s.take(i as int).push(s[i as int]));
                lemma_players_push(s.take(i as int), s[i as int]);
            }
            if self.entities[i].player.is_some() && self.entities[i].pos.is_some() {
                if n == 0 {
                    first = i;
                }
                n = n + 1;
            }
            i = i + 1;
        }
        proof {
            assert(self.entities@.take(self.entities@.len() as int) =~= self.entities@);
        }
        if n == 1 {
            proof {
                let s = self.entities@;
                assert(players(s).contains(s[first as int]));
                let j = choose|j: int|
                    0 <= j < players(s).len() && players(s)[j] == s[first as int];
                assert(j == 0);
            }
            Ok(self.entities[first])
        } else {
            Err(QueryError::PlayerCountNotOne(n))
        }
    }

    /// Apply the frame's deferred requests: despawns first, then the pending
    /// spawns become live, and both request lists are drained.
    pub fn commit(&mut self)
        requires
            old(self)@.wf(),
        ensures
            final(self)@ == spec_commit(old(self)@),
            final(self)@.wf(),
    {
        let ghost despawns = self.pending_despawn@;
        let mut kept: Vec<Entity> = Vec::new();
        let mut i: usize = 0;
        while i < self.entities.len()
            invariant
                *self == *old(self),
                i <= self.entities@.len(),
                despawns == self.pending_despawn@,
                kept@ == live_after(self.entities@.take(i as int), despawns),
            decreases self.entities@.len() - i,
        {
            proof {
                let s = self.entities@;
                assert(s.take(i + 1) =~= s.take(i as int).push(s[i as int]));
                lemma_live_after_push(s.take(i as int), despawns, s[i as int]);
            }
            let e = self.entities[i];
            if !contains_id(&self.pending_despawn, e.id) {
                kept.push(e);
            }
            i = i + 1;
        }
        proof {
            assert(self.entities@.take(self.entities@.len() as int) =~= self.entities@);
        }
        self.entities = kept;
        self.entities.append(&mut self.pending_spawn);
        self.pending_despawn.clear();
        proof {
            assert(final(self)@ =~= spec_commit(old(self)@));
            let m = spec_commit(old(self)@);
            let la = live_after(old(self)@.entities, old(self)@.pending_despawn);
            assert forall|k: int| 0 <= k < m.entities.len() implies entity_wf(
                #[trigger] m.entities[k],
            ) && m.entities[k].id < m.next_id by {
                if k < la.len() {
                    lemma_live_after_subset(old(self)@.entities, old(self)@.pending_despawn, k);
                    let j = choose|j: int|
                        0 <= j < old(self)@.entities.len() && old(self)@.entities[j] == la[k];
                    assert(entity_wf(old(self)@.entities[j]));
                } else {
                    assert(m.entities[k] == old(self)@.pending_spawn[k - la.len()]);
                }
            }
        }
    }
}

/// Whether `v` holds `id`.
fn contains_id(v: &Vec<u64>, id: u64) -> (r: bool)
    ensures
        r == v@.contains(id),
{
    let mut i: usize = 0;
    while i < v.len()
        invariant
            i <= v@.len(),
            forall|j: int| 0 <= j < i ==> v@[j] != id,
        decreases v@.len() - i,
    {
        if v[i] == id {
            return true;
        }
        i = i + 1;
    }
    false
}

/// Despawning an id that was already requested for despawn is a no-op the
/// second time: the same entities survive the commit either way.
pub proof fn lemma_despawn_idempotent(entities: Seq<Entity>, despawns: Seq<u64>, id: u64)
    requires
        despawns.contains(id),
    ensures
        live_after(entities, despawns.push(id)) == live_after(entities, despawns),
    decreases entities.len(),
{
    reveal(Seq::filter);
    if entities.len() > 0 {
        lemma_despawn_idempotent(entities.drop_last(), despawns, id);
        let e = entities.last();
        assert(despawns.push(id).contains(e.id) == despawns.contains(e.id)) by {
            if despawns.contains(e.id) {
                let k = choose|k: int| 0 <= k < despawns.len() && despawns[k] == e.id;
                assert(despawns.push(id)[k] == e.id);
            }
            if despawns.push(id).contains(e.id) {
                let k = choose|k: int|
                    0 <= k < despawns.push(id).len() && despawns.push(id)[k] == e.id;
                if k < despawns.len() {
                    assert(despawns[k] == e.id);
                } else {
                    assert(e.id == id);
                }
            }
        }
    }
}

/// The store-level statement of the same fact: a model that recorded one more
/// despawn request for an id it already holds commits to the same store.
pub proof fn lemma_commit_despawn_twice(m: StoreModel, id: u64)
    requires
        m.pending_despawn.contains(id),
    ensures
        spec_commit(
            StoreModel {
                entities: m.entities,
                pending_spawn: m.pending_spawn,
                pending_despawn: m.pending_despawn.push(id),
                next_id: m.next_id,
            },
        ) == spec_commit(m),
{
    lemma_despawn_idempotent(m.entities, m.pending_despawn, id);
}

} // verus!
