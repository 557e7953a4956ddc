use vstd::prelude::*;
use crate::boids::{
    Boid, BoidColourKind, Entity, EntityWithId, MessageWithId, MoveMessage, Plane, Player, Tree,
    COLOUR_COUNT, colour_at, obj_type_of,
};
use crate::tick::{next_snapshot, tick_next};

verus! {

/// The tag a host reads back for an entity of a snapshot.
#[derive(Clone, Copy, Debug, PartialEq, Eq, Structural)]
pub enum ObjType {
    Boid,
    Player,
    Plane,
    Tree,
    NoObj,
}


/// A running world: the snapshot of the current tick, and the messages queued
/// for delivery in the next tick.
pub struct Sim<V, L, S> {
    pub current_state: Vec<EntityWithId<V, L>>,
    pub messages: Vec<MessageWithId<S, L>>,
}

/// No two entries of `s` share an id.
pub open spec fn ids_unique<V, L>(s: Seq<EntityWithId<V, L>>) -> bool {
    forall|i: int, j: int| 0 <= i < j < s.len() ==> s[i].id != s[j].id
}

impl<V, L, S> Sim<V, L, S> {
    /// Every entity has an id of its own.
    pub open spec fn wf(&self) -> bool {
        ids_unique(self.current_state@)
    }
}

/// The boid built at world start from the `i`-th placement.
pub open spec fn initial_boid<V>(placements: Seq<(V, V)>, i: int) -> Boid<V> {
    Boid {
        position: placements[i].0,
        direction: placements[i].1,
        colour: colour_at(i % COLOUR_COUNT as int),
    }
}

/// The world at start: boids (ids `0..n`, colours in turn), then the player (id `n`),
/// then the planes, then the trees, ids counting on by one; no message queued.
pub open spec fn is_initial_world<V, L, S>(
    w: Sim<V, L, S>,
    boids: Seq<(V, V)>,
    player: Player<V, L>,
    planes: Seq<Plane<V>>,
    trees: Seq<Tree<V>>,
) -> bool {
    let s = w.current_state@;
    let n = boids.len();
    let np = planes.len();
    &&& s.len() == n + 1 + np + trees.len()
    &&& w.messages@.len() == 0
    &&& forall|k: int| 0 <= k < s.len() ==> #[trigger] s[k].id == k
    &&& forall|i: int| 0 <= i < n ==> #[trigger] s[i].entity == Entity::<V, L>::Boid(initial_boid(boids, i))
    &&& s[n as int].entity == Entity::<V, L>::Player(player)
    &&& forall|j: int| 0 <= j < np ==> #[trigger] s[n + 1 + j].entity == Entity::<V, L>::Plane(planes[j])
    &&& forall|k: int| 0 <= k < trees.len() ==> #[trigger] s[n + 1 + np + k].entity == Entity::<V, L>::Tree(trees[k])
}

/// Builds the world at start from the boids' placements (position, direction), the
/// player, the bounding planes and the trees.
#[allow(non_snake_case)]
pub fn newSim<V: Copy, L: Copy, S>(
    boids: &Vec<(V, V)>,
    player: Player<V, L>,
    planes: &Vec<Plane<V>>,
    trees: &Vec<Tree<V>>,
) -> (r: Sim<V, L, S>)
    requires
        boids@.len() + planes@.len() + trees@.len() < u64::MAX,
    ensures
        is_initial_world(r, boids@, player, planes@, trees@),
        r.wf(),
{
    let mut state: Vec<EntityWithId<V, L>> = Vec::new();
    let mut next_id: u64 = 0;
    let mut i: usize = 0;
    while i < boids.len()
        invariant
            i <= boids@.len(),
            boids@.len() + planes@.len() + trees@.len() < u64::MAX,
            state@.len() == i,
            next_id == i,
            forall|k: int| 0 <= k < i ==> #[trigger] state@[k].id == k,
            forall|k: int| 0 <= k < i ==> #[trigger] state@[k].entity == Entity::<V, L>::Boid(initial_boid(boids@, k)),
        decreases boids@.len() - i,
    {
        let (position, direction) = boids[i];
        let boid = Boid { position, direction, colour: BoidColourKind::for_index(next_id) };
        state.push(EntityWithId { id: next_id, entity: Entity::Boid(boid) });
        next_id = next_id + 1;
        i = i + 1;
    }
    state.push(EntityWithId { id: next_id, entity: Entity::Player(player) });
    next_id = next_id + 1;
    let mut j: usize = 0;
    while j < planes.len()
        invariant
            j <= planes@.len(),
            boids@.len() + planes@.len() + trees@.len() < u64::MAX,
            state@.len() == boids@.len() + 1 + j,
            next_id == state@.len(),
            forall|k: int| 0 <= k < state@.len() ==> #[trigger] state@[k].id == k,
            forall|k: int| 0 <= k < boids@.len() ==> #[trigger] state@[k].entity == Entity::<V, L>::Boid(initial_boid(boids@, k)),
            state@[boids@.len() as int].entity == Entity::<V, L>::Player(player),
            forall|k: int| 0 <= k < j ==> #[trigger] state@[boids@.len() + 1 + k].entity == Entity::<V, L>::Plane(planes@[k]),
        decreases planes@.len() - j,
    {
        state.push(EntityWithId { id: next_id, entity: Entity::Plane(planes[j]) });
        next_id = next_id + 1;
        j = j + 1;
    }
    let mut k: usize = 0;
    while k < trees.len()
        invariant
            k <= trees@.len(),
            boids@.len() + planes@.len() + trees@.len() < u64::MAX,
            state@.len() == boids@.len() + 1 + planes@.len() + k,
            next_id == state@.len(),
            forall|m: int| 0 <= m < state@.len() ==> #[trigger] state@[m].id == m,
            forall|m: int| 0 <= m < boids@.len() ==> #[trigger] state@[m].entity == Entity::<V, L>::Boid(initial_boid(boids@, m)),
            state@[boids@.len() as int].entity == Entity::<V, L>::Player(player),
            forall|m: int| 0 <= m < planes@.len() ==> #[trigger] state@[boids@.len() + 1 + m].entity == Entity::<V, L>::Plane(planes@[m]),
            forall|m: int| 0 <= m < k ==> #[trigger] state@[boids@.len() + 1 + planes@.len() + m].entity == Entity::<V, L>::Tree(trees@[m]),
        decreases trees@.len() - k,
    {
        state.push(EntityWithId { id: next_id, entity: Entity::Tree(trees[k]) });
        next_id = next_id + 1;
        k = k + 1;
    }
    Sim { current_state: state, messages: Vec::new() }
}

/// Advances the world by one tick: every entity's next state is computed from the
/// snapshot as it stood at the start of the tick, slot for slot, and the queued
/// messages are delivered to their addressees and then dropped. Returns the number
/// of entities.
pub fn step<V: Copy, L: Copy, S: Copy, FB, FP>(
    sim: &mut Sim<V, L, S>,
    boid_update: FB,
    player_update: FP,
) -> (r: usize) where
    FB: Fn(&Boid<V>, &Vec<Boid<V>>) -> Boid<V>,
    FP: Fn(&Player<V, L>, &Vec<MoveMessage<S, L>>) -> Player<V, L>,

    requires
        forall|b: &Boid<V>, o: &Vec<Boid<V>>| boid_update.requires((b, o)),
        forall|p: &Player<V, L>, m: &Vec<MoveMessage<S, L>>| player_update.requires((p, m)),
    ensures
        tick_next(
            old(sim).current_state@,
            old(sim).messages@,
            final(sim).current_state@,
            boid_update,
            player_update,
        ),
        final(sim).messages@.len() == 0,
        r == final(sim).current_state@.len(),
        old(sim).wf() ==> final(sim).wf(),
{
    let next = next_snapshot(&sim.current_state, &sim.messages, boid_update, player_update);
    proof {
        let s = sim.current_state@;
        assert forall|i: int| 0 <= i < s.len() implies #[trigger] next@[i].id == s[i].id by {
            assert(crate::tick::entry_next(s, sim.messages@, i, next@[i], boid_update, player_update));
        }
    }
    sim.current_state = next;
    sim.messages = Vec::new();
    sim.current_state.len()
}

/// What a host reads back for one slot of the snapshot: the entity's id, its tag,
/// and the entity itself; for a slot out of range, id 0, the tag `NoObj` and nothing.
#[derive(Clone, Copy, Debug, PartialEq)]
pub struct ReturnObj<V, L> {
    pub id: u64,
    pub obj_type: ObjType,
    pub entity: Option<Entity<V, L>>,
}

/// Reads slot `index` of the current snapshot; never fails.
#[allow(non_snake_case)]
pub fn getObj<V: Copy, L: Copy, S>(sim: &Sim<V, L, S>, index: usize) -> (r: ReturnObj<V, L>)
    ensures
        index < sim.current_state@.len() ==> r == (ReturnObj {
            id: sim.current_state@[index as int].id,
            obj_type: obj_type_of(sim.current_state@[index as int].entity),
            entity: Some(sim.current_state@[index as int].entity),
        }),
        index >= sim.current_state@.len() ==> r == (ReturnObj::<V, L> {
            id: 0,
            obj_type: ObjType::NoObj,
            entity: None,
        }),
{
    if index < sim.current_state.len() {
        let item = sim.current_state[index];
        ReturnObj { id: item.id, obj_type: item.entity.obj_type(), entity: Some(item.entity) }
    } else {
        ReturnObj { id: 0, obj_type: ObjType::NoObj, entity: None }
    }
}

/// Queues a move message for the entity with id `id`, to be delivered in the next tick.
#[allow(non_snake_case)]
pub fn addMovement<V, L, S>(sim: &mut Sim<V, L, S>, id: u64, forward: S, strafe: S, mouse: L)
    ensures
        final(sim).current_state@ == old(sim).current_state@,
        final(sim).messages@ == old(sim).messages@.push(
            MessageWithId { id, message: MoveMessage { forward, strafe, mouse_input: mouse } },
        ),
        old(sim).wf() ==> final(sim).wf(),
{
    sim.messages.push(MessageWithId { id, message: MoveMessage { forward, strafe, mouse_input: mouse } });
}

} // verus!
