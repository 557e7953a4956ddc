use vstd::prelude::*;
use crate::boids::{is_passive, Boid, Entity, EntityWithId, MessageWithId, MoveMessage, Player};

verus! {

/// The boids of snapshot `s` other than the entity with id `id`, in snapshot order:
/// the candidates a boid with that id looks at for neighbours.
pub open spec fn other_boids_of<V, L>(s: Seq<EntityWithId<V, L>>, id: u64) -> Seq<Boid<V>>
    decreases s.len(),
{
    if s.len() == 0 {
        seq![]
    } else {
        let rest = other_boids_of(s.drop_last(), id);
        match s.last().entity {
            Entity::Boid(b) => if s.last().id != id {
                rest.push(b)
            } else {
                rest
            },
            _ => rest,
        }
    }
}

/// The messages of `msgs` addressed to `id`, in the order they were queued.
pub open spec fn inbox_of<S, L>(msgs: Seq<MessageWithId<S, L>>, id: u64) -> Seq<MoveMessage<S, L>>
    decreases msgs.len(),
{
    if msgs.len() == 0 {
        seq![]
    } else {
        let rest = inbox_of(msgs.drop_last(), id);
        if msgs.last().id == id {
            rest.push(msgs.last().message)
        } else {
            rest
        }
    }
}

/// Collects the boids of `snapshot` whose id differs from `id`.
pub fn other_boids<V: Copy, L: Copy>(snapshot: &Vec<EntityWithId<V, L>>, id: u64) -> (r: Vec<Boid<V>>)
    ensures
        r@ == other_boids_of(snapshot@, id),
{
    let mut r: Vec<Boid<V>> = Vec::new();
    let mut i: usize = 0;
    while i < snapshot.len()
        invariant
            i <= snapshot@.len(),
            r@ == other_boids_of(snapshot@.subrange(0, i as int), id),
        decreases snapshot@.len() - i,
    {
        let item = snapshot[i];
        assert(snapshot@.subrange(0, i + 1).drop_last() =~= snapshot@.subrange(0, i as int));
        match item.entity {
            Entity::Boid(b) => {
                if item.id != id {
                    r.push(b);
                }
            },
            _ => {},
        }
        i = i + 1;
    }
    assert(snapshot@.subrange(0, i as int) =~= snapshot@);
    r
}

/// Collects the messages of `msgs` addressed to `id`, in queue order.
pub fn inbox<S: Copy, L: Copy>(msgs: &Vec<MessageWithId<S, L>>, id: u64) -> (r: Vec<MoveMessage<S, L>>)
    ensures
        r@ == inbox_of(msgs@, id),
{
    let mut r: Vec<MoveMessage<S, L>> = Vec::new();
    let mut i: usize = 0;
    while i < msgs.len()
        invariant
            i <= msgs@.len(),
            r@ == inbox_of(msgs@.subrange(0, i as int), id),
        decreases msgs@.len() - i,
    {
        let item = msgs[i];
        assert(msgs@.subrange(0, i + 1).drop_last() =~= msgs@.subrange(0, i as int));
        if item.id == id {
            r.push(item.message);
        }
        i = i + 1;
    }
    assert(msgs@.subrange(0, i as int) =~= msgs@);
    r
}

} // verus!

verus! {

/// `nb` is a possible result of `boid_update` on boid `b` and a vector holding `others`.
pub open spec fn boid_next<V, FB>(b: Boid<V>, others: Seq<Boid<V>>, nb: Boid<V>, boid_update: FB) -> bool where
    FB: Fn(&Boid<V>, &Vec<Boid<V>>) -> Boid<V>,
 {
    exists|o: Vec<Boid<V>>| o@ == others && #[trigger] boid_update.ensures((&b, &o), nb)
}

/// `np` is a possible result of `player_update` on player `p` and a vector holding `mail`.
pub open spec fn player_next<V, L, S, FP>(
    p: Player<V, L>,
    mail: Seq<MoveMessage<S, L>>,
    np: Player<V, L>,
    player_update: FP,
) -> bool where
    FP: Fn(&Player<V, L>, &Vec<MoveMessage<S, L>>) -> Player<V, L>,
 {
    exists|m: Vec<MoveMessage<S, L>>| m@ == mail && #[trigger] player_update.ensures((&p, &m), np)
}

/// `next` is a state that the entry at index `i` of snapshot `s` may take after one
/// tick in which `msgs` were queued: the id stays; a boid gets what `boid_update`
/// returns on it and the other boids of `s`; a player what `player_update` returns on
/// it and the messages addressed to its id; a plane or a tree stays as it was.
pub open spec fn entry_next<V, L, S, FB, FP>(
    s: Seq<EntityWithId<V, L>>,
    msgs: Seq<MessageWithId<S, L>>,
    i: int,
    next: EntityWithId<V, L>,
    boid_update: FB,
    player_update: FP,
) -> bool where
    FB: Fn(&Boid<V>, &Vec<Boid<V>>) -> Boid<V>,
    FP: Fn(&Player<V, L>, &Vec<MoveMessage<S, L>>) -> Player<V, L>,
 {
    &&& next.id == s[i].id
    &&& match (s[i].entity, next.entity) {
        (Entity::Boid(b), Entity::Boid(nb)) => boid_next(
            b,
            other_boids_of(s, s[i].id),
            nb,
            boid_update,
        ),
        (Entity::Player(p), Entity::Player(np)) => player_next(
            p,
            inbox_of(msgs, s[i].id),
            np,
            player_update,
        ),
        (Entity::Plane(_), _) => next.entity == s[i].entity,
        (Entity::Tree(_), _) => next.entity == s[i].entity,
        _ => false,
    }
}

/// `t` is a snapshot that one tick may produce from snapshot `s` with `msgs` queued:
/// the same length, and each slot the next state of the entry in the same slot.
pub open spec fn tick_next<V, L, S, FB, FP>(
    s: Seq<EntityWithId<V, L>>,
    msgs: Seq<MessageWithId<S, L>>,
    t: Seq<EntityWithId<V, L>>,
    boid_update: FB,
    player_update: FP,
) -> bool where
    FB: Fn(&Boid<V>, &Vec<Boid<V>>) -> Boid<V>,
    FP: Fn(&Player<V, L>, &Vec<MoveMessage<S, L>>) -> Player<V, L>,
 {
    &&& t.len() == s.len()
    &&& forall|i: int|
        0 <= i < s.len() ==> #[trigger] entry_next(s, msgs, i, t[i], boid_update, player_update)
}

/// Computes the next state of every entry of `snapshot`, each from `snapshot`
/// as it was at the start of the tick, in the same order.
pub fn next_snapshot<V: Copy, L: Copy, S: Copy, FB, FP>(
    snapshot: &Vec<EntityWithId<V, L>>,
    msgs: &Vec<MessageWithId<S, L>>,
    boid_update: FB,
    player_update: FP,
) -> (r: Vec<EntityWithId<V, L>>) where
    FB: Fn(&Boid<V>, &Vec<Boid<V>>) -> Boid<V>,
    FP: Fn(&Player<V, L>, &Vec<MoveMessage<S, L>>) -> Player<V, L>,

    requires
        forall|b: &Boid<V>, o: &Vec<Boid<V>>| boid_update.requires((b, o)),
        forall|p: &Player<V, L>, m: &Vec<MoveMessage<S, L>>| player_update.requires((p, m)),
    ensures
        tick_next(snapshot@, msgs@, r@, boid_update, player_update),
{
    let mut r: Vec<EntityWithId<V, L>> = Vec::new();
    let mut i: usize = 0;
    while i < snapshot.len()
        invariant
            i <= snapshot@.len(),
            r@.len() == i,
            forall|b: &Boid<V>, o: &Vec<Boid<V>>| boid_update.requires((b, o)),
            forall|p: &Player<V, L>, m: &Vec<MoveMessage<S, L>>| player_update.requires((p, m)),
            forall|j: int|
                0 <= j < i ==> #[trigger] entry_next(
                    snapshot@,
                    msgs@,
                    j,
                    r@[j],
                    boid_update,
                    player_update,
                ),
        decreases snapshot@.len() - i,
    {
        let item = snapshot[i];
        let next = match item.entity {
            Entity::Boid(b) => {
                let others = other_boids(snapshot, item.id);
                let nb = boid_update(&b, &others);
                let e = EntityWithId { id: item.id, entity: Entity::Boid(nb) };
                assert(boid_next(b, others@, nb, boid_update)) by {
                    assert(boid_update.ensures((&b, &others), nb));
                }
                e
            },
            Entity::Player(p) => {
                let mail = inbox(msgs, item.id);
                let np = player_update(&p, &mail);
                let e = EntityWithId { id: item.id, entity: Entity::Player(np) };
                assert(player_next(p, mail@, np, player_update)) by {
                    assert(player_update.ensures((&p, &mail), np));
                }
                e
            },
            Entity::Plane(pl) => EntityWithId { id: item.id, entity: Entity::Plane(pl.update()) },
            Entity::Tree(t) => EntityWithId { id: item.id, entity: Entity::Tree(t.update()) },
        };
        assert(entry_next(snapshot@, msgs@, i as int, next, boid_update, player_update));
        r.push(next);
        i = i + 1;
    }
    r
}

} // verus!

verus! {

/// A message queued for one id never reaches the inbox of another id.
pub proof fn lemma_inbox_ignores_other_ids<S, L>(
    msgs: Seq<MessageWithId<S, L>>,
    target: u64,
    m: MoveMessage<S, L>,
    id: u64,
)
    requires
        id != target,
    ensures
        inbox_of(msgs.push(MessageWithId { id: target, message: m }), id) == inbox_of(msgs, id),
{
    let pushed = msgs.push(MessageWithId { id: target, message: m });
    assert(pushed.drop_last() =~= msgs);
}

/// Message isolation: queueing a message for id `target` does not change what one
/// tick may make of any entity whose id is not `target`.
pub proof fn lemma_message_isolation<V, L, S, FB, FP>(
    s: Seq<EntityWithId<V, L>>,
    msgs: Seq<MessageWithId<S, L>>,
    target: u64,
    m: MoveMessage<S, L>,
    i: int,
    next: EntityWithId<V, L>,
    boid_update: FB,
    player_update: FP,
) where
    FB: Fn(&Boid<V>, &Vec<Boid<V>>) -> Boid<V>,
    FP: Fn(&Player<V, L>, &Vec<MoveMessage<S, L>>) -> Player<V, L>,

    requires
        0 <= i < s.len(),
        s[i].id != target,
    ensures
        entry_next(
            s,
            msgs.push(MessageWithId { id: target, message: m }),
            i,
            next,
            boid_update,
            player_update,
        ) == entry_next(s, msgs, i, next, boid_update, player_update),
{
    lemma_inbox_ignores_other_ids(msgs, target, m, s[i].id);
}

/// Every entity of `s` is static scenery (a plane or a tree).
pub open spec fn is_static_world<V, L>(s: Seq<EntityWithId<V, L>>) -> bool {
    forall|i: int| 0 <= i < s.len() ==> #[trigger] is_passive(s[i].entity)
}

/// A tick leaves a world of static scenery exactly as it was, whatever messages
/// were queued.
pub proof fn lemma_static_tick_is_identity<V, L, S, FB, FP>(
    s: Seq<EntityWithId<V, L>>,
    msgs: Seq<MessageWithId<S, L>>,
    t: Seq<EntityWithId<V, L>>,
    boid_update: FB,
    player_update: FP,
) where
    FB: Fn(&Boid<V>, &Vec<Boid<V>>) -> Boid<V>,
    FP: Fn(&Player<V, L>, &Vec<MoveMessage<S, L>>) -> Player<V, L>,

    requires
        is_static_world(s),
        tick_next(s, msgs, t, boid_update, player_update),
    ensures
        t == s,
{
    assert forall|i: int| 0 <= i < s.len() implies t[i] == s[i] by {
        assert(is_passive(s[i].entity));
        assert(entry_next(s, msgs, i, t[i], boid_update, player_update));
    }
    assert(t =~= s);
}

/// Stepping a world of static scenery any number of times leaves the snapshot
/// unchanged: if each snapshot of `ticks` is what one tick makes of the one
/// before it, all of them equal the first.
pub proof fn lemma_static_world_is_fixed<V, L, S, FB, FP>(
    ticks: Seq<Seq<EntityWithId<V, L>>>,
    msgs: Seq<Seq<MessageWithId<S, L>>>,
    boid_update: FB,
    player_update: FP,
) where
    FB: Fn(&Boid<V>, &Vec<Boid<V>>) -> Boid<V>,
    FP: Fn(&Player<V, L>, &Vec<MoveMessage<S, L>>) -> Player<V, L>,

    requires
        ticks.len() > 0,
        msgs.len() + 1 >= ticks.len(),
        is_static_world(ticks[0]),
        forall|k: int|
            0 <= k < ticks.len() - 1 ==> #[trigger] tick_next(
                ticks[k],
                msgs[k],
                ticks[k + 1],
                boid_update,
                player_update,
            ),
    ensures
        forall|k: int| 0 <= k < ticks.len() ==> #[trigger] ticks[k] == ticks[0],
    decreases ticks.len(),
{
    if ticks.len() > 1 {
        let prefix = ticks.drop_last();
        assert forall|k: int| 0 <= k < prefix.len() - 1 implies #[trigger] tick_next(
            prefix[k],
            msgs[k],
            prefix[k + 1],
            boid_update,
            player_update,
        ) by {
            assert(tick_next(ticks[k], msgs[k], ticks[k + 1], boid_update, player_update));
        }
        lemma_static_world_is_fixed(prefix, msgs, boid_update, player_update);
        let k = ticks.len() - 2;
        assert(prefix[k] == ticks[0]);
        assert(tick_next(ticks[k], msgs[k], ticks[k + 1], boid_update, player_update));
        lemma_static_tick_is_identity(ticks[k], msgs[k], ticks[k + 1], boid_update, player_update);
        assert forall|j: int| 0 <= j < ticks.len() implies #[trigger] ticks[j] == ticks[0] by {
            if j < prefix.len() {
                assert(prefix[j] == ticks[j]);
            }
        }
    }
}

} // verus!
