use vstd::prelude::*;
use crate::sim::ObjType;

verus! {

/// The cosmetic colour of a boid; carried unchanged from tick to tick.
#[derive(Clone, Copy, Debug, PartialEq, Eq, Structural)]
pub enum BoidColourKind {
    Green,
    Blue,
    Red,
    Orange,
    Purple,
    Yellow,
}

/// Number of boid colours handed out in turn at world start.
pub const COLOUR_COUNT: u64 = 6;

/// The colour at position `k` of the round-robin cycle (`k < COLOUR_COUNT`).
pub open spec fn colour_at(k: int) -> BoidColourKind {
    if k == 0 {
        BoidColourKind::Green
    } else if k == 1 {
        BoidColourKind::Blue
    } else if k == 2 {
        BoidColourKind::Red
    } else if k == 3 {
        BoidColourKind::Orange
    } else if k == 4 {
        BoidColourKind::Purple
    } else {
        BoidColourKind::Yellow
    }
}

impl BoidColourKind {
    /// Colour of the `i`-th boid created: the six colours in turn.
    pub fn for_index(i: u64) -> (r: BoidColourKind)
        ensures
            r == colour_at(i as int % COLOUR_COUNT as int),
    {
        let k: u64 = i % COLOUR_COUNT;
        if k == 0 {
            BoidColourKind::Green
        } else if k == 1 {
            BoidColourKind::Blue
        } else if k == 2 {
            BoidColourKind::Red
        } else if k == 3 {
            BoidColourKind::Orange
        } else if k == 4 {
            BoidColourKind::Purple
        } else {
            BoidColourKind::Yellow
        }
    }
}

/// How a plane is drawn; a render hint only.
#[derive(Clone, Copy, Debug, PartialEq, Eq, Structural)]
pub enum PlaneKind {
    Transparent,
    Ground,
}


/// A flocking agent. `V` is the 3-vector type of the arena; `direction` is
/// kept at unit length by whoever computes a boid's next state.
#[derive(Clone, Copy, Debug, PartialEq)]
pub struct Boid<V> {
    pub position: V,
    pub direction: V,
    pub colour: BoidColourKind,
}

/// The camera-controlled agent. `L` is the 2-vector type of the look state:
/// accumulated yaw/pitch in degrees, and its smoothed per-tick delta.
#[derive(Clone, Copy, Debug, PartialEq)]
pub struct Player<V, L> {
    pub position: V,
    pub direction: V,
    pub mouse_look: L,
    pub smooth_look: L,
}

/// One tick's input intent for a player. `S` is the scalar type.
#[derive(Clone, Copy, Debug, PartialEq)]
pub struct MoveMessage<S, L> {
    pub forward: S,
    pub strafe: S,
    pub mouse_input: L,
}

/// Static scenery: a bounding plane of the arena.
#[derive(Clone, Copy, Debug, PartialEq)]
pub struct Plane<V> {
    pub position: V,
    pub direction: V,
    pub texturing: PlaneKind,
}

/// Static scenery: a tree on the arena floor.
#[derive(Clone, Copy, Debug, PartialEq)]
pub struct Tree<V> {
    pub position: V,
    pub direction: V,
}

impl<V: Copy> Plane<V> {
    /// A plane does not move: its next state is its current state.
    pub fn update(&self) -> (r: Plane<V>)
        ensures
            r == *self,
    {
        *self
    }
}

impl<V: Copy> Tree<V> {
    /// A tree does not move: its next state is its current state.
    pub fn update(&self) -> (r: Tree<V>)
        ensures
            r == *self,
    {
        *self
    }
}

/// Any entity of the world, as a tagged union.
#[derive(Clone, Copy, Debug, PartialEq)]
pub enum Entity<V, L> {
    Boid(Boid<V>),
    Player(Player<V, L>),
    Plane(Plane<V>),
    Tree(Tree<V>),
}

/// The host-visible tag of an entity.
pub open spec fn obj_type_of<V, L>(e: Entity<V, L>) -> ObjType {
    match e {
        Entity::Boid(_) => ObjType::Boid,
        Entity::Player(_) => ObjType::Player,
        Entity::Plane(_) => ObjType::Plane,
        Entity::Tree(_) => ObjType::Tree,
    }
}

/// Whether an entity is static scenery, whose update is the identity.
pub open spec fn is_passive<V, L>(e: Entity<V, L>) -> bool {
    e is Plane || e is Tree
}

impl<V, L> Entity<V, L> {
    /// The tag of this entity's variant.
    pub fn obj_type(&self) -> (r: ObjType)
        ensures
            r == obj_type_of(*self),
    {
        match self {
            Entity::Boid(_) => ObjType::Boid,
            Entity::Player(_) => ObjType::Player,
            Entity::Plane(_) => ObjType::Plane,
            Entity::Tree(_) => ObjType::Tree,
        }
    }
}

/// An entity paired with its stable id.
#[derive(Clone, Copy, Debug, PartialEq)]
pub struct EntityWithId<V, L> {
    pub id: u64,
    pub entity: Entity<V, L>,
}

/// A message together with the id of the entity it is addressed to.
#[derive(Clone, Copy, Debug, PartialEq)]
pub struct MessageWithId<S, L> {
    pub id: u64,
    pub message: MoveMessage<S, L>,
}

/// The forward and strafe inputs of the last message in `mail`, if any: when
/// several messages arrive in one tick the last one's drive wins.
pub fn latest_drive<S: Copy, L>(mail: &Vec<MoveMessage<S, L>>) -> (r: Option<(S, S)>)
    ensures
        mail@.len() == 0 ==> r is None,
        mail@.len() > 0 ==> r == Some((mail@.last().forward, mail@.last().strafe)),
{
    if mail.len() == 0 {
        None
    } else {
        let last = &mail[mail.len() - 1];
        Some((last.forward, last.strafe))
    }
}

} // verus!
