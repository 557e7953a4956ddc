// A flock of boids, a player and static scenery in a 3-D arena, advanced one tick
// at a time. The types are generic over the vector and scalar types of the arena;
// the tick protocol (who sees what, which messages go where, what stays fixed) is
// stated and proved here, and the per-agent vector maths is handed in by the caller.

pub mod boids;
pub mod sim;
pub mod tick;

pub use sim::{addMovement, getObj, newSim, step, ObjType, ReturnObj, Sim};
