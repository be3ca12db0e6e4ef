use vstd::prelude::*;

verus! {

/// The kind of an entity, fixed when it is created.
#[derive(Clone, Copy, Debug, PartialEq, Eq, Hash, Structural)]
pub enum EntityType {
    Ant,
    Pheromone,
    Base,
    Sugar,
    Wall,
}

/// Marker stored for every ant.
#[derive(Clone, Copy, Debug)]
pub struct AntEntity {}

/// Marker stored for every food source.
#[derive(Clone, Copy, Debug)]
pub struct SugarEntity {}

/// Marker stored for every base.
#[derive(Clone, Copy, Debug)]
pub struct BaseEntity {}

/// Marker stored for every wall.
#[derive(Clone, Copy, Debug)]
pub struct WallEntity {}

/// Marker stored for every live pheromone.
#[derive(Clone, Copy, Debug)]
pub struct PheromoneEntity {}

/// Which trail a pheromone belongs to.
#[derive(Clone, Copy, Debug, PartialEq, Eq, Hash, Structural)]
pub enum PheromoneType {
    Base,
    Food,
}

} // verus!
