use vstd::prelude::*;
use crate::entities::PheromoneType;

verus! {

/// Number of position units in one cell: positions and directions are kept
/// in hundredths of a cell, the precision at which ants move.
pub const CELL: i64 = 100;

/// Half a cell, in hundredths of a cell.
pub const HALF_CELL: i64 = 50;

/// Number of cells an ant remembers when no other size is given.
pub const DEFAULT_MEMORY_SIZE: usize = 16;

/// Generation counter of pheromone trails.
pub type PheromoneGenerationNr = u32;

/// The cell index along one axis of a coordinate given in hundredths:
/// the floor of the coordinate in cells, with negative coordinates in cell 0.
pub open spec fn coarse_axis(v: i64) -> u64 {
    if v < 0 {
        0
    } else {
        (v / CELL) as u64
    }
}

/// Executable form of `coarse_axis`.
pub fn coarse_axis_of(v: i64) -> (r: u64)
    ensures
        r == coarse_axis(v),
{
    if v < 0 {
        0
    } else {
        (v / CELL) as u64
    }
}

/// A point of the arena, in hundredths of a cell (`x == 250` is 2.5 cells).
#[derive(Clone, Copy, Debug, PartialEq, Eq, Structural)]
pub struct PositionComponent {
    pub x: i64,
    pub y: i64,
}

impl PositionComponent {
    /// The cell that holds this point.
    pub open spec fn cell(self) -> CoarsePositionComponent {
        CoarsePositionComponent { x: coarse_axis(self.x), y: coarse_axis(self.y) }
    }

    /// The key of that cell in the spatial index.
    pub open spec fn cell_key(self) -> (u64, u64) {
        (coarse_axis(self.x), coarse_axis(self.y))
    }

    /// The centre of cell (0, 0), where entities are created.
    pub open spec fn origin_centre() -> Self {
        PositionComponent { x: HALF_CELL, y: HALF_CELL }
    }
}

impl Default for PositionComponent {
    /// The centre of cell (0, 0).
    fn default() -> (r: Self)
        ensures
            r == Self::origin_centre(),
    {
        PositionComponent { x: HALF_CELL, y: HALF_CELL }
    }
}

/// A unit cell of the arena; the bucket of the spatial index.
#[derive(Clone, Copy, Debug, Default, PartialEq, Eq, Hash, Structural)]
pub struct CoarsePositionComponent {
    pub x: u64,
    pub y: u64,
}

impl CoarsePositionComponent {
    pub open spec fn spec_key(self) -> (u64, u64) {
        (self.x, self.y)
    }

    /// The key of this cell in the spatial index.
    pub fn key(&self) -> (r: (u64, u64))
        ensures
            r == self.spec_key(),
    {
        (self.x, self.y)
    }
}

impl From<PositionComponent> for CoarsePositionComponent {
    fn from(pos: PositionComponent) -> (r: Self)
        ensures
            r == pos.cell(),
    {
        CoarsePositionComponent { x: coarse_axis_of(pos.x), y: coarse_axis_of(pos.y) }
    }
}

impl vstd::std_specs::convert::FromSpecImpl<PositionComponent> for CoarsePositionComponent {
    open spec fn obeys_from_spec() -> bool {
        true
    }

    open spec fn from_spec(pos: PositionComponent) -> Self {
        pos.cell()
    }
}

/// Marks a food source.
#[derive(Clone, Copy, Debug, Default, PartialEq, Eq, Structural)]
pub struct EdibleComponent {}

/// The trail a pheromone belongs to.
#[derive(Clone, Copy, Debug, PartialEq, Eq, Structural)]
pub struct PheromoneTypeComponent {
    pub ph_type: PheromoneType,
}

/// The generation at which the first pheromone of a cell was laid.
#[derive(Clone, Copy, Debug, Default, PartialEq, Eq, Structural)]
pub struct PheromoneGenerationComponent {
    pub generation: PheromoneGenerationNr,
}

/// The strength of a pheromone.
#[derive(Clone, Copy, Debug, Default, PartialEq, Eq, Structural)]
pub struct IntensityComponent {
    pub strength: u32,
}

/// An ant laying a trail: for how many more ticks, and of which type.
#[derive(Clone, Copy, Debug, PartialEq, Eq, Structural)]
pub struct ReleasingPheromoneComponent {
    pub ticks_left: u32,
    pub ph_type: PheromoneType,
}

/// The last displacement of an entity, in hundredths of a cell.
#[derive(Clone, Copy, Debug, Default, PartialEq, Eq, Structural)]
pub struct DirectionComponent {
    pub x: i64,
    pub y: i64,
}

/// Marks an ant that carries food.
#[derive(Clone, Copy, Debug, Default, PartialEq, Eq, Structural)]
pub struct CarryingFoodComponent {}

/// Marks an ant that does not move.
#[derive(Clone, Copy, Debug, Default, PartialEq, Eq, Structural)]
pub struct BuilderComponent {}

/// Marks an entity whose cell cannot be entered.
#[derive(Clone, Copy, Debug, Default, PartialEq, Eq, Structural)]
pub struct ImpenetrableComponent {}

/// The cells an ant visited last, oldest first, at most `size` of them.
#[derive(Clone, Debug)]
pub struct ShortMemory {
    pub pos_queue: Vec<CoarsePositionComponent>,
    pub size: usize,
}

impl ShortMemory {
    pub open spec fn wf(&self) -> bool {
        &&& self.size > 0
        &&& self.pos_queue@.len() <= self.size
    }

    /// The remembered cells, oldest first.
    pub open spec fn view(&self) -> Seq<CoarsePositionComponent> {
        self.pos_queue@
    }

    /// The remembered cells after `cell` is visited: the oldest one leaves
    /// when the memory is full.
    pub open spec fn remembered(cells: Seq<CoarsePositionComponent>, size: nat, cell: CoarsePositionComponent) -> Seq<CoarsePositionComponent> {
        if cells.len() >= size {
            cells.subrange(1, cells.len() as int).push(cell)
        } else {
            cells.push(cell)
        }
    }

    /// An empty memory of `size` cells.
    pub fn new(size: usize) -> (r: Self)
        requires
            size > 0,
        ensures
            r.wf(),
            r@.len() == 0,
            r.size == size,
    {
        ShortMemory { pos_queue: Vec::new(), size }
    }

    /// Records a visit of `cell`.
    pub fn remember(&mut self, cell: CoarsePositionComponent)
        requires
            old(self).wf(),
        ensures
            final(self).wf(),
            final(self).size == old(self).size,
            final(self)@ == Self::remembered(old(self)@, old(self).size as nat, cell),
    {
        if self.pos_queue.len() >= self.size {
            self.pos_queue.remove(0);
        }
        self.pos_queue.push(cell);
    }

    /// Whether `cell` was visited recently.
    pub fn contains(&self, cell: &CoarsePositionComponent) -> (r: bool)
        ensures
            r == self@.contains(*cell),
    {
        let mut i: usize = 0;
        while i < self.pos_queue.len()
            invariant
                i <= self.pos_queue@.len(),
                forall|j: int| 0 <= j < i ==> self.pos_queue@[j] != *cell,
            decreases self.pos_queue@.len() - i,
        {
            if self.pos_queue[i] == *cell {
                return true;
            }
            i += 1;
        }
        false
    }

    /// Forgets every cell.
    pub fn clear(&mut self)
        requires
            old(self).wf(),
        ensures
            final(self).wf(),
            final(self).size == old(self).size,
            final(self)@.len() == 0,
    {
        self.pos_queue.clear();
    }
}

impl Default for ShortMemory {
    fn default() -> (r: Self)
        ensures
            r.wf(),
            r@.len() == 0,
            r.size == DEFAULT_MEMORY_SIZE,
    {
        ShortMemory::new(DEFAULT_MEMORY_SIZE)
    }
}

/// An ant that explores freely for a few more ticks.
#[derive(Clone, Copy, Debug, Default, PartialEq, Eq, Structural)]
pub struct AdventurousComponent {
    pub ticks_left: u32,
}

} // verus!
