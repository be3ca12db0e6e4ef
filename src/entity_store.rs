use vstd::prelude::*;
use std::collections::BTreeMap;
use crate::components::{
    AdventurousComponent, BuilderComponent, CarryingFoodComponent, CoarsePositionComponent,
    DirectionComponent, EdibleComponent, ImpenetrableComponent, IntensityComponent,
    PheromoneGenerationComponent, PheromoneGenerationNr, PositionComponent,
    ReleasingPheromoneComponent, ShortMemory, DEFAULT_MEMORY_SIZE,
};
use crate::entities::{
    AntEntity, BaseEntity, EntityType, PheromoneEntity, PheromoneType, SugarEntity, WallEntity,
};

verus! {

/// Identifier of an entity: handed out in increasing order, never reused.
pub type EntityIndex = usize;

/// Largest magnitude of a coordinate that the store holds, in hundredths of
/// a cell (ten billion cells).
pub const COORD_LIMIT: i64 = 1_000_000_000_000;

/// Whether both coordinates of `p` are within `COORD_LIMIT`.
pub open spec fn coord_ok(p: PositionComponent) -> bool {
    -COORD_LIMIT <= p.x <= COORD_LIMIT && -COORD_LIMIT <= p.y <= COORD_LIMIT
}

/// Whether both components of `d` are at most twice `COORD_LIMIT` in
/// magnitude, as is every displacement between two positions of the store.
pub open spec fn dir_ok(d: DirectionComponent) -> bool {
    -2 * COORD_LIMIT <= d.x <= 2 * COORD_LIMIT && -2 * COORD_LIMIT <= d.y <= 2 * COORD_LIMIT
}

/// Whether every key of `m` is below `n`.
pub open spec fn keys_below<V>(m: Map<EntityIndex, V>, n: EntityIndex) -> bool {
    forall|i: EntityIndex| #[trigger] m.contains_key(i) ==> i < n
}

/// Whether every key of `a` is a key of `b`.
pub open spec fn keys_within<V, W>(a: Map<EntityIndex, V>, b: Map<EntityIndex, W>) -> bool {
    forall|i: EntityIndex| #[trigger] a.contains_key(i) ==> b.contains_key(i)
}

/// The positions of entities, their last displacements, and a spatial index
/// from each cell to the entities whose position lies in it.
pub struct PositionIndex {
    positions: BTreeMap<EntityIndex, PositionComponent>,
    positions_lookup: BTreeMap<(u64, u64), Vec<EntityIndex>>,
    directions: BTreeMap<EntityIndex, DirectionComponent>,
}

impl PositionIndex {
    /// The position of each placed entity.
    pub closed spec fn pos_map(&self) -> Map<EntityIndex, PositionComponent> {
        self.positions@
    }

    /// The last displacement of each entity that has moved.
    pub closed spec fn dir_map(&self) -> Map<EntityIndex, DirectionComponent> {
        self.directions@
    }

    /// The spatial index holds each placed entity in the bucket of its
    /// cell, and nothing else; every coordinate is within `COORD_LIMIT`.
    pub closed spec fn wf(&self) -> bool {
        &&& forall|k: (u64, u64)| #[trigger]
            self.positions_lookup@.contains_key(k) ==> {
                let ids = self.positions_lookup@[k]@;
                &&& ids.len() > 0
                &&& ids.no_duplicates()
                &&& forall|j: int|
                    0 <= j < ids.len() ==> self.positions@.contains_key(#[trigger] ids[j])
                        && self.positions@[ids[j]].cell_key() == k
            }
        &&& forall|i: EntityIndex| #[trigger]
            self.positions@.contains_key(i) ==> {
                let k = self.positions@[i].cell_key();
                self.positions_lookup@.contains_key(k) && self.positions_lookup@[k]@.contains(i)
            }
        &&& forall|i: EntityIndex| #[trigger]
            self.positions@.contains_key(i) ==> coord_ok(self.positions@[i])
        &&& forall|i: EntityIndex| #[trigger]
            self.directions@.contains_key(i) ==> dir_ok(self.directions@[i])
        &&& keys_within(self.directions@, self.positions@)
    }

    /// An empty index.
    pub fn new() -> (r: Self)
        ensures
            r.wf(),
            r.pos_map() == Map::<EntityIndex, PositionComponent>::empty(),
            r.dir_map() == Map::<EntityIndex, DirectionComponent>::empty(),
    {
        PositionIndex {
            positions: BTreeMap::new(),
            positions_lookup: BTreeMap::new(),
            directions: BTreeMap::new(),
        }
    }

    /// The position of `id`, if it has one.
    pub fn get(&self, id: EntityIndex) -> (r: Option<&PositionComponent>)
        ensures
            match r {
                Some(p) => self.pos_map().contains_key(id) && *p == self.pos_map()[id] && (self.wf() ==> coord_ok(*p)),
                None => !self.pos_map().contains_key(id),
            },
    {
        self.positions.get(&id)
    }

    /// The last displacement of `id`, if it has moved.
    pub fn get_direction(&self, id: EntityIndex) -> (r: Option<&DirectionComponent>)
        ensures
            match r {
                Some(d) => self.dir_map().contains_key(id) && *d == self.dir_map()[id] && (self.wf() ==> dir_ok(*d)),
                None => !self.dir_map().contains_key(id),
            },
    {
        self.directions.get(&id)
    }

    /// The entities whose position lies in `cell`, or `None` where there are none.
    pub fn ids_at(&self, cell: (u64, u64)) -> (r: Option<&Vec<EntityIndex>>)
        requires
            self.wf(),
        ensures
            match r {
                Some(ids) => {
                    &&& ids@.len() > 0
                    &&& ids@.no_duplicates()
                    &&& forall|i: EntityIndex| #[trigger] ids@.contains(i) <==>
                        (self.pos_map().contains_key(i) && self.pos_map()[i].cell_key() == cell)
                },
                None => forall|i: EntityIndex| #[trigger] self.pos_map().contains_key(i)
                    ==> self.pos_map()[i].cell_key() != cell,
            },
    {
        let r = self.positions_lookup.get(&cell);
        proof {
            match r {
                Some(ids) => {
                    assert forall|i: EntityIndex| #[trigger] ids@.contains(i) <==>
                        (self.positions@.contains_key(i) && self.positions@[i].cell_key() == cell) by {
                        if ids@.contains(i) {
                            let j = choose|j: int| 0 <= j < ids@.len() && ids@[j] == i;
                            assert(self.positions@.contains_key(ids@[j]));
                        }
                    }
                },
                None => {},
            }
        }
        r
    }

    /// Places `id` at `new_pos`. Where `id` had a position, its displacement
    /// from there becomes its direction.
    fn set(&mut self, id: EntityIndex, new_pos: &PositionComponent)
        requires
            old(self).wf(),
            coord_ok(*new_pos),
        ensures
            final(self).wf(),
            final(self).pos_map() == old(self).pos_map().insert(id, *new_pos),
            final(self).dir_map() == (if old(self).pos_map().contains_key(id) {
                old(self).dir_map().insert(id, displacement(old(self).pos_map()[id], *new_pos))
            } else {
                old(self).dir_map()
            }),
    {
        self.unlink(id);
        let ghost mid = *self;
        let old_pos = self.positions.get(&id);
        match old_pos {
            Some(op) => {
                let d = DirectionComponent { x: new_pos.x - op.x, y: new_pos.y - op.y };
                self.directions.insert(id, d);
            },
            None => {},
        }
        self.positions.insert(id, *new_pos);
        let key = CoarsePositionComponent::from(*new_pos).key();
        let bucket = self.positions_lookup.remove(&key);
        let mut ids: Vec<EntityIndex> = match bucket {
            Some(b) => b,
            None => Vec::new(),
        };
        proof {
            assert(!ids@.contains(id)) by {
                if ids@.contains(id) {
                    let j = choose|j: int| 0 <= j < ids@.len() && ids@[j] == id;
                    assert(mid.positions_lookup@.contains_key(key));
                    assert(mid.positions@.contains_key(mid.positions_lookup@[key]@[j]));
                }
            }
        }
        ids.push(id);
        self.positions_lookup.insert(key, ids);
        proof {
            let m = *self;
            assert forall|k: (u64, u64)| #[trigger] m.positions_lookup@.contains_key(k) implies {
                let b = m.positions_lookup@[k]@;
                &&& b.len() > 0
                &&& b.no_duplicates()
                &&& forall|j: int| 0 <= j < b.len() ==> m.positions@.contains_key(#[trigger] b[j])
                    && m.positions@[b[j]].cell_key() == k
            } by {
                if k != key {
                    assert(mid.positions_lookup@.contains_key(k));
                    let b = m.positions_lookup@[k]@;
                    assert forall|j: int| 0 <= j < b.len() implies m.positions@.contains_key(#[trigger] b[j])
                        && m.positions@[b[j]].cell_key() == k by {
                        assert(mid.positions@.contains_key(b[j]));
                        assert(b[j] != id);
                    }
                } else {
                    let b = m.positions_lookup@[k]@;
                    assert forall|j: int| 0 <= j < b.len() implies m.positions@.contains_key(#[trigger] b[j])
                        && m.positions@[b[j]].cell_key() == k by {
                        if j < b.len() - 1 {
                            assert(mid.positions_lookup@.contains_key(k));
                            assert(mid.positions@.contains_key(b[j]));
                        }
                    }
                }
            }
            assert forall|i: EntityIndex| #[trigger] m.positions@.contains_key(i) implies {
                let k = m.positions@[i].cell_key();
                m.positions_lookup@.contains_key(k) && m.positions_lookup@[k]@.contains(i)
            } by {
                if i != id {
                    assert(mid.positions@.contains_key(i));
                    let k = m.positions@[i].cell_key();
                    if k == key {
                        let j = choose|j: int| 0 <= j < mid.positions_lookup@[k]@.len() && mid.positions_lookup@[k]@[j] == i;
                        assert(m.positions_lookup@[k]@[j] == i);
                    }
                } else {
                    assert(m.positions_lookup@[key]@.last() == id);
                }
            }
        }
    }

    /// Takes `id` out of the spatial index and drops its direction; its
    /// position stays recorded, so that the index is consistent again once
    /// the position is replaced or removed.
    fn unlink(&mut self, id: EntityIndex)
        requires
            old(self).wf(),
        ensures
            final(self).positions@ == old(self).positions@,
            final(self).directions@ == old(self).directions@,
            forall|k: (u64, u64)| #[trigger] final(self).positions_lookup@.contains_key(k) ==> {
                let ids = final(self).positions_lookup@[k]@;
                &&& ids.len() > 0
                &&& ids.no_duplicates()
                &&& forall|j: int|
                    0 <= j < ids.len() ==> final(self).positions@.contains_key(#[trigger] ids[j])
                        && #[trigger] ids[j] != id
                        && final(self).positions@[ids[j]].cell_key() == k
            },
            forall|i: EntityIndex| #[trigger] final(self).positions@.contains_key(i) && i != id ==> {
                let k = final(self).positions@[i].cell_key();
                final(self).positions_lookup@.contains_key(k) && final(self).positions_lookup@[k]@.contains(i)
            },
            forall|i: EntityIndex| #[trigger] final(self).positions@.contains_key(i) ==> coord_ok(final(self).positions@[i]),
            forall|i: EntityIndex| #[trigger] final(self).directions@.contains_key(i) ==> dir_ok(final(self).directions@[i]),
            keys_within(final(self).directions@, final(self).positions@),
    {
        let ghost pre = *self;
        match self.positions.get(&id) {
            Some(op) => {
                let key = CoarsePositionComponent::from(*op).key();
                let bucket = self.positions_lookup.remove(&key);
                match bucket {
                    Some(b) => {
                        let rest = without(&b, id);
                        if rest.len() > 0 {
                            self.positions_lookup.insert(key, rest);
                        }
                        proof {
                            let m = *self;
                            assert forall|k: (u64, u64)| #[trigger] m.positions_lookup@.contains_key(k) implies {
                                let ids = m.positions_lookup@[k]@;
                                &&& ids.len() > 0
                                &&& ids.no_duplicates()
                                &&& forall|j: int|
                                    0 <= j < ids.len() ==> m.positions@.contains_key(#[trigger] ids[j])
                                        && #[trigger] ids[j] != id
                                        && m.positions@[ids[j]].cell_key() == k
                            } by {
                                let ids = m.positions_lookup@[k]@;
                                assert forall|j: int| 0 <= j < ids.len() implies m.positions@.contains_key(#[trigger] ids[j])
                                    && #[trigger] ids[j] != id && m.positions@[ids[j]].cell_key() == k by {
                                    if k == key {
                                        assert(rest@.contains(ids[j]));
                                        assert(b@.contains(ids[j]));
                                        let jj = choose|jj: int| 0 <= jj < b@.len() && b@[jj] == ids[j];
                                        assert(pre.positions@.contains_key(b@[jj]));
                                    } else {
                                        assert(pre.positions_lookup@.contains_key(k));
                                        assert(pre.positions@.contains_key(ids[j]));
                                        if ids[j] == id {
                                            assert(pre.positions_lookup@[key]@.contains(id));
                                        }
                                    }
                                }
                            }
                            assert forall|i: EntityIndex| #[trigger] m.positions@.contains_key(i) && i != id implies {
                                let k = m.positions@[i].cell_key();
                                m.positions_lookup@.contains_key(k) && m.positions_lookup@[k]@.contains(i)
                            } by {
                                let k = m.positions@[i].cell_key();
                                if k == key {
                                    assert(rest@.contains(i));
                                }
                            }
                        }
                    },
                    None => {},
                }
            },
            None => {
                proof {
                    let m = *self;
                    assert forall|k: (u64, u64)| #[trigger] m.positions_lookup@.contains_key(k) implies {
                        let ids = m.positions_lookup@[k]@;
                        &&& ids.len() > 0
                        &&& ids.no_duplicates()
                        &&& forall|j: int|
                            0 <= j < ids.len() ==> m.positions@.contains_key(#[trigger] ids[j])
                                && #[trigger] ids[j] != id
                                && m.positions@[ids[j]].cell_key() == k
                    } by {
                        let ids = m.positions_lookup@[k]@;
                        assert forall|j: int| 0 <= j < ids.len() implies m.positions@.contains_key(#[trigger] ids[j])
                            && #[trigger] ids[j] != id && m.positions@[ids[j]].cell_key() == k by {
                            assert(m.positions@.contains_key(ids[j]));
                        }
                    }
                }
            },
        }
    }

    /// Removes the position and the direction of `id`.
    fn remove(&mut self, id: EntityIndex)
        requires
            old(self).wf(),
        ensures
            final(self).wf(),
            final(self).pos_map() == old(self).pos_map().remove(id),
            final(self).dir_map() == old(self).dir_map().remove(id),
    {
        self.unlink(id);
        self.positions.remove(&id);
        self.directions.remove(&id);
        proof {
            let m = *self;
            assert forall|k: (u64, u64)| #[trigger] m.positions_lookup@.contains_key(k) implies {
                let b = m.positions_lookup@[k]@;
                &&& b.len() > 0
                &&& b.no_duplicates()
                &&& forall|j: int| 0 <= j < b.len() ==> m.positions@.contains_key(#[trigger] b[j])
                    && m.positions@[b[j]].cell_key() == k
            } by {
                let b = m.positions_lookup@[k]@;
                assert forall|j: int| 0 <= j < b.len() implies m.positions@.contains_key(#[trigger] b[j])
                    && m.positions@[b[j]].cell_key() == k by {
                    assert(b[j] != id);
                }
            }
        }
    }
}

/// The displacement from `from` to `to`.
pub open spec fn displacement(from: PositionComponent, to: PositionComponent) -> DirectionComponent {
    DirectionComponent { x: (to.x - from.x) as i64, y: (to.y - from.y) as i64 }
}

/// `ids` without `id`, in the same order.
fn without(ids: &Vec<EntityIndex>, id: EntityIndex) -> (r: Vec<EntityIndex>)
    requires
        ids@.no_duplicates(),
    ensures
        r@.no_duplicates(),
        forall|x: EntityIndex| #[trigger] r@.contains(x) <==> (ids@.contains(x) && x != id),
{
    let mut r: Vec<EntityIndex> = Vec::new();
    let mut i: usize = 0;
    while i < ids.len()
        invariant
            i <= ids@.len(),
            ids@.no_duplicates(),
            r@.no_duplicates(),
            forall|x: EntityIndex| #[trigger] r@.contains(x) <==> (exists|j: int| 0 <= j < i && ids@[j] == x) && x != id,
        decreases ids@.len() - i,
    {
        let x = ids[i];
        if x != id {
            proof {
                assert(!r@.contains(x)) by {
                    if r@.contains(x) {
                        let j = choose|j: int| 0 <= j < i && ids@[j] == x;
                    }
                }
            }
            let ghost prev = r@;
            r.push(x);
            proof {
                assert forall|y: EntityIndex| #[trigger] r@.contains(y) <==> (exists|j: int| 0 <= j < i + 1 && ids@[j] == y) && y != id by {
                    if y == x {
                        assert(r@[r@.len() - 1] == x);
                    } else if r@.contains(y) {
                        let k = choose|k: int| 0 <= k < r@.len() && r@[k] == y;
                        assert(prev[k] == y);
                        assert(prev.contains(y));
                    } else if y != id && exists|j: int| 0 <= j < i + 1 && ids@[j] == y {
                        let j = choose|j: int| 0 <= j < i + 1 && ids@[j] == y;
                        assert(j < i);
                        assert(prev.contains(y));
                        let k = choose|k: int| 0 <= k < prev.len() && prev[k] == y;
                        assert(r@[k] == y);
                    }
                }
            }
        } else {
            proof {
                assert forall|y: EntityIndex| #[trigger] r@.contains(y) <==> (exists|j: int| 0 <= j < i + 1 && ids@[j] == y) && y != id by {
                    if exists|j: int| 0 <= j < i + 1 && ids@[j] == y && y != id {
                        let j = choose|j: int| 0 <= j < i + 1 && ids@[j] == y;
                        assert(j < i);
                    }
                }
            }
        }
        i += 1;
    }
    proof {
        assert forall|x: EntityIndex| #[trigger] r@.contains(x) <==> (ids@.contains(x) && x != id) by {
            if ids@.contains(x) && x != id {
                let j = choose|j: int| 0 <= j < ids@.len() && ids@[j] == x;
            }
        }
    }
    r
}


/// All component tables of the simulation, and a spatial index from each
/// cell to the entities whose position lies in it.
pub struct EntityStore {
    pub new_index: EntityIndex,
    pub pheromone_generation: PheromoneGenerationNr,
    pub entity_types: BTreeMap<EntityIndex, EntityType>,
    pub ants: BTreeMap<EntityIndex, AntEntity>,
    pub pheromones: BTreeMap<EntityIndex, PheromoneEntity>,
    pub sugars: BTreeMap<EntityIndex, SugarEntity>,
    pub bases: BTreeMap<EntityIndex, BaseEntity>,
    pub walls: BTreeMap<EntityIndex, WallEntity>,
    pub positions: PositionIndex,
    pub edibles: BTreeMap<EntityIndex, EdibleComponent>,
    pub releasing_pheromones: BTreeMap<EntityIndex, ReleasingPheromoneComponent>,
    pub pheromone_generations: BTreeMap<EntityIndex, PheromoneGenerationComponent>,
    pub intensities: BTreeMap<EntityIndex, IntensityComponent>,
    pub pheromone_types: BTreeMap<EntityIndex, PheromoneType>,
    pub carrying_food: BTreeMap<EntityIndex, CarryingFoodComponent>,
    pub builders: BTreeMap<EntityIndex, BuilderComponent>,
    pub impenetrables: BTreeMap<EntityIndex, ImpenetrableComponent>,
    pub memories: BTreeMap<EntityIndex, ShortMemory>,
    pub adventurous: BTreeMap<EntityIndex, AdventurousComponent>,
    pub food_in_base: u32,
}

impl EntityStore {
    /// The position of each placed entity.
    pub open spec fn pos_map(&self) -> Map<EntityIndex, PositionComponent> {
        self.positions.pos_map()
    }

    /// The last displacement of each entity that has moved.
    pub open spec fn dir_map(&self) -> Map<EntityIndex, DirectionComponent> {
        self.positions.dir_map()
    }

    /// Whether entity `id` stands in `cell`.
    pub open spec fn is_at(&self, id: EntityIndex, cell: (u64, u64)) -> bool {
        self.pos_map().contains_key(id) && self.pos_map()[id].cell_key() == cell
    }

    /// Whether entity `id` is of type `t`.
    pub open spec fn has_type(&self, id: EntityIndex, t: EntityType) -> bool {
        self.entity_types@.contains_key(id) && self.entity_types@[id] == t
    }

    /// Whether an entity of type `t` stands in `cell`.
    pub open spec fn has_type_at(&self, cell: (u64, u64), t: EntityType) -> bool {
        exists|id: EntityIndex| self.is_at(id, cell) && #[trigger] self.has_type(id, t)
    }

    /// Whether an impenetrable entity stands in `cell`.
    pub open spec fn impenetrable_at(&self, cell: (u64, u64)) -> bool {
        exists|id: EntityIndex| self.is_at(id, cell) && #[trigger] self.impenetrables@.contains_key(id)
    }

    /// Whether `id` is a live pheromone of type `t` in `cell`.
    pub open spec fn is_pheromone_at(&self, id: EntityIndex, cell: (u64, u64), t: PheromoneType) -> bool {
        &&& self.is_at(id, cell)
        &&& self.pheromone_types@.contains_key(id)
        &&& self.pheromone_types@[id] == t
    }

    /// The live pheromone of type `t` in `cell`, if there is one.
    pub open spec fn pheromone_at(&self, cell: (u64, u64), t: PheromoneType) -> Option<EntityIndex> {
        if exists|i: EntityIndex| #[trigger] self.is_pheromone_at(i, cell, t) {
            Some(choose|i: EntityIndex| #[trigger] self.is_pheromone_at(i, cell, t))
        } else {
            None
        }
    }

    /// The strength of the pheromone of type `t` in `cell`; 0 where there is none.
    pub open spec fn strength_at(&self, cell: (u64, u64), t: PheromoneType) -> nat {
        match self.pheromone_at(cell, t) {
            Some(i) => self.intensities@[i].strength as nat,
            None => 0,
        }
    }

    /// At most one live pheromone of each type in each cell.
    pub open spec fn pheromones_unique(&self) -> bool {
        forall|i: EntityIndex, j: EntityIndex, cell: (u64, u64), t: PheromoneType|
            #[trigger] self.is_pheromone_at(i, cell, t) && #[trigger] self.is_pheromone_at(j, cell, t)
                ==> i == j
    }

    /// The tables are consistent: identifiers below `new_index`, the spatial
    /// index in step with the positions, and the components that the
    /// simulation reads present where it reads them.
    pub open spec fn wf(&self) -> bool {
        &&& self.positions.wf()
        &&& keys_within(self.pos_map(), self.entity_types@)
        &&& keys_below(self.entity_types@, self.new_index)
        &&& keys_within(self.ants@, self.entity_types@)
        &&& keys_within(self.pheromones@, self.entity_types@)
        &&& keys_within(self.sugars@, self.entity_types@)
        &&& keys_within(self.bases@, self.entity_types@)
        &&& keys_within(self.walls@, self.entity_types@)
        &&& keys_within(self.edibles@, self.entity_types@)
        &&& keys_within(self.releasing_pheromones@, self.entity_types@)
        &&& keys_within(self.pheromone_generations@, self.entity_types@)
        &&& keys_within(self.intensities@, self.entity_types@)
        &&& keys_within(self.pheromone_types@, self.entity_types@)
        &&& keys_within(self.carrying_food@, self.entity_types@)
        &&& keys_within(self.builders@, self.entity_types@)
        &&& keys_within(self.impenetrables@, self.entity_types@)
        &&& keys_within(self.memories@, self.entity_types@)
        &&& keys_within(self.adventurous@, self.entity_types@)
        &&& keys_within(self.pheromone_types@, self.intensities@)
        &&& keys_within(self.pheromone_types@, self.pheromone_generations@)
        &&& keys_within(self.pheromone_types@, self.pos_map())
        &&& keys_within(self.intensities@, self.pheromone_types@)
        &&& keys_within(self.ants@, self.pos_map())
        &&& keys_within(self.ants@, self.memories@)
        &&& forall|i: EntityIndex| #[trigger] self.pheromone_types@.contains_key(i) ==> !self.ants@.contains_key(i)
        &&& forall|i: EntityIndex| #[trigger] self.pheromone_types@.contains_key(i) ==> self.has_type(i, EntityType::Pheromone)
        &&& forall|i: EntityIndex| #[trigger] self.ants@.contains_key(i) ==> self.has_type(i, EntityType::Ant)
        &&& forall|i: EntityIndex| #[trigger] self.ants@.contains_key(i) ==> !self.impenetrables@.contains_key(i)
        &&& forall|i: EntityIndex| #[trigger] self.pheromone_types@.contains_key(i) ==> !self.impenetrables@.contains_key(i)
        &&& forall|i: EntityIndex| #[trigger] self.memories@.contains_key(i) ==> self.memories@[i].wf()
    }

    /// The pheromone of a type in a cell is the one found there.
    pub proof fn lemma_pheromone_at(&self, id: EntityIndex, cell: (u64, u64), t: PheromoneType)
        requires
            self.pheromones_unique(),
            self.is_pheromone_at(id, cell, t),
        ensures
            self.pheromone_at(cell, t) == Some(id),
            self.strength_at(cell, t) == self.intensities@[id].strength,
    {
        let j = choose|i: EntityIndex| #[trigger] self.is_pheromone_at(i, cell, t);
        assert(self.is_pheromone_at(j, cell, t));
    }

    /// Uniqueness of pheromones depends on positions and pheromone types alone.
    pub proof fn lemma_unique_frame(&self, other: &EntityStore)
        requires
            other.pheromones_unique(),
            self.pos_map() == other.pos_map(),
            self.pheromone_types@ == other.pheromone_types@,
        ensures
            self.pheromones_unique(),
    {
        assert forall|i: EntityIndex, j: EntityIndex, cell: (u64, u64), t: PheromoneType|
            #[trigger] self.is_pheromone_at(i, cell, t) && #[trigger] self.is_pheromone_at(j, cell, t) implies i == j by {
            assert(other.is_pheromone_at(i, cell, t));
            assert(other.is_pheromone_at(j, cell, t));
        }
    }

    /// Moving an entity that is not a pheromone keeps pheromones unique.
    pub proof fn lemma_unique_move(&self, other: &EntityStore, id: EntityIndex, p: PositionComponent)
        requires
            other.pheromones_unique(),
            self.pos_map() == other.pos_map().insert(id, p),
            self.pheromone_types@ == other.pheromone_types@,
            !other.pheromone_types@.contains_key(id),
        ensures
            self.pheromones_unique(),
    {
        assert forall|i: EntityIndex, j: EntityIndex, cell: (u64, u64), t: PheromoneType|
            #[trigger] self.is_pheromone_at(i, cell, t) && #[trigger] self.is_pheromone_at(j, cell, t) implies i == j by {
            assert(other.is_pheromone_at(i, cell, t));
            assert(other.is_pheromone_at(j, cell, t));
        }
    }

    /// `self` and `other` agree on every table but positions, directions and
    /// short memories.
    pub open spec fn same_tables(&self, other: &EntityStore) -> bool {
        &&& self.new_index == other.new_index
        &&& self.pheromone_generation == other.pheromone_generation
        &&& self.entity_types == other.entity_types
        &&& self.ants == other.ants
        &&& self.pheromones == other.pheromones
        &&& self.sugars == other.sugars
        &&& self.bases == other.bases
        &&& self.walls == other.walls
        &&& self.edibles == other.edibles
        &&& self.releasing_pheromones == other.releasing_pheromones
        &&& self.pheromone_generations == other.pheromone_generations
        &&& self.intensities == other.intensities
        &&& self.pheromone_types == other.pheromone_types
        &&& self.carrying_food == other.carrying_food
        &&& self.builders == other.builders
        &&& self.impenetrables == other.impenetrables
        &&& self.adventurous == other.adventurous
        &&& self.food_in_base == other.food_in_base
    }

    /// An empty store.
    pub fn new() -> (r: Self)
        ensures
            r.wf(),
            r.pheromones_unique(),
            r.new_index == 0,
            r.pheromone_generation == 0,
            r.food_in_base == 0,
            r.entity_types@.dom() == Set::<EntityIndex>::empty(),
            r.ants@.dom() == Set::<EntityIndex>::empty(),
            r.pheromones@.dom() == Set::<EntityIndex>::empty(),
            r.sugars@.dom() == Set::<EntityIndex>::empty(),
            r.bases@.dom() == Set::<EntityIndex>::empty(),
            r.walls@.dom() == Set::<EntityIndex>::empty(),
            r.edibles@.dom() == Set::<EntityIndex>::empty(),
            r.releasing_pheromones@.dom() == Set::<EntityIndex>::empty(),
            r.pheromone_generations@.dom() == Set::<EntityIndex>::empty(),
            r.intensities@.dom() == Set::<EntityIndex>::empty(),
            r.pheromone_types@.dom() == Set::<EntityIndex>::empty(),
            r.carrying_food@.dom() == Set::<EntityIndex>::empty(),
            r.builders@.dom() == Set::<EntityIndex>::empty(),
            r.impenetrables@.dom() == Set::<EntityIndex>::empty(),
            r.memories@.dom() == Set::<EntityIndex>::empty(),
            r.adventurous@.dom() == Set::<EntityIndex>::empty(),
            r.pos_map() == Map::<EntityIndex, PositionComponent>::empty(),
            r.dir_map() == Map::<EntityIndex, DirectionComponent>::empty(),
    {
        EntityStore {
            new_index: 0,
            pheromone_generation: 0,
            entity_types: BTreeMap::new(),
            ants: BTreeMap::new(),
            pheromones: BTreeMap::new(),
            sugars: BTreeMap::new(),
            bases: BTreeMap::new(),
            walls: BTreeMap::new(),
            positions: PositionIndex::new(),
            edibles: BTreeMap::new(),
            releasing_pheromones: BTreeMap::new(),
            pheromone_generations: BTreeMap::new(),
            intensities: BTreeMap::new(),
            pheromone_types: BTreeMap::new(),
            carrying_food: BTreeMap::new(),
            builders: BTreeMap::new(),
            impenetrables: BTreeMap::new(),
            memories: BTreeMap::new(),
            adventurous: BTreeMap::new(),
            food_in_base: 0,
        }
    }

    fn get_new_index(&mut self) -> (r: EntityIndex)
        requires
            old(self).new_index < usize::MAX,
        ensures
            r == old(self).new_index,
            final(self).new_index == old(self).new_index + 1,
            final(self).positions == old(self).positions,
            final(self).memories == old(self).memories,
            final(self).same_tables(&EntityStore { new_index: final(self).new_index, ..*old(self) }),
    {
        self.new_index += 1;
        self.new_index - 1
    }

    /// The position of `id`, if it has one.
    pub fn get_position(&self, id: EntityIndex) -> (r: Option<&PositionComponent>)
        ensures
            match r {
                Some(p) => self.pos_map().contains_key(id) && *p == self.pos_map()[id] && (self.wf() ==> coord_ok(*p)),
                None => !self.pos_map().contains_key(id),
            },
    {
        self.positions.get(id)
    }

    /// The last displacement of `id`, if it has moved.
    pub fn get_direction(&self, id: EntityIndex) -> (r: Option<&DirectionComponent>)
        ensures
            match r {
                Some(d) => self.dir_map().contains_key(id) && *d == self.dir_map()[id] && (self.wf() ==> dir_ok(*d)),
                None => !self.dir_map().contains_key(id),
            },
    {
        self.positions.get_direction(id)
    }

    /// Moves `id`, which must have been created, to `new_pos`; where it had
    /// a position, the displacement from there becomes its direction. This
    /// is the only way by which a position changes.
    pub fn update_position(&mut self, id: EntityIndex, new_pos: &PositionComponent)
        requires
            old(self).wf(),
            old(self).entity_types@.contains_key(id),
            coord_ok(*new_pos),
        ensures
            final(self).wf(),
            final(self).same_tables(old(self)),
            final(self).memories == old(self).memories,
            final(self).pos_map() == old(self).pos_map().insert(id, *new_pos),
            final(self).dir_map() == (if old(self).pos_map().contains_key(id) {
                old(self).dir_map().insert(id, displacement(old(self).pos_map()[id], *new_pos))
            } else {
                old(self).dir_map()
            }),
    {
        self.positions.set(id, new_pos);
    }

    /// Removes the position and the direction of `id`, and takes it out of
    /// the spatial index. The store stays consistent where `id` is no ant
    /// and has no pheromone type left, as when a pheromone is destroyed.
    pub fn remove_position(&mut self, id: EntityIndex)
        requires
            old(self).wf(),
        ensures
            final(self).positions.wf(),
            !old(self).pheromone_types@.contains_key(id) && !old(self).ants@.contains_key(id) ==> final(self).wf(),
            final(self).same_tables(old(self)),
            final(self).memories == old(self).memories,
            final(self).pos_map() == old(self).pos_map().remove(id),
            final(self).dir_map() == old(self).dir_map().remove(id),
    {
        self.positions.remove(id);
    }

    /// The entities in the cell of `search_pos`, or `None` where there are none.
    pub fn get_entities_at(&self, search_pos: &PositionComponent) -> (r: Option<&Vec<EntityIndex>>)
        requires
            self.wf(),
        ensures
            match r {
                Some(ids) => {
                    &&& ids@.len() > 0
                    &&& ids@.no_duplicates()
                    &&& forall|i: EntityIndex| #[trigger] ids@.contains(i) <==> self.is_at(i, search_pos.cell_key())
                },
                None => forall|i: EntityIndex| !#[trigger] self.is_at(i, search_pos.cell_key()),
            },
    {
        let key = CoarsePositionComponent::from(*search_pos).key();
        self.positions.ids_at(key)
    }

    /// The entities of type `entity_type` in the cell of `search_pos`, or
    /// `None` where there are none.
    pub fn get_entities_with_type_at(&self, search_pos: &PositionComponent, entity_type: EntityType) -> (r: Option<Vec<EntityIndex>>)
        requires
            self.wf(),
        ensures
            match r {
                Some(ids) => {
                    &&& ids@.len() > 0
                    &&& ids@.no_duplicates()
                    &&& forall|i: EntityIndex| #[trigger] ids@.contains(i) <==>
                        (self.is_at(i, search_pos.cell_key()) && self.has_type(i, entity_type))
                    &&& self.has_type_at(search_pos.cell_key(), entity_type)
                },
                None => !self.has_type_at(search_pos.cell_key(), entity_type),
            },
    {
        let ghost cell = search_pos.cell_key();
        match self.get_entities_at(search_pos) {
            Some(ids) => {
                let mut results: Vec<EntityIndex> = Vec::new();
                let mut i: usize = 0;
                while i < ids.len()
                    invariant
                        i <= ids@.len(),
                        ids@.no_duplicates(),
                        results@.no_duplicates(),
                        forall|x: EntityIndex| #[trigger] results@.contains(x) <==>
                            (exists|j: int| 0 <= j < i && ids@[j] == x) && self.has_type(x, entity_type),
                    decreases ids@.len() - i,
                {
                    let x = ids[i];
                    let matches = match self.entity_types.get(&x) {
                        Some(t) => *t == entity_type,
                        None => false,
                    };
                    let ghost prev = results@;
                    if matches {
                        proof {
                            assert(!prev.contains(x)) by {
                                if prev.contains(x) {
                                    let j = choose|j: int| 0 <= j < i && ids@[j] == x;
                                }
                            }
                        }
                        results.push(x);
                    }
                    proof {
                        assert forall|y: EntityIndex| #[trigger] results@.contains(y) <==>
                            (exists|j: int| 0 <= j < i + 1 && ids@[j] == y) && self.has_type(y, entity_type) by {
                            if results@.contains(y) {
                                let k = choose|k: int| 0 <= k < results@.len() && results@[k] == y;
                                if k < prev.len() {
                                    assert(prev[k] == y);
                                    assert(prev.contains(y));
                                }
                            }
                            if (exists|j: int| 0 <= j < i + 1 && ids@[j] == y) && self.has_type(y, entity_type) {
                                let j = choose|j: int| 0 <= j < i + 1 && ids@[j] == y;
                                if j < i {
                                    assert(prev.contains(y));
                                    let k = choose|k: int| 0 <= k < prev.len() && prev[k] == y;
                                    assert(results@[k] == y);
                                } else {
                                    assert(results@[results@.len() - 1] == y);
                                }
                            }
                        }
                    }
                    i += 1;
                }
                proof {
                    assert forall|x: EntityIndex| #[trigger] results@.contains(x) <==>
                        (self.is_at(x, cell) && self.has_type(x, entity_type)) by {
                        if self.is_at(x, cell) && self.has_type(x, entity_type) {
                            assert(ids@.contains(x));
                            let j = choose|j: int| 0 <= j < ids@.len() && ids@[j] == x;
                        }
                        if results@.contains(x) {
                            let j = choose|j: int| 0 <= j < i && ids@[j] == x;
                            assert(ids@.contains(x));
                        }
                    }
                }
                if results.len() > 0 {
                    assert(results@.contains(results@[0]));
                }
                if results.len() == 0 {
                    proof {
                        assert forall|x: EntityIndex| !(self.is_at(x, cell) && #[trigger] self.has_type(x, entity_type)) by {
                            if self.is_at(x, cell) && self.has_type(x, entity_type) {
                                assert(results@.contains(x));
                            }
                        }
                    }
                    None
                } else {
                    Some(results)
                }
            },
            None => None,
        }
    }

    /// Whether an impenetrable entity stands in the cell of `pos`.
    pub fn pos_is_impenetrable(&self, pos: &PositionComponent) -> (r: bool)
        requires
            self.wf(),
        ensures
            r == self.impenetrable_at(pos.cell_key()),
    {
        match self.get_entities_at(pos) {
            Some(ids) => {
                let mut i: usize = 0;
                while i < ids.len()
                    invariant
                        i <= ids@.len(),
                        forall|j: int| 0 <= j < i ==> !self.impenetrables@.contains_key(#[trigger] ids@[j]),
                        forall|x: EntityIndex| #[trigger] ids@.contains(x) <==> self.is_at(x, pos.cell_key()),
                    decreases ids@.len() - i,
                {
                    if self.impenetrables.contains_key(&ids[i]) {
                        assert(ids@.contains(ids@[i as int]));
                        assert(self.is_at(ids@[i as int], pos.cell_key()));
                        return true;
                    }
                    i += 1;
                }
                proof {
                    assert forall|x: EntityIndex| !(self.is_at(x, pos.cell_key()) && #[trigger] self.impenetrables@.contains_key(x)) by {
                        if self.is_at(x, pos.cell_key()) {
                            assert(ids@.contains(x));
                        }
                    }
                }
                false
            },
            None => false,
        }
    }

    /// The pheromone of type `pheromone_type` in the cell of `search_pos`,
    /// where there is one; there is never more than one.
    pub fn get_pheromone_with_type_at(&self, search_pos: &PositionComponent, pheromone_type: PheromoneType) -> (r: Option<EntityIndex>)
        requires
            self.wf(),
            self.pheromones_unique(),
        ensures
            match r {
                Some(id) => forall|j: EntityIndex| #[trigger] self.is_pheromone_at(j, search_pos.cell_key(), pheromone_type) <==> j == id,
                None => forall|j: EntityIndex| !#[trigger] self.is_pheromone_at(j, search_pos.cell_key(), pheromone_type),
            },
    {
        let ghost cell = search_pos.cell_key();
        match self.get_entities_at(search_pos) {
            Some(ids) => {
                let mut i: usize = 0;
                while i < ids.len()
                    invariant
                        i <= ids@.len(),
                        forall|j: int| 0 <= j < i ==> !self.is_pheromone_at(#[trigger] ids@[j], cell, pheromone_type),
                        forall|x: EntityIndex| #[trigger] ids@.contains(x) <==> self.is_at(x, cell),
                        cell == search_pos.cell_key(),
                        self.pheromones_unique(),
                    decreases ids@.len() - i,
                {
                    let id = ids[i];
                    let found = match self.pheromone_types.get(&id) {
                        Some(t) => *t == pheromone_type,
                        None => false,
                    };
                    if found {
                        assert(ids@.contains(id));
                        assert(self.is_at(id, cell));
                        assert(self.pheromone_types@.contains_key(id));
                        assert(self.pheromone_types@[id] == pheromone_type);
                        assert(self.is_pheromone_at(id, cell, pheromone_type));
                        assert forall|j: EntityIndex| #[trigger] self.is_pheromone_at(j, search_pos.cell_key(), pheromone_type) <==> j == id by {
                            if self.is_pheromone_at(j, search_pos.cell_key(), pheromone_type) {
                                assert(self.pheromones_unique());
                            }
                        }
                        return Some(id);
                    }
                    assert(ids@.contains(id));
                    i += 1;
                }
                proof {
                    assert forall|x: EntityIndex| !#[trigger] self.is_pheromone_at(x, cell, pheromone_type) by {
                        if self.is_pheromone_at(x, cell, pheromone_type) {
                            assert(ids@.contains(x));
                            let j = choose|j: int| 0 <= j < ids@.len() && ids@[j] == x;
                        }
                    }
                }
                None
            },
            None => None,
        }
    }

    /// Records that ant `ant_id` visited the cell of `pos`; when its memory
    /// is full the oldest cell leaves it.
    pub fn add_to_short_memory(&mut self, ant_id: EntityIndex, pos: &PositionComponent)
        requires
            old(self).wf(),
            old(self).memories@.contains_key(ant_id),
        ensures
            final(self).wf(),
            final(self).same_tables(old(self)),
            final(self).positions == old(self).positions,
            final(self).memories@ == old(self).memories@.insert(ant_id, final(self).memories@[ant_id]),
            final(self).memories@[ant_id].size == old(self).memories@[ant_id].size,
            final(self).memories@[ant_id]@ == ShortMemory::remembered(
                old(self).memories@[ant_id]@,
                old(self).memories@[ant_id].size as nat,
                pos.cell(),
            ),
    {
        let coarse_pos = CoarsePositionComponent::from(*pos);
        match self.memories.remove(&ant_id) {
            Some(mut memory) => {
                memory.remember(coarse_pos);
                self.memories.insert(ant_id, memory);
            },
            None => {},
        }
    }

    /// Whether ant `ant_id` visited the cell of `pos` recently.
    pub fn in_short_memory(&self, ant_id: EntityIndex, pos: &PositionComponent) -> (r: bool)
        requires
            self.memories@.contains_key(ant_id),
        ensures
            r == self.memories@[ant_id]@.contains(pos.cell()),
    {
        let coarse_pos = CoarsePositionComponent::from(*pos);
        match self.memories.get(&ant_id) {
            Some(memory) => memory.contains(&coarse_pos),
            None => false,
        }
    }

    /// Makes ant `ant_id` forget every cell it visited.
    pub fn clear_memory(&mut self, ant_id: EntityIndex)
        requires
            old(self).wf(),
            old(self).memories@.contains_key(ant_id),
        ensures
            final(self).wf(),
            final(self).same_tables(old(self)),
            final(self).positions == old(self).positions,
            final(self).memories@ == old(self).memories@.insert(ant_id, final(self).memories@[ant_id]),
            final(self).memories@[ant_id].size == old(self).memories@[ant_id].size,
            final(self).memories@[ant_id]@.len() == 0,
    {
        match self.memories.remove(&ant_id) {
            Some(mut memory) => {
                memory.clear();
                self.memories.insert(ant_id, memory);
            },
            None => {},
        }
    }

    /// Creates an entity of type `entity_type` in the centre of cell (0, 0),
    /// with the components its type always has: an ant gets an empty short
    /// memory, a food source is edible, a wall is impenetrable.
    pub fn create_entity(&mut self, entity_type: EntityType) -> (r: EntityIndex)
        requires
            old(self).wf(),
            old(self).new_index < usize::MAX,
        ensures
            final(self).wf(),
            r == old(self).new_index,
            !old(self).entity_types@.contains_key(r),
            final(self).new_index == old(self).new_index + 1,
            final(self).entity_types@ == old(self).entity_types@.insert(r, entity_type),
            final(self).pos_map() == old(self).pos_map().insert(r, PositionComponent::origin_centre()),
            final(self).dir_map() == old(self).dir_map(),
            final(self).ants@ == (if entity_type == EntityType::Ant { old(self).ants@.insert(r, AntEntity {}) } else { old(self).ants@ }),
            final(self).pheromones@ == (if entity_type == EntityType::Pheromone { old(self).pheromones@.insert(r, PheromoneEntity {}) } else { old(self).pheromones@ }),
            final(self).sugars@ == (if entity_type == EntityType::Sugar { old(self).sugars@.insert(r, SugarEntity {}) } else { old(self).sugars@ }),
            final(self).edibles@ == (if entity_type == EntityType::Sugar { old(self).edibles@.insert(r, EdibleComponent {}) } else { old(self).edibles@ }),
            final(self).bases@ == (if entity_type == EntityType::Base { old(self).bases@.insert(r, BaseEntity {}) } else { old(self).bases@ }),
            final(self).walls@ == (if entity_type == EntityType::Wall { old(self).walls@.insert(r, WallEntity {}) } else { old(self).walls@ }),
            final(self).impenetrables@ == (if entity_type == EntityType::Wall { old(self).impenetrables@.insert(r, ImpenetrableComponent {}) } else { old(self).impenetrables@ }),
            entity_type == EntityType::Ant ==> {
                &&& final(self).memories@ == old(self).memories@.insert(r, final(self).memories@[r])
                &&& final(self).memories@[r]@.len() == 0
                &&& final(self).memories@[r].size == DEFAULT_MEMORY_SIZE
            },
            entity_type != EntityType::Ant ==> final(self).memories == old(self).memories && final(self).ants == old(self).ants,
            entity_type != EntityType::Pheromone ==> final(self).pheromones == old(self).pheromones,
            entity_type != EntityType::Sugar ==> final(self).sugars == old(self).sugars && final(self).edibles == old(self).edibles,
            entity_type != EntityType::Base ==> final(self).bases == old(self).bases,
            entity_type != EntityType::Wall ==> final(self).walls == old(self).walls && final(self).impenetrables == old(self).impenetrables,
            final(self).pheromone_generation == old(self).pheromone_generation,
            final(self).releasing_pheromones == old(self).releasing_pheromones,
            final(self).pheromone_generations == old(self).pheromone_generations,
            final(self).intensities == old(self).intensities,
            final(self).pheromone_types == old(self).pheromone_types,
            final(self).carrying_food == old(self).carrying_food,
            final(self).builders == old(self).builders,
            final(self).adventurous == old(self).adventurous,
            final(self).food_in_base == old(self).food_in_base,
    {
        let index = self.get_new_index();
        self.entity_types.insert(index, entity_type);
        self.update_position(index, &PositionComponent::default());
        match entity_type {
            EntityType::Ant => {
                self.memories.insert(index, ShortMemory::default());
                self.ants.insert(index, AntEntity {});
            },
            EntityType::Pheromone => {
                self.pheromones.insert(index, PheromoneEntity {});
            },
            EntityType::Sugar => {
                self.edibles.insert(index, EdibleComponent {});
                self.sugars.insert(index, SugarEntity {});
            },
            EntityType::Base => {
                self.bases.insert(index, BaseEntity {});
            },
            EntityType::Wall => {
                self.impenetrables.insert(index, ImpenetrableComponent {});
                self.walls.insert(index, WallEntity {});
            },
        }
        index
    }
}

impl Default for EntityStore {
    /// An empty store.
    fn default() -> (r: Self)
        ensures
            r.wf(),
            r.pheromones_unique(),
            r.new_index == 0,
            r.pheromone_generation == 0,
            r.food_in_base == 0,
            r.entity_types@.dom() == Set::<EntityIndex>::empty(),
            r.ants@.dom() == Set::<EntityIndex>::empty(),
            r.pheromones@.dom() == Set::<EntityIndex>::empty(),
            r.sugars@.dom() == Set::<EntityIndex>::empty(),
            r.bases@.dom() == Set::<EntityIndex>::empty(),
            r.walls@.dom() == Set::<EntityIndex>::empty(),
            r.edibles@.dom() == Set::<EntityIndex>::empty(),
            r.releasing_pheromones@.dom() == Set::<EntityIndex>::empty(),
            r.pheromone_generations@.dom() == Set::<EntityIndex>::empty(),
            r.intensities@.dom() == Set::<EntityIndex>::empty(),
            r.pheromone_types@.dom() == Set::<EntityIndex>::empty(),
            r.carrying_food@.dom() == Set::<EntityIndex>::empty(),
            r.builders@.dom() == Set::<EntityIndex>::empty(),
            r.impenetrables@.dom() == Set::<EntityIndex>::empty(),
            r.memories@.dom() == Set::<EntityIndex>::empty(),
            r.adventurous@.dom() == Set::<EntityIndex>::empty(),
            r.pos_map() == Map::<EntityIndex, PositionComponent>::empty(),
            r.dir_map() == Map::<EntityIndex, DirectionComponent>::empty(),
    {
        EntityStore::new()
    }
}

} // verus!
