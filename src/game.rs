use vstd::prelude::*;
use crate::components::{
    CELL, CarryingFoodComponent, DirectionComponent, IntensityComponent, PheromoneGenerationComponent,
    PositionComponent, ReleasingPheromoneComponent, ShortMemory,
};
use crate::entities::{EntityType, PheromoneEntity, PheromoneType};
use crate::entity_store::{COORD_LIMIT, EntityIndex, EntityStore, coord_ok, dir_ok, displacement};

verus! {

/// Strength of a pheromone laid away from the trail's source.
pub const NEW_PHEROMONE_STRENGTH: u32 = 16;

/// How many times stronger a pheromone laid on the trail's source is.
pub const SOURCE_STRENGTH_FACTOR: u32 = 10;

/// For how many ticks an ant lays a trail after each move.
pub const RELEASE_TICKS: u32 = 999;

/// `m` without the key `k`, where there is one.
pub open spec fn without_key<V>(m: Map<EntityIndex, V>, k: Option<EntityIndex>) -> Map<EntityIndex, V> {
    match k {
        Some(i) => m.remove(i),
        None => m,
    }
}

/// `a + b`, or `u32::MAX` where the sum does not fit.
pub open spec fn sat_add(a: nat, b: nat) -> u32 {
    if a + b > u32::MAX {
        u32::MAX
    } else {
        (a + b) as u32
    }
}

/// The type of entity that sits at the source of a trail of type `t`.
pub open spec fn source_of(t: PheromoneType) -> EntityType {
    match t {
        PheromoneType::Food => EntityType::Sugar,
        PheromoneType::Base => EntityType::Base,
    }
}

/// `a` and `b` agree on every table of the ants and the static entities.
pub open spec fn same_agents(a: &EntityStore, b: &EntityStore) -> bool {
    &&& a.pheromone_generation == b.pheromone_generation
    &&& a.ants== b.ants
    &&& a.sugars== b.sugars
    &&& a.bases== b.bases
    &&& a.walls== b.walls
    &&& a.edibles== b.edibles
    &&& a.releasing_pheromones== b.releasing_pheromones
    &&& a.carrying_food== b.carrying_food
    &&& a.builders== b.builders
    &&& a.impenetrables== b.impenetrables
    &&& a.memories== b.memories
    &&& a.adventurous== b.adventurous
    &&& a.food_in_base == b.food_in_base
}

/// `b` is `a` after a pheromone of type `t` and strength `amount` was laid
/// at `pos` as entity `r`: it replaced the one of that type in the cell,
/// whose strength it adds (up to `u32::MAX`) and whose generation it keeps.
pub open spec fn deposited(a: &EntityStore, b: &EntityStore, pos: PositionComponent, t: PheromoneType, amount: nat, r: EntityIndex) -> bool {
    let cell = pos.cell_key();
    let gone = a.pheromone_at(cell, t);
    let generation = match gone {
        Some(i) => a.pheromone_generations@[i].generation,
        None => a.pheromone_generation,
    };
    &&& same_agents(a, b)
    &&& r == a.new_index
    &&& b.new_index == a.new_index + 1
    &&& b.entity_types@ == a.entity_types@.insert(r, EntityType::Pheromone)
    &&& b.pheromone_at(cell, t) == Some(r)
    &&& b.strength_at(cell, t) == sat_add(a.strength_at(cell, t), amount)
    &&& b.pheromone_types@ == without_key(a.pheromone_types@, gone).insert(r, t)
    &&& b.intensities@ == without_key(a.intensities@, gone).insert(r, IntensityComponent { strength: sat_add(a.strength_at(cell, t), amount) })
    &&& b.pheromone_generations@ == without_key(a.pheromone_generations@, gone).insert(r, PheromoneGenerationComponent { generation })
    &&& b.pheromones@ == without_key(a.pheromones@, gone).insert(r, PheromoneEntity {})
    &&& b.pos_map() == without_key(a.pos_map(), gone).insert(r, pos)
    &&& b.dir_map() == without_key(a.dir_map(), gone).insert(r, displacement(PositionComponent::origin_centre(), pos))
}

/// Strength that a pheromone loses in each tick away from food and bases.
pub const EVAPORATION_PER_TICK: u32 = 1;

/// Whether `cell` holds food or a base: pheromones there do not evaporate.
pub open spec fn on_source(a: &EntityStore, cell: (u64, u64)) -> bool {
    a.has_type_at(cell, EntityType::Sugar) || a.has_type_at(cell, EntityType::Base)
}

/// The strength of a pheromone of strength `s` after one tick, on a source
/// cell or not; it is destroyed when this is 0.
pub open spec fn evaporated(s: u32, exempt: bool) -> nat {
    if exempt {
        s as nat
    } else if s >= EVAPORATION_PER_TICK {
        (s - EVAPORATION_PER_TICK) as nat
    } else {
        0
    }
}

/// Whether evaporation destroys pheromone `id` of `a` in this tick.
pub open spec fn evaporates(a: &EntityStore, id: EntityIndex) -> bool {
    &&& a.intensities@.contains_key(id)
    &&& !on_source(a, a.pos_map()[id].cell_key())
    &&& evaporated(a.intensities@[id].strength, false) == 0
}

/// The pheromones among the first `n` identifiers that evaporation destroys.
pub open spec fn evaporated_below(a: &EntityStore, n: int) -> Set<EntityIndex> {
    Set::new(|id: EntityIndex| id < n && evaporates(a, id))
}

/// `b` is `a` after evaporation: pheromones away from food and bases lose
/// strength, and those left with none are destroyed with all their
/// components.
pub open spec fn evaporation(a: &EntityStore, b: &EntityStore) -> bool {
    let gone = evaporated_below(&a, a.new_index as int);
    &&& same_agents(&b, &a)
    &&& b.new_index == a.new_index
    &&& b.entity_types == a.entity_types
    &&& forall|id: EntityIndex| #[trigger] b.intensities@.contains_key(id) <==>
        a.intensities@.contains_key(id) && !evaporates(&a, id)
    &&& forall|id: EntityIndex| #[trigger] b.intensities@.contains_key(id) ==>
        b.intensities@[id].strength == evaporated(a.intensities@[id].strength, on_source(&a, a.pos_map()[id].cell_key()))
    &&& b.pheromone_types@ == a.pheromone_types@.remove_keys(gone)
    &&& b.pheromone_generations@ == a.pheromone_generations@.remove_keys(gone)
    &&& b.pheromones@ == a.pheromones@.remove_keys(gone)
    &&& b.pos_map() == a.pos_map().remove_keys(gone)
    &&& b.dir_map() == a.dir_map().remove_keys(gone)
}

/// `states` are the stores before and after each of `spreads` is laid.
pub open spec fn lays(states: Seq<EntityStore>, spreads: Seq<Spread>) -> bool {
    &&& states.len() == spreads.len() + 1
    &&& forall|k: int| 0 <= k < spreads.len() ==> deposited(
        &states[k],
        &#[trigger] states[k + 1],
        spreads[k].target,
        spreads[k].ph_type,
        spreads[k].amount as nat,
        states[k].new_index,
    )
}

/// Whether an entity of type `t` stands in `cell` in `c` exactly when it does
/// in `a`, where `c` and `a` place the entities of type `t` alike.
pub proof fn lemma_type_at_frame(c: &EntityStore, a: &EntityStore, cell: (u64, u64), t: EntityType)
    requires
        forall|id: EntityIndex| #[trigger] c.has_type(id, t) ==> a.has_type(id, t),
        forall|id: EntityIndex| #[trigger] a.has_type(id, t) ==> c.has_type(id, t)
            && c.pos_map().contains_key(id) == a.pos_map().contains_key(id)
                && (a.pos_map().contains_key(id) ==> c.pos_map()[id] == a.pos_map()[id]),
    ensures
        c.has_type_at(cell, t) == a.has_type_at(cell, t),
{
    if c.has_type_at(cell, t) {
        let id = choose|id: EntityIndex| c.is_at(id, cell) && #[trigger] c.has_type(id, t);
        assert(a.has_type(id, t));
    }
    if a.has_type_at(cell, t) {
        let id = choose|id: EntityIndex| a.is_at(id, cell) && #[trigger] a.has_type(id, t);
        assert(c.has_type(id, t));
    }
}

/// Most samples an ant draws for one step; an ant that finds no free cell
/// in that many stays where it is.
pub const MAX_TURN_SAMPLES: u32 = 1000;

/// After this many rejected samples an ant turns around, and no longer
/// avoids the cells it remembers.
pub const ESCAPE_SAMPLES: u32 = 8;

/// Denominator of the squared cosines below.
pub const COS2_SCALE: u128 = 1_000_000_000;

/// cos^2 of 80 degrees, times `COS2_SCALE`: a step may turn at most about
/// 100 degrees away from the heading.
pub const COS2_80: u128 = 30_153_690;

/// The neighbouring step of index `k`, in hundredths of a cell; ties
/// between equally strong neighbours go to the lower index.
pub open spec fn neighbour_step(k: int) -> DirectionComponent {
    if k == 0 {
        DirectionComponent { x: CELL, y: 0 }
    } else if k == 1 {
        DirectionComponent { x: (-CELL) as i64, y: 0 }
    } else if k == 2 {
        DirectionComponent { x: 0, y: CELL }
    } else if k == 3 {
        DirectionComponent { x: 0, y: (-CELL) as i64 }
    } else if k == 4 {
        DirectionComponent { x: CELL, y: CELL }
    } else if k == 5 {
        DirectionComponent { x: CELL, y: (-CELL) as i64 }
    } else if k == 6 {
        DirectionComponent { x: (-CELL) as i64, y: CELL }
    } else {
        DirectionComponent { x: (-CELL) as i64, y: (-CELL) as i64 }
    }
}

/// `pos` displaced by `d`.
pub open spec fn offset(pos: PositionComponent, d: DirectionComponent) -> PositionComponent {
    PositionComponent { x: (pos.x + d.x) as i64, y: (pos.y + d.y) as i64 }
}

/// Whether `step` turns more than about 100 degrees away from `heading`:
/// the cosine of the angle between them is below -cos(80 degrees). A heading
/// of length zero counts as pointing along the x axis.
pub open spec fn turn_too_sharp(heading: DirectionComponent, step: DirectionComponent) -> bool {
    let hx: int = if heading.x == 0 && heading.y == 0 { 1 } else { heading.x as int };
    let hy: int = if heading.x == 0 && heading.y == 0 { 0 } else { heading.y as int };
    let dot: int = hx * step.x + hy * step.y;
    &&& dot < 0
    &&& dot * dot * (COS2_SCALE as int) > (COS2_80 as int) * ((hx * hx + hy * hy) * (step.x * step.x + step.y * step.y))
}

/// Whether an impenetrable entity stands in `cell` in `c` exactly when it
/// does in `a`, where `c` and `a` place the impenetrable entities alike.
pub proof fn lemma_impenetrable_frame(c: &EntityStore, a: &EntityStore, cell: (u64, u64))
    requires
        c.impenetrables@ == a.impenetrables@,
        forall|id: EntityIndex| #[trigger] a.impenetrables@.contains_key(id) ==>
            c.pos_map().contains_key(id) == a.pos_map().contains_key(id)
                && (a.pos_map().contains_key(id) ==> c.pos_map()[id] == a.pos_map()[id]),
    ensures
        c.impenetrable_at(cell) == a.impenetrable_at(cell),
{
    if c.impenetrable_at(cell) {
        let id = choose|id: EntityIndex| c.is_at(id, cell) && #[trigger] c.impenetrables@.contains_key(id);
        assert(a.impenetrables@.contains_key(id));
    }
    if a.impenetrable_at(cell) {
        let id = choose|id: EntityIndex| a.is_at(id, cell) && #[trigger] a.impenetrables@.contains_key(id);
        assert(c.impenetrables@.contains_key(id));
    }
}

/// Whether `cell` is one of the walls of the Deneubourg arena: an open
/// corridor between the middle cells of the left and right columns of a
/// 5 by 5 arena, around a central pillar.
pub open spec fn deneubourg_wall(cell: (u64, u64)) -> bool {
    let (x, y) = cell;
    ||| (x == 0 || x == 4) && (y == 0 || y == 1 || y == 3 || y == 4)
    ||| (1 <= x <= 3) && (y == 0 || y == 4)
    ||| x == 2 && y == 2
}

/// The orthogonal step of index `d`, in hundredths of a cell.
pub open spec fn orthogonal_step(d: int) -> DirectionComponent {
    neighbour_step(d)
}

/// What diffusion lays: from pheromone `source`, `amount` of its type
/// `ph_type` at `target`.
#[derive(Clone, Copy, Debug, PartialEq, Eq, Structural)]
pub struct Spread {
    pub source: EntityIndex,
    pub ph_type: PheromoneType,
    pub target: PositionComponent,
    pub amount: u32,
}

/// Conservation of merged strength: laying a pheromone of strength `amount`
/// in a cell leaves exactly one pheromone of that type there, the new one,
/// whose strength is the sum of `amount` and the strength that lay there;
/// the pheromone that lay there no longer exists.
pub proof fn lemma_merge_conserves(a: &EntityStore, b: &EntityStore, pos: PositionComponent, t: PheromoneType, amount: nat, r: EntityIndex)
    requires
        a.wf(),
        a.pheromones_unique(),
        b.pheromones_unique(),
        deposited(a, b, pos, t, amount, r),
        a.strength_at(pos.cell_key(), t) + amount <= u32::MAX,
    ensures
        b.strength_at(pos.cell_key(), t) == a.strength_at(pos.cell_key(), t) + amount,
        forall|j: EntityIndex| #[trigger] b.is_pheromone_at(j, pos.cell_key(), t) <==> j == r,
        forall|j: EntityIndex| #[trigger] a.is_pheromone_at(j, pos.cell_key(), t) ==> !b.pheromone_types@.contains_key(j),
{
    let cell = pos.cell_key();
    let w = choose|i: EntityIndex| #[trigger] b.is_pheromone_at(i, cell, t);
    assert(b.is_pheromone_at(w, cell, t));
    assert forall|j: EntityIndex| #[trigger] a.is_pheromone_at(j, cell, t) implies !b.pheromone_types@.contains_key(j) by {
        a.lemma_pheromone_at(j, cell, t);
        assert(a.entity_types@.contains_key(j));
    }
}

/// The strength of a pheromone of strength `s` after `n` ticks away from
/// food and bases.
pub open spec fn strength_after(s: u32, n: nat) -> nat
    decreases n,
{
    if n == 0 {
        s as nat
    } else {
        evaporated(strength_after(s, (n - 1) as nat) as u32, false)
    }
}

proof fn lemma_strength_after_closed(s: u32, n: nat)
    ensures
        strength_after(s, n) == if n * EVAPORATION_PER_TICK <= s { s - n * EVAPORATION_PER_TICK } else { 0 },
    decreases n,
{
    if n > 0 {
        lemma_strength_after_closed(s, (n - 1) as nat);
    }
}

/// Evaporation ends: away from food and bases a pheromone of strength `s`
/// loses `EVAPORATION_PER_TICK` in every tick, strictly less each tick
/// while any is left, and none is left after `s / EVAPORATION_PER_TICK`
/// ticks, when evaporation destroys it.
pub proof fn lemma_evaporation_terminates(s: u32, n: nat)
    ensures
        strength_after(s, n) == if n * EVAPORATION_PER_TICK <= s { s - n * EVAPORATION_PER_TICK } else { 0 },
        strength_after(s, n) > 0 ==> strength_after(s, n + 1) < strength_after(s, n),
        strength_after(s, (s / EVAPORATION_PER_TICK) as nat) == 0,
{
    lemma_strength_after_closed(s, n);
    lemma_strength_after_closed(s, n + 1);
    lemma_strength_after_closed(s, (s / EVAPORATION_PER_TICK) as nat);
}

/// Whether `dir` moves at most one cell along each axis.
pub open spec fn step_ok(dir: DirectionComponent) -> bool {
    -CELL <= dir.x <= CELL && -CELL <= dir.y <= CELL
}

/// The heading of entity `id`: its last displacement, or one cell along the
/// x axis where it has not moved yet.
pub open spec fn heading_of(a: &EntityStore, id: EntityIndex) -> DirectionComponent {
    if a.dir_map().contains_key(id) {
        a.dir_map()[id]
    } else {
        DirectionComponent { x: CELL, y: 0 }
    }
}

/// Position of the `k`-th wall that `add_deneubourg_walls` builds.
pub open spec fn deneubourg_wall_position(k: int) -> PositionComponent {
    if k < 10 {
        let i = k / 2;
        let edge = i == 0 || i == 4;
        PositionComponent {
            x: (i * CELL) as i64,
            y: if k % 2 == 0 { if edge { 150 } else { 50 } } else { if edge { 350 } else { 450 } },
        }
    } else if k == 10 {
        PositionComponent { x: 50, y: 50 }
    } else if k == 11 {
        PositionComponent { x: 450, y: 50 }
    } else if k == 12 {
        PositionComponent { x: 50, y: 450 }
    } else if k == 13 {
        PositionComponent { x: 450, y: 450 }
    } else {
        PositionComponent { x: 250, y: 250 }
    }
}

/// Entity `id` of `s` is a wall at `p`.
pub open spec fn wall_at(s: &EntityStore, id: EntityIndex, p: PositionComponent) -> bool {
    &&& s.has_type(id, EntityType::Wall)
    &&& s.walls@.contains_key(id)
    &&& s.impenetrables@.contains_key(id)
    &&& s.pos_map().contains_key(id)
    &&& s.pos_map()[id] == p
}

/// Whether ant `id` of `a` carries food after arriving at `target`: it
/// drops its food on a base and picks food up on a food source.
pub open spec fn carries_after(a: &EntityStore, id: EntityIndex, target: PositionComponent) -> bool {
    if a.carrying_food@.contains_key(id) {
        !a.has_type_at(target.cell_key(), EntityType::Base)
    } else {
        a.has_type_at(target.cell_key(), EntityType::Sugar)
    }
}

/// The trail that ant `id` of `a` lays after a pass: towards the base when
/// it carried food before moving, else towards food, one tick of it spent.
pub open spec fn trail_after(a: &EntityStore, id: EntityIndex) -> ReleasingPheromoneComponent {
    ReleasingPheromoneComponent {
        ticks_left: (RELEASE_TICKS - 1) as u32,
        ph_type: if a.carrying_food@.contains_key(id) { PheromoneType::Base } else { PheromoneType::Food },
    }
}

/// Whether ant `id` of `a`, carrying food, arrives on a base at `target`.
pub open spec fn delivers(a: &EntityStore, id: EntityIndex, target: PositionComponent) -> bool {
    &&& a.ants@.contains_key(id)
    &&& a.carrying_food@.contains_key(id)
    &&& a.has_type_at(target.cell_key(), EntityType::Base)
}

/// How many of the ants of `a` below `n` deliver food at their places in
/// `places`.
pub open spec fn deliveries(a: &EntityStore, places: Map<EntityIndex, PositionComponent>, n: nat) -> nat
    decreases n,
{
    if n == 0 {
        0
    } else {
        deliveries(a, places, (n - 1) as nat) + if delivers(a, (n - 1) as EntityIndex, places[(n - 1) as EntityIndex]) { 1nat } else { 0nat }
    }
}

/// How many of the first `j` moves deliver food.
pub open spec fn move_deliveries(a: &EntityStore, moves: Seq<(EntityIndex, PositionComponent)>, j: int) -> nat
    decreases j,
{
    if j <= 0 {
        0
    } else {
        move_deliveries(a, moves, j - 1) + if delivers(a, moves[j - 1].0, moves[j - 1].1) { 1nat } else { 0nat }
    }
}

proof fn lemma_no_deliveries_between(a: &EntityStore, b: Map<EntityIndex, PositionComponent>, x: nat, y: nat)
    requires
        x <= y <= usize::MAX,
        forall|i: EntityIndex| x <= i < y ==> !#[trigger] a.ants@.contains_key(i),
    ensures
        deliveries(a, b, y) == deliveries(a, b, x),
    decreases y - x,
{
    if x < y {
        lemma_no_deliveries_between(a, b, x, (y - 1) as nat);
        assert(!a.ants@.contains_key((y - 1) as EntityIndex));
    }
}

/// Counting deliveries move by move, in increasing order of ants, counts
/// them ant by ant.
proof fn lemma_deliveries_by_moves(a: &EntityStore, b: Map<EntityIndex, PositionComponent>, moves: Seq<(EntityIndex, PositionComponent)>, n: nat, j: int)
    requires
        0 <= j <= moves.len(),
        n <= usize::MAX,
        forall|k1: int, k2: int| 0 <= k1 < k2 < moves.len() ==> #[trigger] moves[k1].0 < #[trigger] moves[k2].0,
        forall|k: int| 0 <= k < moves.len() ==> (#[trigger] moves[k]).0 < n && b[moves[k].0] == moves[k].1,
        forall|i: EntityIndex| #[trigger] a.ants@.contains_key(i) ==> i < n && exists|k: int| 0 <= k < moves.len() && #[trigger] moves[k].0 == i,
    ensures
        move_deliveries(a, moves, j) == deliveries(a, b, if j < moves.len() { moves[j].0 as nat } else { n }),
    decreases j,
{
    let bound: nat = if j < moves.len() { moves[j].0 as nat } else { n };
    if j == 0 {
        assert forall|i: EntityIndex| 0 <= i < bound implies !#[trigger] a.ants@.contains_key(i) by {
            if a.ants@.contains_key(i) {
                let k = choose|k: int| 0 <= k < moves.len() && #[trigger] moves[k].0 == i;
                if j < moves.len() && k > 0 {
                    assert(moves[0].0 < moves[k].0);
                }
            }
        }
        lemma_no_deliveries_between(a, b, 0, bound);
    } else {
        lemma_deliveries_by_moves(a, b, moves, n, j - 1);
        let prev = moves[j - 1].0;
        assert(deliveries(a, b, (prev + 1) as nat) == deliveries(a, b, prev as nat) + if delivers(a, prev, moves[j - 1].1) { 1nat } else { 0nat });
        assert forall|i: EntityIndex| prev + 1 <= i < bound implies !#[trigger] a.ants@.contains_key(i) by {
            if a.ants@.contains_key(i) {
                let k = choose|k: int| 0 <= k < moves.len() && #[trigger] moves[k].0 == i;
                if k <= j - 1 {
                    if k < j - 1 {
                        assert(moves[k].0 < moves[j - 1].0);
                    }
                } else if j < moves.len() && k > j {
                    assert(moves[j].0 < moves[k].0);
                }
            }
        }
        lemma_no_deliveries_between(a, b, (prev + 1) as nat, bound);
    }
}

/// A pheromone of type `t` in `cell` is still found there after a deposit.
pub proof fn lemma_deposit_keeps(x: &EntityStore, y: &EntityStore, pos: PositionComponent, t: PheromoneType, amount: nat, r: EntityIndex, cell: (u64, u64), t2: PheromoneType)
    requires
        x.wf(),
        x.pheromones_unique(),
        deposited(x, y, pos, t, amount, r),
        x.pheromone_at(cell, t2) is Some,
    ensures
        y.pheromone_at(cell, t2) is Some,
{
    if cell != pos.cell_key() || t2 != t {
        let w = choose|i: EntityIndex| #[trigger] x.is_pheromone_at(i, cell, t2);
        assert(x.is_pheromone_at(w, cell, t2));
        let gone = x.pheromone_at(pos.cell_key(), t);
        if gone is Some {
            let gi = gone->0;
            assert(x.is_pheromone_at(gi, pos.cell_key(), t));
            assert(w != gi);
        }
        assert(x.entity_types@.contains_key(w));
        assert(w != r);
        assert(y.is_pheromone_at(w, cell, t2));
    }
}

/// Pheromones that keep their types and places are still found.
pub proof fn lemma_pheromones_kept(x: &EntityStore, y: &EntityStore, cell: (u64, u64), t: PheromoneType)
    requires
        x.pheromone_at(cell, t) is Some,
        y.pheromone_types@ == x.pheromone_types@,
        forall|i: EntityIndex| #[trigger] x.pheromone_types@.contains_key(i) && x.pos_map().contains_key(i) ==>
            y.pos_map().contains_key(i) && y.pos_map()[i] == x.pos_map()[i],
    ensures
        y.pheromone_at(cell, t) is Some,
{
    let w = choose|i: EntityIndex| #[trigger] x.is_pheromone_at(i, cell, t);
    assert(x.is_pheromone_at(w, cell, t));
    assert(y.is_pheromone_at(w, cell, t));
}

/// Chooses the direction of an ant's next step, turned at random from its
/// heading. Its answer is checked before use: a step that leaves the arena
/// or enters a wall is drawn again.
pub trait TurnSampler {
    /// A step of about one cell, in hundredths of a cell, turned at random
    /// from `heading`.
    fn sample_direction(&mut self, heading: &DirectionComponent) -> DirectionComponent;
}

/// The simulation: an entity store on an arena of `width` by `height`
/// hundredths of a cell. In each tick a pheromone of at least
/// `min_spread_strength` spreads `spread_percent` percent of its strength to
/// its orthogonal neighbours.
pub struct Game {
    pub width: i64,
    pub height: i64,
    pub entity_store: EntityStore,
    pub spread_percent: u32,
    pub min_spread_strength: u32,
}

impl Game {
    /// The store is consistent, with at most one pheromone of each type in
    /// each cell, and the arena fits the store's coordinates.
    pub open spec fn wf(&self) -> bool {
        &&& self.entity_store.wf()
        &&& self.entity_store.pheromones_unique()
        &&& 0 <= self.width <= COORD_LIMIT
        &&& 0 <= self.height <= COORD_LIMIT
        &&& self.spread_percent <= 100
    }

    /// Whether the point (`x`, `y`) lies in the arena.
    pub open spec fn in_bounds(&self, x: int, y: int) -> bool {
        0 <= x < self.width && 0 <= y < self.height
    }

    /// Whether an ant may stand at `p`: in the arena, and not in a wall's cell.
    pub open spec fn can_occupy(&self, p: PositionComponent) -> bool {
        self.in_bounds(p.x as int, p.y as int) && !self.entity_store.impenetrable_at(p.cell_key())
    }

    /// A simulation of `entity_store` on an arena of `width` by `height`
    /// hundredths of a cell, where pheromones do not spread.
    pub fn init(entity_store: EntityStore, width: i64, height: i64) -> (r: Self)
        requires
            entity_store.wf(),
            entity_store.pheromones_unique(),
            0 <= width <= COORD_LIMIT,
            0 <= height <= COORD_LIMIT,
        ensures
            r.wf(),
            r.entity_store == entity_store,
            r.width == width,
            r.height == height,
            r.spread_percent == 0,
            r.min_spread_strength == 0,
    {
        Game { width, height, entity_store, spread_percent: 0, min_spread_strength: 0 }
    }

    /// From now on a pheromone of at least `min_strength` spreads
    /// `spread_percent` percent of its strength to each orthogonal neighbour
    /// in each tick.
    pub fn set_diffusion(&mut self, spread_percent: u32, min_strength: u32)
        requires
            old(self).wf(),
            spread_percent <= 100,
        ensures
            final(self).wf(),
            *final(self) == (Game { spread_percent, min_spread_strength: min_strength, ..*old(self) }),
    {
        self.spread_percent = spread_percent;
        self.min_spread_strength = min_strength;
    }

    fn pos_is_in_bounds(&self, pos: &PositionComponent) -> (r: bool)
        ensures
            r == self.in_bounds(pos.x as int, pos.y as int),
    {
        pos.x >= 0 && pos.y >= 0 && pos.x < self.width && pos.y < self.height
    }

    fn pos_can_be_occupied(&self, pos: &PositionComponent) -> (r: bool)
        requires
            self.wf(),
        ensures
            r == self.can_occupy(*pos),
    {
        if self.pos_is_in_bounds(pos) {
            !self.entity_store.pos_is_impenetrable(pos)
        } else {
            false
        }
    }

    /// Destroys pheromone `ph_id`: its position and all its components.
    fn remove_pheromone(&mut self, ph_id: EntityIndex)
        requires
            old(self).wf(),
            old(self).entity_store.pheromone_types@.contains_key(ph_id),
        ensures
            final(self).wf(),
            final(self).width == old(self).width,
            final(self).height == old(self).height,
            final(self).spread_percent == old(self).spread_percent,
            final(self).min_spread_strength == old(self).min_spread_strength,
            same_agents(&final(self).entity_store, &old(self).entity_store),
            final(self).entity_store.new_index == old(self).entity_store.new_index,
            final(self).entity_store.entity_types == old(self).entity_store.entity_types,
            final(self).entity_store.pos_map() == old(self).entity_store.pos_map().remove(ph_id),
            final(self).entity_store.dir_map() == old(self).entity_store.dir_map().remove(ph_id),
            final(self).entity_store.intensities@ == old(self).entity_store.intensities@.remove(ph_id),
            final(self).entity_store.pheromone_types@ == old(self).entity_store.pheromone_types@.remove(ph_id),
            final(self).entity_store.pheromone_generations@ == old(self).entity_store.pheromone_generations@.remove(ph_id),
            final(self).entity_store.pheromones@ == old(self).entity_store.pheromones@.remove(ph_id),
    {
        self.entity_store.intensities.remove(&ph_id);
        self.entity_store.pheromone_types.remove(&ph_id);
        self.entity_store.pheromone_generations.remove(&ph_id);
        self.entity_store.pheromones.remove(&ph_id);
        self.entity_store.remove_position(ph_id);
        proof {
            let a = old(self).entity_store;
            let b = self.entity_store;
            assert forall|i: EntityIndex, j: EntityIndex, cell: (u64, u64), t: PheromoneType|
                #[trigger] b.is_pheromone_at(i, cell, t) && #[trigger] b.is_pheromone_at(j, cell, t) implies i == j by {
                assert(a.is_pheromone_at(i, cell, t));
                assert(a.is_pheromone_at(j, cell, t));
            }
        }
    }

    /// Takes out the pheromone of type `ph_type` in the cell of `pos`, where
    /// there is one, and gives the strength and generation of its
    /// replacement: `extra_strength` plus its strength, and its generation
    /// (the current one where there was none).
    fn merge_and_clear_pheromones(&mut self, pos: &PositionComponent, ph_type: PheromoneType, extra_strength: u32) -> (r: (IntensityComponent, PheromoneGenerationComponent))
        requires
            old(self).wf(),
        ensures
            final(self).wf(),
            final(self).width == old(self).width,
            final(self).height == old(self).height,
            final(self).spread_percent == old(self).spread_percent,
            final(self).min_spread_strength == old(self).min_spread_strength,
            ({
                let a = old(self).entity_store;
                let b = final(self).entity_store;
                let cell = pos.cell_key();
                let gone = a.pheromone_at(cell, ph_type);
                &&& r.0.strength == sat_add(a.strength_at(cell, ph_type), extra_strength as nat)
                &&& r.1.generation == match gone {
                    Some(i) => a.pheromone_generations@[i].generation,
                    None => a.pheromone_generation,
                }
                &&& gone is Some ==> a.pheromone_types@.contains_key(gone->0)
                &&& b.pheromone_at(cell, ph_type) is None
                &&& same_agents(&b, &a)
                &&& b.new_index == a.new_index
                &&& b.entity_types@ == a.entity_types@
                &&& b.pos_map() == without_key(a.pos_map(), gone)
                &&& b.dir_map() == without_key(a.dir_map(), gone)
                &&& b.intensities@ == without_key(a.intensities@, gone)
                &&& b.pheromone_types@ == without_key(a.pheromone_types@, gone)
                &&& b.pheromone_generations@ == without_key(a.pheromone_generations@, gone)
                &&& b.pheromones@ == without_key(a.pheromones@, gone)
            }),
    {
        let ghost cell = pos.cell_key();
        let found = self.entity_store.get_pheromone_with_type_at(pos, ph_type);
        match found {
            Some(id) => {
                proof {
                    assert(self.entity_store.is_pheromone_at(id, cell, ph_type));
                    assert(self.entity_store.pheromone_at(cell, ph_type) == Some(id));
                }
                let strength = match self.entity_store.intensities.get(&id) {
                    Some(c) => c.strength,
                    None => 0,
                };
                let generation = match self.entity_store.pheromone_generations.get(&id) {
                    Some(c) => c.generation,
                    None => self.entity_store.pheromone_generation,
                };
                self.remove_pheromone(id);
                proof {
                    let b = self.entity_store;
                    assert(!(exists|i: EntityIndex| #[trigger] b.is_pheromone_at(i, cell, ph_type))) by {
                        if exists|i: EntityIndex| #[trigger] b.is_pheromone_at(i, cell, ph_type) {
                            let i = choose|i: EntityIndex| #[trigger] b.is_pheromone_at(i, cell, ph_type);
                            assert(old(self).entity_store.is_pheromone_at(i, cell, ph_type));
                        }
                    }
                }
                (IntensityComponent { strength: extra_strength.saturating_add(strength) }, PheromoneGenerationComponent { generation })
            },
            None => {
                (IntensityComponent { strength: extra_strength }, PheromoneGenerationComponent { generation: self.entity_store.pheromone_generation })
            },
        }
    }

    /// Lays a pheromone of type `ph_type` and strength `intensity` at `pos`,
    /// merged with the one of that type already in the cell; returns the new
    /// pheromone, the only one of its type in the cell.
    pub fn increase_pheromone_strength_at(&mut self, pos: &PositionComponent, ph_type: PheromoneType, intensity: &IntensityComponent) -> (r: EntityIndex)
        requires
            old(self).wf(),
            old(self).entity_store.new_index < usize::MAX,
            coord_ok(*pos),
        ensures
            final(self).wf(),
            final(self).width == old(self).width,
            final(self).height == old(self).height,
            final(self).spread_percent == old(self).spread_percent,
            final(self).min_spread_strength == old(self).min_spread_strength,
            deposited(&old(self).entity_store, &final(self).entity_store, *pos, ph_type, intensity.strength as nat, r),
    {
        let ghost cell = pos.cell_key();
        let (merged, generation) = self.merge_and_clear_pheromones(pos, ph_type, intensity.strength);
        let ghost mid = self.entity_store;
        let ph_id = self.entity_store.create_entity(EntityType::Pheromone);
        self.entity_store.update_position(ph_id, pos);
        self.entity_store.intensities.insert(ph_id, merged);
        self.entity_store.pheromone_types.insert(ph_id, ph_type);
        self.entity_store.pheromone_generations.insert(ph_id, generation);
        proof {
            let a = old(self).entity_store;
            let b = self.entity_store;
            assert(!mid.pos_map().contains_key(ph_id));
            assert(b.pos_map() =~= without_key(a.pos_map(), a.pheromone_at(cell, ph_type)).insert(ph_id, *pos));
            assert(b.is_pheromone_at(ph_id, cell, ph_type));
            assert forall|j: EntityIndex| #[trigger] b.is_pheromone_at(j, cell, ph_type) implies j == ph_id by {
                if j != ph_id {
                    assert(mid.is_pheromone_at(j, cell, ph_type));
                }
            }
            assert(b.pheromone_at(cell, ph_type) == Some(ph_id));
            assert forall|i: EntityIndex, j: EntityIndex, c: (u64, u64), t: PheromoneType|
                #[trigger] b.is_pheromone_at(i, c, t) && #[trigger] b.is_pheromone_at(j, c, t) implies i == j by {
                if i != ph_id && j != ph_id {
                    assert(mid.is_pheromone_at(i, c, t));
                    assert(mid.is_pheromone_at(j, c, t));
                } else if i == ph_id && j != ph_id {
                    assert(mid.is_pheromone_at(j, c, t));
                } else if j == ph_id && i != ph_id {
                    assert(mid.is_pheromone_at(i, c, t));
                }
            }
        }
        ph_id
    }

    /// One tick of trail laying by ant `ant_id`: while it has ticks left it
    /// lays a pheromone of its trail's type in its cell, ten times stronger
    /// on the trail's source, and counts the tick; with none left it stops.
    fn release_pheromones(&mut self, ant_id: EntityIndex)
        requires
            old(self).wf(),
            old(self).entity_store.ants@.contains_key(ant_id),
            old(self).entity_store.new_index < usize::MAX,
        ensures
            final(self).wf(),
            final(self).width == old(self).width,
            final(self).height == old(self).height,
            final(self).spread_percent == old(self).spread_percent,
            final(self).min_spread_strength == old(self).min_spread_strength,
            ({
                let a = old(self).entity_store;
                let b = final(self).entity_store;
                if !a.releasing_pheromones@.contains_key(ant_id) {
                    b == a
                } else if a.releasing_pheromones@[ant_id].ticks_left == 0 {
                    &&& b.releasing_pheromones@ == a.releasing_pheromones@.remove(ant_id)
                    &&& b == (EntityStore { releasing_pheromones: b.releasing_pheromones, ..a })
                } else {
                    let c = a.releasing_pheromones@[ant_id];
                    let pos = a.pos_map()[ant_id];
                    let amount: nat = if a.has_type_at(pos.cell_key(), source_of(c.ph_type)) {
                        (NEW_PHEROMONE_STRENGTH * SOURCE_STRENGTH_FACTOR) as nat
                    } else {
                        NEW_PHEROMONE_STRENGTH as nat
                    };
                    &&& b.releasing_pheromones@ == if c.ticks_left == 1 {
                        a.releasing_pheromones@.remove(ant_id)
                    } else {
                        a.releasing_pheromones@.insert(
                            ant_id,
                            ReleasingPheromoneComponent { ticks_left: (c.ticks_left - 1) as u32, ph_type: c.ph_type },
                        )
                    }
                    &&& deposited(
                        &(EntityStore { releasing_pheromones: b.releasing_pheromones, ..a }),
                        &b,
                        pos,
                        c.ph_type,
                        amount,
                        a.new_index,
                    )
                }
            }),
    {
        let comp = match self.entity_store.releasing_pheromones.get(&ant_id) {
            Some(c) => *c,
            None => {
                return;
            },
        };
        if comp.ticks_left == 0 {
            self.entity_store.releasing_pheromones.remove(&ant_id);
            proof {
                self.entity_store.lemma_unique_frame(&old(self).entity_store);
            }
            return;
        }
        let ant_pos = match self.entity_store.get_position(ant_id) {
            Some(p) => *p,
            None => {
                return;
            },
        };
        let source = match comp.ph_type {
            PheromoneType::Food => EntityType::Sugar,
            PheromoneType::Base => EntityType::Base,
        };
        let strength = if self.entity_store.get_entities_with_type_at(&ant_pos, source).is_some() {
            NEW_PHEROMONE_STRENGTH * SOURCE_STRENGTH_FACTOR
        } else {
            NEW_PHEROMONE_STRENGTH
        };
        if comp.ticks_left == 1 {
            self.entity_store.releasing_pheromones.remove(&ant_id);
        } else {
            self.entity_store.releasing_pheromones.insert(
                ant_id,
                ReleasingPheromoneComponent { ticks_left: comp.ticks_left - 1, ph_type: comp.ph_type },
            );
        }
        proof {
            self.entity_store.lemma_unique_frame(&old(self).entity_store);
        }
        self.increase_pheromone_strength_at(&ant_pos, comp.ph_type, &IntensityComponent { strength });
    }

    /// Ant `ant_id` has arrived at `new_pos`: it lays a trail from now on
    /// (towards the base when it carries food, else towards food), delivers
    /// its food on a base or picks food up on a food source, forgetting the
    /// cells it visited when it does, and remembers the new cell.
    fn handle_new_ant_pos(&mut self, ant_id: EntityIndex, new_pos: &PositionComponent)
        requires
            old(self).wf(),
            old(self).entity_store.ants@.contains_key(ant_id),
        ensures
            final(self).wf(),
            final(self).width == old(self).width,
            final(self).height == old(self).height,
            final(self).spread_percent == old(self).spread_percent,
            final(self).min_spread_strength == old(self).min_spread_strength,
            ({
                let a = old(self).entity_store;
                let b = final(self).entity_store;
                let cell = new_pos.cell_key();
                let carrying = a.carrying_food@.contains_key(ant_id);
                let delivers = carrying && a.has_type_at(cell, EntityType::Base);
                let picks_up = !carrying && a.has_type_at(cell, EntityType::Sugar);
                let memory = a.memories@[ant_id];
                &&& b == (EntityStore {
                    releasing_pheromones: b.releasing_pheromones,
                    carrying_food: b.carrying_food,
                    memories: b.memories,
                    food_in_base: b.food_in_base,
                    ..a
                })
                &&& b.releasing_pheromones@ == a.releasing_pheromones@.insert(
                    ant_id,
                    ReleasingPheromoneComponent {
                        ticks_left: RELEASE_TICKS,
                        ph_type: if carrying { PheromoneType::Base } else { PheromoneType::Food },
                    },
                )
                &&& b.food_in_base == if delivers { sat_add(a.food_in_base as nat, 1) } else { a.food_in_base }
                &&& b.carrying_food@ == if delivers {
                    a.carrying_food@.remove(ant_id)
                } else if picks_up {
                    a.carrying_food@.insert(ant_id, CarryingFoodComponent {})
                } else {
                    a.carrying_food@
                }
                &&& b.memories@ == a.memories@.insert(ant_id, b.memories@[ant_id])
                &&& b.memories@[ant_id].size == memory.size
                &&& b.memories@[ant_id]@ == if delivers || picks_up {
                    Seq::empty().push(new_pos.cell())
                } else {
                    ShortMemory::remembered(memory@, memory.size as nat, new_pos.cell())
                }
            }),
    {
        let carrying_food = self.entity_store.carrying_food.contains_key(&ant_id);
        let is_base = self.entity_store.get_entities_with_type_at(new_pos, EntityType::Base).is_some();
        let is_food = self.entity_store.get_entities_with_type_at(new_pos, EntityType::Sugar).is_some();
        let ph_type = if carrying_food { PheromoneType::Base } else { PheromoneType::Food };
        self.entity_store.releasing_pheromones.insert(
            ant_id,
            ReleasingPheromoneComponent { ticks_left: RELEASE_TICKS, ph_type },
        );
        if carrying_food && is_base {
            self.entity_store.food_in_base = self.entity_store.food_in_base.saturating_add(1);
            self.entity_store.carrying_food.remove(&ant_id);
            self.entity_store.clear_memory(ant_id);
        }
        if !carrying_food && is_food {
            self.entity_store.carrying_food.insert(ant_id, CarryingFoodComponent {});
            self.entity_store.clear_memory(ant_id);
        }
        let ghost before_visit = self.entity_store.memories@[ant_id];
        proof {
            assert(before_visit.wf());
        }
        self.entity_store.add_to_short_memory(ant_id, new_pos);
        proof {
            self.entity_store.lemma_unique_frame(&old(self).entity_store);
            let a = old(self).entity_store;
            let b = self.entity_store;
            assert(a.memories@[ant_id].wf());
            if (carrying_food && is_base) || (!carrying_food && is_food) {
                assert(before_visit@.len() == 0);
                assert(b.memories@[ant_id]@ == before_visit@.push(new_pos.cell()));
                assert(b.memories@[ant_id]@ =~= Seq::empty().push(new_pos.cell()));
            } else {
                assert(b.memories@[ant_id]@ == ShortMemory::remembered(a.memories@[ant_id]@, a.memories@[ant_id].size as nat, new_pos.cell()));
            }
        }
    }

    /// Evaporation: every pheromone away from food and bases loses
    /// `EVAPORATION_PER_TICK` of its strength, and is destroyed when none is
    /// left.
    pub fn evaporate_pheromones(&mut self)
        requires
            old(self).wf(),
        ensures
            final(self).wf(),
            final(self).width == old(self).width,
            final(self).height == old(self).height,
            final(self).spread_percent == old(self).spread_percent,
            final(self).min_spread_strength == old(self).min_spread_strength,
            evaporation(&old(self).entity_store, &final(self).entity_store),
    {
        let ghost a = self.entity_store;
        let n = self.entity_store.new_index;
        let mut id: usize = 0;
        proof {
            assert(a.pheromone_types@ =~= a.pheromone_types@.remove_keys(evaporated_below(&a, 0)));
            assert(a.pheromone_generations@ =~= a.pheromone_generations@.remove_keys(evaporated_below(&a, 0)));
            assert(a.pheromones@ =~= a.pheromones@.remove_keys(evaporated_below(&a, 0)));
            assert(a.pos_map() =~= a.pos_map().remove_keys(evaporated_below(&a, 0)));
            assert(a.dir_map() =~= a.dir_map().remove_keys(evaporated_below(&a, 0)));
        }
        while id < n
            invariant
                self.wf(),
                self.width == old(self).width,
                self.height == old(self).height,
                self.spread_percent == old(self).spread_percent,
                self.min_spread_strength == old(self).min_spread_strength,
                a == old(self).entity_store,
                a.wf(),
                n == a.new_index,
                id <= n,
                ({
                    let c = self.entity_store;
                    let gone = evaporated_below(&a, id as int);
                    &&& same_agents(&c, &a)
                    &&& c.new_index == a.new_index
                    &&& c.entity_types == a.entity_types
                    &&& forall|j: EntityIndex| #[trigger] c.intensities@.contains_key(j) <==>
                        a.intensities@.contains_key(j) && !(j < id && evaporates(&a, j))
                    &&& forall|j: EntityIndex| #[trigger] c.intensities@.contains_key(j) ==>
                        c.intensities@[j].strength == if j < id {
                            evaporated(a.intensities@[j].strength, on_source(&a, a.pos_map()[j].cell_key()))
                        } else {
                            a.intensities@[j].strength as nat
                        }
                    &&& c.pheromone_types@ == a.pheromone_types@.remove_keys(gone)
                    &&& c.pheromone_generations@ == a.pheromone_generations@.remove_keys(gone)
                    &&& c.pheromones@ == a.pheromones@.remove_keys(gone)
                    &&& c.pos_map() == a.pos_map().remove_keys(gone)
                    &&& c.dir_map() == a.dir_map().remove_keys(gone)
                }),
            decreases n - id,
        {
            let ghost c = self.entity_store;
            let strength = match self.entity_store.intensities.get(&id) {
                Some(intensity) => Some(intensity.strength),
                None => None,
            };
            match strength {
                Some(s) => {
                    proof {
                        assert(a.intensities@.contains_key(id));
                        assert(c.pheromone_types@.contains_key(id));
                        assert(!evaporated_below(&a, id as int).contains(id));
                        assert(c.pos_map()[id] == a.pos_map()[id]);
                    }
                    let pos = match self.entity_store.get_position(id) {
                        Some(p) => *p,
                        None => PositionComponent { x: 0, y: 0 },
                    };
                    let on_sugar = self.entity_store.get_entities_with_type_at(&pos, EntityType::Sugar).is_some();
                    let on_base = self.entity_store.get_entities_with_type_at(&pos, EntityType::Base).is_some();
                    proof {
                        assert forall|j: EntityIndex| #[trigger] a.has_type(j, EntityType::Sugar) implies
                            c.pos_map().contains_key(j) == a.pos_map().contains_key(j)
                            && (a.pos_map().contains_key(j) ==> c.pos_map()[j] == a.pos_map()[j]) by {
                            if a.intensities@.contains_key(j) {
                                assert(a.pheromone_types@.contains_key(j));
                            }
                            assert(!evaporated_below(&a, id as int).contains(j));
                        }
                        assert forall|j: EntityIndex| #[trigger] a.has_type(j, EntityType::Base) implies
                            c.pos_map().contains_key(j) == a.pos_map().contains_key(j)
                            && (a.pos_map().contains_key(j) ==> c.pos_map()[j] == a.pos_map()[j]) by {
                            if a.intensities@.contains_key(j) {
                                assert(a.pheromone_types@.contains_key(j));
                            }
                            assert(!evaporated_below(&a, id as int).contains(j));
                        }
                        lemma_type_at_frame(&c, &a, pos.cell_key(), EntityType::Sugar);
                        lemma_type_at_frame(&c, &a, pos.cell_key(), EntityType::Base);
                    }
                    if !(on_sugar || on_base) {
                        let left = s.saturating_sub(EVAPORATION_PER_TICK);
                        if left == 0 {
                            self.remove_pheromone(id);
                        } else {
                            self.entity_store.intensities.insert(id, IntensityComponent { strength: left });
                            proof {
                                self.entity_store.lemma_unique_frame(&c);
                            }
                        }
                    }
                },
                None => {},
            }
            proof {
                let c2 = self.entity_store;
                let g0 = evaporated_below(&a, id as int);
                let g1 = evaporated_below(&a, id as int + 1);
                if evaporates(&a, id) {
                    assert(g1 =~= g0.insert(id));
                    assert(c2.pheromone_types@ =~= a.pheromone_types@.remove_keys(g1));
                    assert(c2.pheromone_generations@ =~= a.pheromone_generations@.remove_keys(g1));
                    assert(c2.pheromones@ =~= a.pheromones@.remove_keys(g1));
                    assert(c2.pos_map() =~= a.pos_map().remove_keys(g1));
                    assert(c2.dir_map() =~= a.dir_map().remove_keys(g1));
                } else {
                    assert(g1 =~= g0);
                }
                assert forall|j: EntityIndex| #[trigger] c2.intensities@.contains_key(j) <==>
                    a.intensities@.contains_key(j) && !(j < id + 1 && evaporates(&a, j)) by {
                    if j != id {
                        assert(c2.intensities@.contains_key(j) == c.intensities@.contains_key(j));
                    }
                }
                assert forall|j: EntityIndex| #[trigger] c2.intensities@.contains_key(j) implies
                    c2.intensities@[j].strength == if j < id + 1 {
                        evaporated(a.intensities@[j].strength, on_source(&a, a.pos_map()[j].cell_key()))
                    } else {
                        a.intensities@[j].strength as nat
                    } by {
                    if j != id {
                        assert(c.intensities@.contains_key(j));
                    }
                }
            }
            id += 1;
        }
        proof {
            let b = self.entity_store;
            assert forall|j: EntityIndex| #[trigger] b.intensities@.contains_key(j) implies j < n by {
                assert(a.intensities@.contains_key(j));
            }
        }
    }

    /// Whether an ant at `pos`, heading along `heading`, may step to
    /// neighbour `k` following a pheromone of type `t`: the cell can be
    /// occupied, holds such a pheromone, the turn is not too sharp (unless
    /// `allow_sharp_turns`), and the ant does not remember the cell.
    pub open spec fn admissible(&self, ant_id: EntityIndex, pos: PositionComponent, heading: DirectionComponent, t: PheromoneType, allow_sharp_turns: bool, k: int) -> bool {
        let p = offset(pos, neighbour_step(k));
        &&& 0 <= k < 8
        &&& self.can_occupy(p)
        &&& self.entity_store.pheromone_at(p.cell_key(), t) is Some
        &&& allow_sharp_turns || !turn_too_sharp(heading, neighbour_step(k))
        &&& !self.entity_store.memories@[ant_id]@.contains(p.cell())
    }

    /// Strength of the pheromone of type `t` at neighbour `k` of `pos`.
    pub open spec fn neighbour_strength(&self, pos: PositionComponent, t: PheromoneType, k: int) -> nat {
        self.entity_store.strength_at(offset(pos, neighbour_step(k)).cell_key(), t)
    }

    /// Neighbour `k` is the admissible one with the strongest pheromone,
    /// the first of them in index order.
    pub open spec fn strongest(&self, ant_id: EntityIndex, pos: PositionComponent, heading: DirectionComponent, t: PheromoneType, allow_sharp_turns: bool, k: int) -> bool {
        &&& self.admissible(ant_id, pos, heading, t, allow_sharp_turns, k)
        &&& forall|k2: int| #[trigger] self.admissible(ant_id, pos, heading, t, allow_sharp_turns, k2) ==> {
            &&& self.neighbour_strength(pos, t, k2) <= self.neighbour_strength(pos, t, k)
            &&& k2 < k ==> self.neighbour_strength(pos, t, k2) < self.neighbour_strength(pos, t, k)
        }
    }

    /// The trail that ant `ant_id` follows: towards its base while it
    /// carries food, towards food otherwise.
    pub open spec fn trail_type(&self, ant_id: EntityIndex) -> PheromoneType {
        if self.entity_store.carrying_food@.contains_key(ant_id) {
            PheromoneType::Base
        } else {
            PheromoneType::Food
        }
    }

    /// Whether an ant at `pos` may turn sharply: on food or on a base.
    pub open spec fn sharp_turns_allowed(&self, pos: PositionComponent) -> bool {
        self.entity_store.has_type_at(pos.cell_key(), EntityType::Sugar)
            || self.entity_store.has_type_at(pos.cell_key(), EntityType::Base)
    }

    /// Where ant `ant_id` at `pos`, heading along `heading`, has an admissible
    /// neighbour on its trail, `step` leads to the strongest one.
    pub open spec fn follows_trail(&self, ant_id: EntityIndex, pos: PositionComponent, heading: DirectionComponent, step: DirectionComponent) -> bool {
        let t = self.trail_type(ant_id);
        let sharp = self.sharp_turns_allowed(pos);
        (exists|k: int| #[trigger] self.admissible(ant_id, pos, heading, t, sharp, k)) ==>
            exists|k: int| #[trigger] self.strongest(ant_id, pos, heading, t, sharp, k) && step == neighbour_step(k)
    }

    fn neighbour(k: usize) -> (r: DirectionComponent)
        ensures
            r == neighbour_step(k as int),
    {
        if k == 0 {
            DirectionComponent { x: CELL, y: 0 }
        } else if k == 1 {
            DirectionComponent { x: -CELL, y: 0 }
        } else if k == 2 {
            DirectionComponent { x: 0, y: CELL }
        } else if k == 3 {
            DirectionComponent { x: 0, y: -CELL }
        } else if k == 4 {
            DirectionComponent { x: CELL, y: CELL }
        } else if k == 5 {
            DirectionComponent { x: CELL, y: -CELL }
        } else if k == 6 {
            DirectionComponent { x: -CELL, y: CELL }
        } else {
            DirectionComponent { x: -CELL, y: -CELL }
        }
    }

    fn is_turn_too_sharp(heading: &DirectionComponent, step: &DirectionComponent) -> (r: bool)
        requires
            dir_ok(*heading),
            -CELL <= step.x <= CELL,
            -CELL <= step.y <= CELL,
        ensures
            r == turn_too_sharp(*heading, *step),
    {
        let zero = heading.x == 0 && heading.y == 0;
        let hx: i128 = if zero { 1 } else { heading.x as i128 };
        let hy: i128 = if zero { 0 } else { heading.y as i128 };
        let sx: i128 = step.x as i128;
        let sy: i128 = step.y as i128;
        proof {
            assert(-200_000_000_000_000 <= hx * sx <= 200_000_000_000_000) by (nonlinear_arith)
                requires -2_000_000_000_000 <= hx <= 2_000_000_000_000, -100 <= sx <= 100;
            assert(-200_000_000_000_000 <= hy * sy <= 200_000_000_000_000) by (nonlinear_arith)
                requires -2_000_000_000_000 <= hy <= 2_000_000_000_000, -100 <= sy <= 100;
            assert(0 <= hx * hx <= 4_000_000_000_000_000_000_000_000) by (nonlinear_arith)
                requires -2_000_000_000_000 <= hx <= 2_000_000_000_000;
            assert(0 <= hy * hy <= 4_000_000_000_000_000_000_000_000) by (nonlinear_arith)
                requires -2_000_000_000_000 <= hy <= 2_000_000_000_000;
            assert(0 <= sx * sx <= 10_000) by (nonlinear_arith)
                requires -100 <= sx <= 100;
            assert(0 <= sy * sy <= 10_000) by (nonlinear_arith)
                requires -100 <= sy <= 100;
        }
        let dot: i128 = hx * sx + hy * sy;
        if dot >= 0 {
            return false;
        }
        let d: u128 = (-dot) as u128;
        let hh: u128 = (hx * hx + hy * hy) as u128;
        let ss: u128 = (sx * sx + sy * sy) as u128;
        proof {
            assert(d * d <= 160_000_000_000_000_000_000_000_000_000) by (nonlinear_arith)
                requires d <= 400_000_000_000_000;
            assert(d * d * COS2_SCALE <= 160_000_000_000_000_000_000_000_000_000_000_000_000) by (nonlinear_arith)
                requires d * d <= 160_000_000_000_000_000_000_000_000_000;
            assert(hh * ss <= 160_000_000_000_000_000_000_000_000_000) by (nonlinear_arith)
                requires hh <= 8_000_000_000_000_000_000_000_000, ss <= 20_000;
            assert(COS2_80 * (hh * ss) <= 160_000_000_000_000_000_000_000_000_000 * 30_153_690) by (nonlinear_arith)
                requires hh * ss <= 160_000_000_000_000_000_000_000_000_000;
            assert(d * d == dot * dot) by (nonlinear_arith)
                requires d == -dot;
        }
        d * d * COS2_SCALE > COS2_80 * (hh * ss)
    }

    /// The admissible neighbour of `pos` with the strongest pheromone of type
    /// `ph_type` (the first such in index order), or `None` where no
    /// neighbour is admissible.
    fn dir_to_strongest_adjacent_pheromone(&self, ant_id: EntityIndex, pos: &PositionComponent, heading: &DirectionComponent, ph_type: PheromoneType, allow_sharp_turns: bool) -> (r: Option<usize>)
        requires
            self.wf(),
            self.entity_store.memories@.contains_key(ant_id),
            coord_ok(*pos),
            dir_ok(*heading),
        ensures
            match r {
                Some(k) => k < 8 && self.strongest(ant_id, *pos, *heading, ph_type, allow_sharp_turns, k as int),
                None => forall|k: int| !#[trigger] self.admissible(ant_id, *pos, *heading, ph_type, allow_sharp_turns, k),
            },
    {
        let mut best: Option<usize> = None;
        let mut best_strength: u32 = 0;
        let mut k: usize = 0;
        while k < 8
            invariant
                self.wf(),
                self.entity_store.memories@.contains_key(ant_id),
                coord_ok(*pos),
                dir_ok(*heading),
                k <= 8,
                match best {
                    Some(b) => {
                        &&& b < k
                        &&& self.admissible(ant_id, *pos, *heading, ph_type, allow_sharp_turns, b as int)
                        &&& best_strength == self.neighbour_strength(*pos, ph_type, b as int)
                        &&& forall|k2: int| 0 <= k2 < k && #[trigger] self.admissible(ant_id, *pos, *heading, ph_type, allow_sharp_turns, k2) ==> {
                            &&& self.neighbour_strength(*pos, ph_type, k2) <= best_strength
                            &&& k2 < b ==> self.neighbour_strength(*pos, ph_type, k2) < best_strength
                        }
                    },
                    None => forall|k2: int| 0 <= k2 < k ==> !#[trigger] self.admissible(ant_id, *pos, *heading, ph_type, allow_sharp_turns, k2),
                },
            decreases 8 - k,
        {
            let step = Self::neighbour(k);
            let new_pos = PositionComponent { x: pos.x + step.x, y: pos.y + step.y };
            assert(new_pos == offset(*pos, neighbour_step(k as int)));
            let mut candidate: Option<u32> = None;
            if self.pos_can_be_occupied(&new_pos) {
                match self.entity_store.get_pheromone_with_type_at(&new_pos, ph_type) {
                    Some(ph_id) => {
                        proof {
                            self.entity_store.lemma_pheromone_at(ph_id, new_pos.cell_key(), ph_type);
                        }
                        let strength = match self.entity_store.intensities.get(&ph_id) {
                            Some(c) => c.strength,
                            None => 0,
                        };
                        if (allow_sharp_turns || !Self::is_turn_too_sharp(heading, &step))
                            && !self.entity_store.in_short_memory(ant_id, &new_pos) {
                            candidate = Some(strength);
                        }
                    },
                    None => {
                        proof {
                            assert(self.entity_store.pheromone_at(new_pos.cell_key(), ph_type) is None);
                        }
                    },
                }
            }
            proof {
                match candidate {
                    Some(s) => {
                        assert(self.admissible(ant_id, *pos, *heading, ph_type, allow_sharp_turns, k as int));
                        assert(s == self.neighbour_strength(*pos, ph_type, k as int));
                    },
                    None => {
                        assert(!self.admissible(ant_id, *pos, *heading, ph_type, allow_sharp_turns, k as int));
                    },
                }
            }
            match candidate {
                Some(s) => {
                    let better = match best {
                        Some(_) => s > best_strength,
                        None => true,
                    };
                    if better {
                        best = Some(k);
                        best_strength = s;
                    }
                },
                None => {},
            }
            k += 1;
        }
        proof {
            match best {
                Some(b) => {
                    assert forall|k2: int| #[trigger] self.admissible(ant_id, *pos, *heading, ph_type, allow_sharp_turns, k2) implies {
                        &&& self.neighbour_strength(*pos, ph_type, k2) <= self.neighbour_strength(*pos, ph_type, b as int)
                        &&& k2 < b ==> self.neighbour_strength(*pos, ph_type, k2) < self.neighbour_strength(*pos, ph_type, b as int)
                    } by {
                        assert(0 <= k2 < 8);
                    }
                },
                None => {},
            }
        }
        best
    }

    /// Whether the random step `dir` of ant `ant_id` at `pos`, drawn as the
    /// `tries`-th sample, is taken: at most one cell along each axis, onto a
    /// cell that can be occupied and, before `ESCAPE_SAMPLES` samples, that
    /// the ant does not remember.
    pub open spec fn accepts_sample(&self, ant_id: EntityIndex, pos: PositionComponent, dir: DirectionComponent, tries: u32) -> bool {
        &&& step_ok(dir)
        &&& self.in_bounds(pos.x + dir.x, pos.y + dir.y)
        &&& self.can_occupy(offset(pos, dir))
        &&& (tries >= ESCAPE_SAMPLES || !self.entity_store.memories@[ant_id]@.contains(offset(pos, dir).cell()))
    }

    fn sample_accepted(&self, ant_id: EntityIndex, pos: &PositionComponent, dir: &DirectionComponent, tries: u32) -> (r: bool)
        requires
            self.wf(),
            self.entity_store.memories@.contains_key(ant_id),
            coord_ok(*pos),
        ensures
            r == self.accepts_sample(ant_id, *pos, *dir, tries),
    {
        if dir.x < -CELL || dir.x > CELL || dir.y < -CELL || dir.y > CELL {
            return false;
        }
        let new_pos = PositionComponent { x: pos.x + dir.x, y: pos.y + dir.y };
        assert(new_pos == offset(*pos, *dir));
        if !self.pos_can_be_occupied(&new_pos) {
            return false;
        }
        tries >= ESCAPE_SAMPLES || !self.entity_store.in_short_memory(ant_id, &new_pos)
    }

    /// The next step of ant `ant_id` at `pos`, heading along `direction`:
    /// towards the strongest admissible pheromone of the trail it follows
    /// (food while it carries none, else its base), without drawing from
    /// `sampler`; otherwise a random turn drawn from `sampler` until
    /// `sample_accepted` takes it. After `ESCAPE_SAMPLES`
    /// draws the ant turns around and accepts remembered cells; after
    /// `MAX_TURN_SAMPLES` it stays put.
    fn get_new_ant_direction<S: TurnSampler>(&self, ant_id: EntityIndex, pos: &PositionComponent, direction: &DirectionComponent, sampler: &mut S) -> (r: DirectionComponent)
        requires
            self.wf(),
            self.entity_store.memories@.contains_key(ant_id),
            coord_ok(*pos),
            dir_ok(*direction),
        ensures
            step_ok(r),
            (exists|k: int| #[trigger] self.admissible(ant_id, *pos, *direction, self.trail_type(ant_id), self.sharp_turns_allowed(*pos), k))
                ==> *final(sampler) == *old(sampler),
            r == (DirectionComponent { x: 0, y: 0 }) || {
                &&& self.in_bounds(pos.x + r.x, pos.y + r.y)
                &&& self.can_occupy(offset(*pos, r))
            },
            self.follows_trail(ant_id, *pos, *direction, r),
    {
        let allow_sharp_turns = self.entity_store.get_entities_with_type_at(pos, EntityType::Sugar).is_some()
            || self.entity_store.get_entities_with_type_at(pos, EntityType::Base).is_some();
        let ph_type = if self.entity_store.carrying_food.contains_key(&ant_id) {
            PheromoneType::Base
        } else {
            PheromoneType::Food
        };
        let ghost t = self.trail_type(ant_id);
        let ghost sharp = self.sharp_turns_allowed(*pos);
        proof {
            assert(allow_sharp_turns == sharp);
            assert(ph_type == t);
        }
        match self.dir_to_strongest_adjacent_pheromone(ant_id, pos, direction, ph_type, allow_sharp_turns) {
            Some(k) => {
                let step = Self::neighbour(k);
                proof {
                    assert(self.strongest(ant_id, *pos, *direction, t, sharp, k as int) && step == neighbour_step(k as int));
                    assert(exists|k2: int| #[trigger] self.strongest(ant_id, *pos, *direction, t, sharp, k2) && step == neighbour_step(k2));
                }
                return step;
            },
            None => {},
        }
        let mut heading = *direction;
        let mut dir = sampler.sample_direction(&heading);
        let mut tries: u32 = 1;
        loop
            invariant
                self.wf(),
                self.entity_store.memories@.contains_key(ant_id),
                coord_ok(*pos),
                dir_ok(heading),
                1 <= tries <= MAX_TURN_SAMPLES,
                t == self.trail_type(ant_id),
                sharp == self.sharp_turns_allowed(*pos),
                forall|k: int| !#[trigger] self.admissible(ant_id, *pos, *direction, t, sharp, k),
            decreases MAX_TURN_SAMPLES - tries,
        {
            if self.sample_accepted(ant_id, pos, &dir, tries) {
                return dir;
            }
            if tries >= MAX_TURN_SAMPLES {
                return DirectionComponent { x: 0, y: 0 };
            }
            if tries == ESCAPE_SAMPLES {
                heading = DirectionComponent { x: -heading.x, y: -heading.y };
            }
            dir = sampler.sample_direction(&heading);
            tries += 1;
        }
    }

    /// Where each ant of `a` stands in `b`: where it stood, or on a cell of
    /// the arena that it could occupy in this game.
    pub open spec fn ants_placed(&self, a: &EntityStore, b: &EntityStore) -> bool {
        forall|id: EntityIndex| #[trigger] a.ants@.contains_key(id) ==> {
            &&& b.pos_map().contains_key(id)
            &&& b.pos_map()[id] == a.pos_map()[id] || self.can_occupy(b.pos_map()[id])
        }
    }

    /// Ant `id` may end the ants' pass at `target`: a builder stays where it
    /// is; any other ant moves at most one cell along each axis, to the
    /// strongest admissible neighbour on its trail where there is one, and
    /// otherwise to a cell of the arena that it may occupy, or stays.
    pub open spec fn planned_move(&self, id: EntityIndex, target: PositionComponent) -> bool {
        let a = self.entity_store;
        let pos = a.pos_map()[id];
        if a.builders@.contains_key(id) {
            target == pos
        } else {
            &&& target == pos || self.can_occupy(target)
            &&& step_ok(displacement(pos, target))
            &&& self.follows_trail(id, pos, heading_of(&a, id), displacement(pos, target))
        }
    }

    /// `b` is this world after the ants' pass: every ant made its planned
    /// move, picked up or delivered food on arrival (counting each delivery),
    /// and lays its trail; food sources, bases, walls and builders are
    /// untouched, and the only entities created are pheromones.
    pub open spec fn ants_moved(&self, b: &EntityStore) -> bool {
        let a = self.entity_store;
        &&& forall|id: EntityIndex| #[trigger] a.ants@.contains_key(id) ==> {
            &&& self.planned_move(id, b.pos_map()[id])
            &&& b.carrying_food@.contains_key(id) == carries_after(&a, id, b.pos_map()[id])
            &&& b.releasing_pheromones@.contains_key(id)
            &&& b.releasing_pheromones@[id] == trail_after(&a, id)
            &&& b.pheromone_at(b.pos_map()[id].cell_key(), trail_after(&a, id).ph_type) is Some
        }
        &&& forall|id: EntityIndex| !a.ants@.contains_key(id) ==>
            (#[trigger] b.carrying_food@.contains_key(id) == a.carrying_food@.contains_key(id))
        &&& b.food_in_base == sat_add(a.food_in_base as nat, deliveries(&a, b.pos_map(), a.new_index as nat))
        &&& b.ants == a.ants
        &&& b.sugars == a.sugars
        &&& b.bases == a.bases
        &&& b.walls == a.walls
        &&& b.edibles == a.edibles
        &&& b.builders == a.builders
        &&& b.impenetrables == a.impenetrables
        &&& b.adventurous == a.adventurous
        &&& forall|i: EntityIndex| #[trigger] a.entity_types@.contains_key(i) ==>
            b.entity_types@.contains_key(i) && b.entity_types@[i] == a.entity_types@[i]
        &&& forall|i: EntityIndex| #[trigger] b.entity_types@.contains_key(i) && !a.entity_types@.contains_key(i) ==>
            i >= a.new_index && b.entity_types@[i] == EntityType::Pheromone
        &&& forall|i: EntityIndex| #[trigger] a.pos_map().contains_key(i) && !a.ants@.contains_key(i)
            && !a.pheromone_types@.contains_key(i) ==> b.pos_map().contains_key(i) && b.pos_map()[i] == a.pos_map()[i]
        &&& forall|i: EntityIndex| #[trigger] b.pos_map().contains_key(i) ==> a.pos_map().contains_key(i) || i >= a.new_index
    }

    /// The ants' pass: every ant but the builders chooses its step on the
    /// world as it was before the pass, then all steps are made, each ant
    /// handling its arrival and laying its trail.
    fn ants<S: TurnSampler>(&mut self, sampler: &mut S)
        requires
            old(self).wf(),
            old(self).entity_store.new_index < usize::MAX / 2,
        ensures
            final(self).wf(),
            final(self).width == old(self).width,
            final(self).height == old(self).height,
            final(self).spread_percent == old(self).spread_percent,
            final(self).min_spread_strength == old(self).min_spread_strength,
            final(self).entity_store.pheromone_generation == old(self).entity_store.pheromone_generation,
            final(self).entity_store.food_in_base >= old(self).entity_store.food_in_base,
            final(self).entity_store.ants == old(self).entity_store.ants,
            final(self).entity_store.impenetrables == old(self).entity_store.impenetrables,
            old(self).ants_placed(&old(self).entity_store, &final(self).entity_store),
            forall|id: EntityIndex| #[trigger] old(self).entity_store.ants@.contains_key(id) ==>
                old(self).planned_move(id, final(self).entity_store.pos_map()[id]),
            old(self).ants_moved(&final(self).entity_store),
    {
        let ghost g0 = *self;
        let ghost a = self.entity_store;
        let n = self.entity_store.new_index;
        let mut new_positions: Vec<(EntityIndex, PositionComponent)> = Vec::new();
        let mut id: usize = 0;
        while id < n
            invariant
                *self == g0,
                g0 == *old(self),
                a == g0.entity_store,
                g0.wf(),
                n == a.new_index,
                id <= n,
                new_positions@.len() <= id,
                forall|k: int| 0 <= k < new_positions@.len() ==> {
                    let m = #[trigger] new_positions@[k];
                    &&& a.ants@.contains_key(m.0)
                    &&& coord_ok(m.1)
                    &&& m.1 == a.pos_map()[m.0] || g0.can_occupy(m.1)
                    &&& g0.planned_move(m.0, m.1)
                    &&& m.0 < id
                },
                forall|k1: int, k2: int| 0 <= k1 < k2 < new_positions@.len() ==>
                    #[trigger] new_positions@[k1].0 < #[trigger] new_positions@[k2].0,
                forall|i: EntityIndex| i < id && #[trigger] a.ants@.contains_key(i) ==>
                    exists|k: int| 0 <= k < new_positions@.len() && #[trigger] new_positions@[k].0 == i,
            decreases n - id,
        {
            let ghost prev = new_positions@;
            if self.entity_store.ants.contains_key(&id) {
                let pos = match self.entity_store.get_position(id) {
                    Some(p) => *p,
                    None => PositionComponent { x: 0, y: 0 },
                };
                if self.entity_store.builders.contains_key(&id) {
                    new_positions.push((id, pos));
                    proof {
                        assert(new_positions@[new_positions@.len() - 1].0 == id);
                    }
                } else {
                    let heading = match self.entity_store.get_direction(id) {
                        Some(d) => *d,
                        None => DirectionComponent { x: CELL, y: 0 },
                    };
                    let step = self.get_new_ant_direction(id, &pos, &heading, sampler);
                    let new_pos = if step.x == 0 && step.y == 0 {
                        pos
                    } else {
                        PositionComponent { x: pos.x + step.x, y: pos.y + step.y }
                    };
                    proof {
                        assert(displacement(pos, new_pos) == step);
                        assert(heading == heading_of(&a, id));
                    }
                    new_positions.push((id, new_pos));
                    proof {
                        assert(new_positions@[new_positions@.len() - 1].0 == id);
                    }
                }
            }
            proof {
                assert forall|i: EntityIndex| i < id + 1 && #[trigger] a.ants@.contains_key(i) implies
                    exists|k: int| 0 <= k < new_positions@.len() && #[trigger] new_positions@[k].0 == i by {
                    if i == id {
                        assert(new_positions@[new_positions@.len() - 1].0 == id);
                    } else {
                        let k = choose|k: int| 0 <= k < prev.len() && #[trigger] prev[k].0 == i;
                        assert(new_positions@[k] == prev[k]);
                    }
                }
            }
            id += 1;
        }
        let mut j: usize = 0;
        while j < new_positions.len()
            invariant
                self.wf(),
                g0 == *old(self),
                a == g0.entity_store,
                self.width == g0.width,
                self.height == g0.height,
                self.spread_percent == g0.spread_percent,
                self.min_spread_strength == g0.min_spread_strength,
                j <= new_positions@.len(),
                a.wf(),
                a.new_index <= self.entity_store.new_index,
                new_positions@.len() <= a.new_index,
                a.new_index < usize::MAX / 2,
                self.entity_store.new_index <= a.new_index + j,
                self.entity_store.pheromone_generation == a.pheromone_generation,
                self.entity_store.food_in_base >= a.food_in_base,
                self.entity_store.ants == a.ants,
                self.entity_store.impenetrables == a.impenetrables,
                g0.ants_placed(&a, &self.entity_store),
                forall|k: int| 0 <= k < new_positions@.len() ==> {
                    let m = #[trigger] new_positions@[k];
                    &&& a.ants@.contains_key(m.0)
                    &&& coord_ok(m.1)
                    &&& m.1 == a.pos_map()[m.0] || g0.can_occupy(m.1)
                    &&& g0.planned_move(m.0, m.1)
                },
                forall|k1: int, k2: int| 0 <= k1 < k2 < new_positions@.len() ==>
                    #[trigger] new_positions@[k1].0 < #[trigger] new_positions@[k2].0,
                forall|i: EntityIndex| #[trigger] a.ants@.contains_key(i) ==>
                    exists|k: int| 0 <= k < new_positions@.len() && #[trigger] new_positions@[k].0 == i,
                forall|k: int| 0 <= k < new_positions@.len() ==> {
                    let m = #[trigger] new_positions@[k];
                    &&& self.entity_store.pos_map().contains_key(m.0)
                    &&& self.entity_store.pos_map()[m.0] == if k < j { m.1 } else { a.pos_map()[m.0] }
                    &&& m.0 < a.new_index
                    &&& k < j ==> {
                        &&& self.entity_store.pheromone_at(m.1.cell_key(), trail_after(&a, m.0).ph_type) is Some
                        &&& self.entity_store.carrying_food@.contains_key(m.0) == carries_after(&a, m.0, m.1)
                        &&& self.entity_store.releasing_pheromones@.contains_key(m.0)
                        &&& self.entity_store.releasing_pheromones@[m.0] == trail_after(&a, m.0)
                    }
                    &&& k >= j ==> self.entity_store.carrying_food@.contains_key(m.0) == a.carrying_food@.contains_key(m.0)
                },
                forall|i: EntityIndex| !a.ants@.contains_key(i) ==>
                    (#[trigger] self.entity_store.carrying_food@.contains_key(i) == a.carrying_food@.contains_key(i)),
                self.entity_store.food_in_base == sat_add(a.food_in_base as nat, move_deliveries(&a, new_positions@, j as int)),
                self.entity_store.sugars == a.sugars,
                self.entity_store.bases == a.bases,
                self.entity_store.walls == a.walls,
                self.entity_store.edibles == a.edibles,
                self.entity_store.builders == a.builders,
                self.entity_store.adventurous == a.adventurous,
                forall|i: EntityIndex| #[trigger] a.entity_types@.contains_key(i) ==>
                    self.entity_store.entity_types@.contains_key(i) && self.entity_store.entity_types@[i] == a.entity_types@[i],
                forall|i: EntityIndex| #[trigger] self.entity_store.entity_types@.contains_key(i) && !a.entity_types@.contains_key(i) ==>
                    i >= a.new_index && self.entity_store.entity_types@[i] == EntityType::Pheromone,
                forall|i: EntityIndex| #[trigger] a.pos_map().contains_key(i) && !a.ants@.contains_key(i)
                    && !a.pheromone_types@.contains_key(i) ==> {
                    &&& self.entity_store.pos_map().contains_key(i)
                    &&& self.entity_store.pos_map()[i] == a.pos_map()[i]
                    &&& !self.entity_store.pheromone_types@.contains_key(i)
                },
                forall|i: EntityIndex| #[trigger] self.entity_store.pos_map().contains_key(i) ==>
                    a.pos_map().contains_key(i) || i >= a.new_index,
            decreases new_positions@.len() - j,
        {
            let (ant_id, pos) = new_positions[j];
            let ghost c0 = self.entity_store;
            self.entity_store.update_position(ant_id, &pos);
            let ghost c1 = self.entity_store;
            proof {
                c1.lemma_unique_move(&c0, ant_id, pos);
                let m = new_positions@[j as int];
                assert(a.ants@.contains_key(ant_id));
                assert forall|id: EntityIndex| #[trigger] c1.has_type(id, EntityType::Base) implies a.has_type(id, EntityType::Base) by {
                    if !a.entity_types@.contains_key(id) {
                        assert(c1.entity_types@.contains_key(id) && !a.entity_types@.contains_key(id));
                    }
                }
                assert forall|id: EntityIndex| #[trigger] c1.has_type(id, EntityType::Sugar) implies a.has_type(id, EntityType::Sugar) by {
                    if !a.entity_types@.contains_key(id) {
                        assert(c1.entity_types@.contains_key(id) && !a.entity_types@.contains_key(id));
                    }
                }
                assert forall|id: EntityIndex| #[trigger] a.has_type(id, EntityType::Base) implies c1.has_type(id, EntityType::Base)
                    && c1.pos_map().contains_key(id) == a.pos_map().contains_key(id)
                    && (a.pos_map().contains_key(id) ==> c1.pos_map()[id] == a.pos_map()[id]) by {
                    assert(a.entity_types@.contains_key(id));
                    if a.ants@.contains_key(id) {
                        assert(a.has_type(id, EntityType::Ant));
                    }
                    if a.pheromone_types@.contains_key(id) {
                        assert(a.has_type(id, EntityType::Pheromone));
                    }
                    if a.pos_map().contains_key(id) {
                        assert(a.pos_map().contains_key(id) && !a.ants@.contains_key(id) && !a.pheromone_types@.contains_key(id));
                    }
                    if c1.pos_map().contains_key(id) && id != ant_id {
                        assert(c0.pos_map().contains_key(id));
                    }
                }
                assert forall|id: EntityIndex| #[trigger] a.has_type(id, EntityType::Sugar) implies c1.has_type(id, EntityType::Sugar)
                    && c1.pos_map().contains_key(id) == a.pos_map().contains_key(id)
                    && (a.pos_map().contains_key(id) ==> c1.pos_map()[id] == a.pos_map()[id]) by {
                    assert(a.entity_types@.contains_key(id));
                    if a.ants@.contains_key(id) {
                        assert(a.has_type(id, EntityType::Ant));
                    }
                    if a.pheromone_types@.contains_key(id) {
                        assert(a.has_type(id, EntityType::Pheromone));
                    }
                    if a.pos_map().contains_key(id) {
                        assert(a.pos_map().contains_key(id) && !a.ants@.contains_key(id) && !a.pheromone_types@.contains_key(id));
                    }
                    if c1.pos_map().contains_key(id) && id != ant_id {
                        assert(c0.pos_map().contains_key(id));
                    }
                }
                lemma_type_at_frame(&c1, &a, pos.cell_key(), EntityType::Base);
                lemma_type_at_frame(&c1, &a, pos.cell_key(), EntityType::Sugar);
                assert(c1.carrying_food@.contains_key(ant_id) == a.carrying_food@.contains_key(ant_id));
            }
            self.handle_new_ant_pos(ant_id, &pos);
            let ghost c2 = self.entity_store;
            self.release_pheromones(ant_id);
            proof {
                let c3 = self.entity_store;
                assert forall|i: EntityIndex| #[trigger] a.ants@.contains_key(i) implies {
                    &&& c3.pos_map().contains_key(i)
                    &&& c3.pos_map()[i] == a.pos_map()[i] || g0.can_occupy(c3.pos_map()[i])
                } by {
                    assert(c2.pos_map() == c1.pos_map());
                    assert(c2.ants@.contains_key(i));
                    if c2.releasing_pheromones@.contains_key(ant_id) && c2.releasing_pheromones@[ant_id].ticks_left > 1 {
                        let cell = c2.pos_map()[ant_id].cell_key();
                        let t = c2.releasing_pheromones@[ant_id].ph_type;
                        let mid = EntityStore { releasing_pheromones: c3.releasing_pheromones, ..c2 };
                        let gone = mid.pheromone_at(cell, t);
                        if gone is Some {
                            let gi = gone->0;
                            assert(mid.is_pheromone_at(gi, cell, t));
                            assert(c2.pheromone_types@.contains_key(gi));
                            assert(gi != i);
                        }
                        assert(!c2.entity_types@.contains_key(c2.new_index));
                        assert(i != c2.new_index);
                    }
                }
                assert forall|k: int| 0 <= k < new_positions@.len() implies {
                    let m = #[trigger] new_positions@[k];
                    &&& c3.pos_map().contains_key(m.0)
                    &&& c3.pos_map()[m.0] == if k < j + 1 { m.1 } else { a.pos_map()[m.0] }
                } by {
                    let m = new_positions@[k];
                    assert(a.ants@.contains_key(m.0));
                    if k != j {
                        assert(m.0 != ant_id);
                    }
                }
                let mid = EntityStore { releasing_pheromones: c3.releasing_pheromones, ..c2 };
                assert(c2.releasing_pheromones@[ant_id].ticks_left == RELEASE_TICKS);
                assert forall|k: int| 0 <= k < j + 1 implies
                    c3.pheromone_at((#[trigger] new_positions@[k]).1.cell_key(), trail_after(&a, new_positions@[k].0).ph_type) is Some by {
                    let m = new_positions@[k];
                    let cell = m.1.cell_key();
                    let t = trail_after(&a, m.0).ph_type;
                    if k < j {
                        assert(c0.pheromone_at(cell, t) is Some);
                        lemma_pheromones_kept(&c0, &c1, cell, t);
                        lemma_pheromones_kept(&c1, &mid, cell, t);
                        mid.lemma_unique_frame(&c1);
                        lemma_deposit_keeps(&mid, &c3, c2.pos_map()[ant_id], c2.releasing_pheromones@[ant_id].ph_type,
                            if c2.has_type_at(c2.pos_map()[ant_id].cell_key(), source_of(c2.releasing_pheromones@[ant_id].ph_type)) {
                                (NEW_PHEROMONE_STRENGTH * SOURCE_STRENGTH_FACTOR) as nat
                            } else {
                                NEW_PHEROMONE_STRENGTH as nat
                            }, c2.new_index, cell, t);
                    } else {
                        assert(m.0 == ant_id);
                    }
                }
            }
            j += 1;
        }
        proof {
            let c = self.entity_store;
            assert forall|i: EntityIndex| #[trigger] a.ants@.contains_key(i) implies {
                &&& g0.planned_move(i, c.pos_map()[i])
                &&& c.carrying_food@.contains_key(i) == carries_after(&a, i, c.pos_map()[i])
                &&& c.releasing_pheromones@.contains_key(i)
                &&& c.releasing_pheromones@[i] == trail_after(&a, i)
            } by {
                let k = choose|k: int| 0 <= k < new_positions@.len() && #[trigger] new_positions@[k].0 == i;
                assert(g0.planned_move(new_positions@[k].0, new_positions@[k].1));
            }
            assert forall|i: EntityIndex| #[trigger] a.ants@.contains_key(i) implies i < a.new_index
                && exists|k: int| 0 <= k < new_positions@.len() && #[trigger] new_positions@[k].0 == i by {
                assert(a.entity_types@.contains_key(i));
            }
            lemma_deliveries_by_moves(&a, c.pos_map(), new_positions@, a.new_index as nat, new_positions@.len() as int);
        }
    }

    /// Advances the simulation by one tick. The pheromone pass comes first:
    /// evaporation, then diffusion of what is left. On the world it leaves
    /// the ants make their pass: each moves as planned, picks up or delivers
    /// food, and lays its trail. Then the generation number grows by one.
    /// Food sources, bases and walls stay where they are, and no ant ends in
    /// a wall's cell unless it stayed where it was.
    pub fn tick<S: TurnSampler>(&mut self, sampler: &mut S)
        requires
            old(self).wf(),
            old(self).entity_store.new_index < usize::MAX / 16,
            old(self).entity_store.pheromone_generation < u32::MAX,
        ensures
            final(self).wf(),
            final(self).entity_store.pheromones_unique(),
            final(self).width == old(self).width,
            final(self).height == old(self).height,
            final(self).spread_percent == old(self).spread_percent,
            final(self).min_spread_strength == old(self).min_spread_strength,
            final(self).entity_store.pheromone_generation == old(self).entity_store.pheromone_generation + 1,
            final(self).entity_store.food_in_base >= old(self).entity_store.food_in_base,
            final(self).entity_store.ants == old(self).entity_store.ants,
            old(self).ants_placed(&old(self).entity_store, &final(self).entity_store),
            forall|id: EntityIndex| #[trigger] old(self).entity_store.builders@.contains_key(id)
                && old(self).entity_store.ants@.contains_key(id) ==>
                final(self).entity_store.pos_map()[id] == old(self).entity_store.pos_map()[id],
            exists|evaporated: Game, mid: Game| {
                &&& evaporation(&old(self).entity_store, &evaporated.entity_store)
                &&& evaporated == (Game { entity_store: evaporated.entity_store, ..*old(self) })
                &&& evaporated.diffuses_into(&mid.entity_store)
                &&& mid == (Game { entity_store: mid.entity_store, ..*old(self) })
                &&& mid.ants_moved(&final(self).entity_store)
            },
            forall|i: EntityIndex| #[trigger] old(self).entity_store.pos_map().contains_key(i)
                && !old(self).entity_store.ants@.contains_key(i) && !old(self).entity_store.pheromone_types@.contains_key(i) ==>
                final(self).entity_store.pos_map().contains_key(i) && final(self).entity_store.pos_map()[i] == old(self).entity_store.pos_map()[i],
            forall|i: EntityIndex| #[trigger] old(self).entity_store.entity_types@.contains_key(i) ==>
                final(self).entity_store.entity_types@.contains_key(i)
                    && final(self).entity_store.entity_types@[i] == old(self).entity_store.entity_types@[i],
            final(self).entity_store.sugars == old(self).entity_store.sugars,
            final(self).entity_store.bases == old(self).entity_store.bases,
            final(self).entity_store.walls == old(self).entity_store.walls,
            final(self).entity_store.impenetrables == old(self).entity_store.impenetrables,
            final(self).entity_store.builders == old(self).entity_store.builders,
            forall|id: EntityIndex| #[trigger] old(self).entity_store.ants@.contains_key(id) ==>
                final(self).entity_store.pos_map()[id] == old(self).entity_store.pos_map()[id]
                    || !final(self).entity_store.impenetrable_at(final(self).entity_store.pos_map()[id].cell_key()),
    {
        let ghost g0 = *self;
        self.evaporate_pheromones();
        let ghost g1 = *self;
        self.diffuse_pheromones();
        let ghost g2 = *self;
        proof {
            let a = g0.entity_store;
            let b = g1.entity_store;
            let c = g2.entity_store;
            let gone = evaporated_below(&a, a.new_index as int);
            assert forall|i: EntityIndex| #[trigger] a.impenetrables@.contains_key(i) implies
                c.pos_map().contains_key(i) == a.pos_map().contains_key(i)
                    && (a.pos_map().contains_key(i) ==> c.pos_map()[i] == a.pos_map()[i]) by {
                if a.intensities@.contains_key(i) {
                    assert(a.pheromone_types@.contains_key(i));
                }
                assert(!gone.contains(i));
                assert(b.impenetrables@.contains_key(i));
                if b.pos_map().contains_key(i) {
                    assert(!b.pheromone_types@.contains_key(i));
                }
                assert(a.entity_types@.contains_key(i));
            }
            assert forall|i: EntityIndex| #[trigger] a.ants@.contains_key(i) implies
                c.pos_map().contains_key(i) && c.pos_map()[i] == a.pos_map()[i] by {
                if a.intensities@.contains_key(i) {
                    assert(a.pheromone_types@.contains_key(i));
                }
                assert(!gone.contains(i));
                assert(b.ants@.contains_key(i));
                assert(!b.pheromone_types@.contains_key(i));
            }
            assert forall|p: PositionComponent| g2.can_occupy(p) == g0.can_occupy(p) by {
                lemma_impenetrable_frame(&c, &a, p.cell_key());
            }
        }
        self.ants(sampler);
        let ghost g3 = *self;
        self.entity_store.pheromone_generation = self.entity_store.pheromone_generation + 1;
        proof {
            self.entity_store.lemma_unique_frame(&g3.entity_store);
            let a = g0.entity_store;
            let c = g2.entity_store;
            let d = self.entity_store;
            assert forall|i: EntityIndex| #[trigger] a.ants@.contains_key(i) implies {
                &&& d.pos_map().contains_key(i)
                &&& d.pos_map()[i] == a.pos_map()[i] || g0.can_occupy(d.pos_map()[i])
            } by {
                assert(c.ants@.contains_key(i));
                assert(g2.can_occupy(d.pos_map()[i]) == g0.can_occupy(d.pos_map()[i]));
            }
            assert forall|i: EntityIndex| #[trigger] a.builders@.contains_key(i) && a.ants@.contains_key(i) implies
                d.pos_map()[i] == a.pos_map()[i] by {
                assert(c.ants@.contains_key(i));
                assert(g2.planned_move(i, g3.entity_store.pos_map()[i]));
            }
            assert(g1 == (Game { entity_store: g1.entity_store, ..g0 }));
            assert(g2 == (Game { entity_store: g2.entity_store, ..g0 }));
            assert forall|id: EntityIndex| #[trigger] c.ants@.contains_key(id) implies
                d.pheromone_at(d.pos_map()[id].cell_key(), trail_after(&c, id).ph_type) is Some by {
                lemma_pheromones_kept(&g3.entity_store, &d, d.pos_map()[id].cell_key(), trail_after(&c, id).ph_type);
            }
            assert(g2.ants_moved(&d));
            let b = g1.entity_store;
            let gone = evaporated_below(&a, a.new_index as int);
            assert forall|i: EntityIndex| #[trigger] a.pos_map().contains_key(i) && !a.ants@.contains_key(i)
                && !a.pheromone_types@.contains_key(i) implies d.pos_map().contains_key(i) && d.pos_map()[i] == a.pos_map()[i] by {
                if a.intensities@.contains_key(i) {
                    assert(a.pheromone_types@.contains_key(i));
                }
                assert(!gone.contains(i));
                assert(b.pos_map().contains_key(i) && !b.pheromone_types@.contains_key(i));
                assert(c.pos_map().contains_key(i) && c.pos_map()[i] == a.pos_map()[i]);
                assert(c.entity_types@.contains_key(i));
                if c.pheromone_types@.contains_key(i) {
                    assert(c.has_type(i, EntityType::Pheromone));
                    assert(a.entity_types@.contains_key(i));
                }
            }
            assert forall|i: EntityIndex| #[trigger] a.entity_types@.contains_key(i) implies
                d.entity_types@.contains_key(i) && d.entity_types@[i] == a.entity_types@[i] by {
            }
            assert forall|i: EntityIndex| #[trigger] a.impenetrables@.contains_key(i) implies
                d.pos_map().contains_key(i) == a.pos_map().contains_key(i)
                    && (a.pos_map().contains_key(i) ==> d.pos_map()[i] == a.pos_map()[i]) by {
                assert(!a.ants@.contains_key(i));
                assert(a.entity_types@.contains_key(i));
                if a.pheromone_types@.contains_key(i) {
                    assert(!a.impenetrables@.contains_key(i));
                }
                if d.pos_map().contains_key(i) && !a.pos_map().contains_key(i) {
                    assert(c.pos_map().contains_key(i));
                    assert(b.pos_map().contains_key(i));
                }
            }
            assert forall|id: EntityIndex| #[trigger] a.ants@.contains_key(id) implies
                d.pos_map()[id] == a.pos_map()[id] || !d.impenetrable_at(d.pos_map()[id].cell_key()) by {
                lemma_impenetrable_frame(&d, &a, d.pos_map()[id].cell_key());
            }
        }
    }


    /// Builds a wall at (`x`, `y`).
    fn add_wall(&mut self, x: i64, y: i64)
        requires
            old(self).wf(),
            old(self).entity_store.new_index < usize::MAX,
            coord_ok(PositionComponent { x, y }),
        ensures
            final(self).wf(),
            final(self).width == old(self).width,
            final(self).height == old(self).height,
            final(self).spread_percent == old(self).spread_percent,
            final(self).min_spread_strength == old(self).min_spread_strength,
            final(self).entity_store.new_index == old(self).entity_store.new_index + 1,
            final(self).entity_store.ants == old(self).entity_store.ants,
            final(self).entity_store.food_in_base == old(self).entity_store.food_in_base,
            final(self).entity_store.impenetrable_at((PositionComponent { x, y }).cell_key()),
            forall|cell: (u64, u64)| old(self).entity_store.impenetrable_at(cell) ==> #[trigger] final(self).entity_store.impenetrable_at(cell),
            forall|cell: (u64, u64)| #[trigger] final(self).entity_store.impenetrable_at(cell) ==>
                old(self).entity_store.impenetrable_at(cell) || cell == (PositionComponent { x, y }).cell_key(),
            forall|i: EntityIndex| #[trigger] old(self).entity_store.pos_map().contains_key(i) ==>
                final(self).entity_store.pos_map().contains_key(i) && final(self).entity_store.pos_map()[i] == old(self).entity_store.pos_map()[i],
            forall|i: EntityIndex| #[trigger] final(self).entity_store.pos_map().contains_key(i) ==>
                old(self).entity_store.pos_map().contains_key(i) || i == old(self).entity_store.new_index,
            wall_at(&final(self).entity_store, old(self).entity_store.new_index, PositionComponent { x, y }),
            forall|i: EntityIndex, p: PositionComponent| #[trigger] wall_at(&old(self).entity_store, i, p) ==> wall_at(&final(self).entity_store, i, p),
            forall|i: EntityIndex| #[trigger] old(self).entity_store.entity_types@.contains_key(i) ==>
                final(self).entity_store.entity_types@.contains_key(i) && final(self).entity_store.entity_types@[i] == old(self).entity_store.entity_types@[i],
    {
        let ghost c0 = self.entity_store;
        let index = self.entity_store.create_entity(EntityType::Wall);
        let ghost c1 = self.entity_store;
        proof {
            c1.lemma_unique_move(&c0, index, PositionComponent::origin_centre());
        }
        let pos = PositionComponent { x, y };
        self.entity_store.update_position(index, &pos);
        proof {
            let c2 = self.entity_store;
            c2.lemma_unique_move(&c1, index, pos);
            assert(c2.is_at(index, pos.cell_key()) && c2.impenetrables@.contains_key(index));
            assert forall|cell: (u64, u64)| c0.impenetrable_at(cell) implies #[trigger] c2.impenetrable_at(cell) by {
                let id = choose|id: EntityIndex| c0.is_at(id, cell) && #[trigger] c0.impenetrables@.contains_key(id);
                assert(c0.entity_types@.contains_key(id));
                assert(c2.is_at(id, cell) && c2.impenetrables@.contains_key(id));
            }
            assert forall|cell: (u64, u64)| #[trigger] c2.impenetrable_at(cell) implies
                c0.impenetrable_at(cell) || cell == pos.cell_key() by {
                let id = choose|id: EntityIndex| c2.is_at(id, cell) && #[trigger] c2.impenetrables@.contains_key(id);
                if id != index {
                    assert(c0.is_at(id, cell) && c0.impenetrables@.contains_key(id));
                }
            }
        }
    }

    /// Adds the walls of the Deneubourg arena (see `deneubourg_wall`).
    pub fn add_deneubourg_walls(&mut self)
        requires
            old(self).wf(),
            old(self).entity_store.new_index < usize::MAX - 15,
        ensures
            final(self).wf(),
            final(self).width == old(self).width,
            final(self).height == old(self).height,
            final(self).spread_percent == old(self).spread_percent,
            final(self).min_spread_strength == old(self).min_spread_strength,
            final(self).entity_store.ants == old(self).entity_store.ants,
            final(self).entity_store.food_in_base == old(self).entity_store.food_in_base,
            forall|cell: (u64, u64)| deneubourg_wall(cell) ==> #[trigger] final(self).entity_store.impenetrable_at(cell),
            forall|cell: (u64, u64)| old(self).entity_store.impenetrable_at(cell) ==> #[trigger] final(self).entity_store.impenetrable_at(cell),
            forall|cell: (u64, u64)| #[trigger] final(self).entity_store.impenetrable_at(cell) ==>
                old(self).entity_store.impenetrable_at(cell) || deneubourg_wall(cell),
            forall|i: EntityIndex| #[trigger] old(self).entity_store.pos_map().contains_key(i) ==>
                final(self).entity_store.pos_map().contains_key(i) && final(self).entity_store.pos_map()[i] == old(self).entity_store.pos_map()[i],
            final(self).entity_store.new_index == old(self).entity_store.new_index + 15,
            forall|k: int| 0 <= k < 15 ==> #[trigger] wall_at(&final(self).entity_store, (old(self).entity_store.new_index + k) as EntityIndex, deneubourg_wall_position(k)),
            forall|i: EntityIndex| #[trigger] final(self).entity_store.pos_map().contains_key(i) ==>
                old(self).entity_store.pos_map().contains_key(i) || old(self).entity_store.new_index <= i < old(self).entity_store.new_index + 15,
            forall|i: EntityIndex| #[trigger] old(self).entity_store.entity_types@.contains_key(i) ==>
                final(self).entity_store.entity_types@.contains_key(i) && final(self).entity_store.entity_types@[i] == old(self).entity_store.entity_types@[i],
    {
        let ghost a = self.entity_store;
        let mut i: i64 = 0;
        while i < 5
            invariant
                self.wf(),
                0 <= i <= 5,
                self.width == old(self).width,
                self.height == old(self).height,
                self.spread_percent == old(self).spread_percent,
                self.min_spread_strength == old(self).min_spread_strength,
                self.entity_store.new_index == a.new_index + 2 * i,
                a == old(self).entity_store,
                a.new_index < usize::MAX - 15,
                self.entity_store.ants == a.ants,
                self.entity_store.food_in_base == a.food_in_base,
                forall|cell: (u64, u64)| (cell.0 < i && deneubourg_wall(cell) && cell.1 != 0 && cell.1 != 4 && cell.1 != 2)
                    || (1 <= cell.0 < i && cell.0 <= 3 && (cell.1 == 0 || cell.1 == 4))
                    ==> #[trigger] self.entity_store.impenetrable_at(cell),
                forall|cell: (u64, u64)| a.impenetrable_at(cell) ==> #[trigger] self.entity_store.impenetrable_at(cell),
                forall|cell: (u64, u64)| #[trigger] self.entity_store.impenetrable_at(cell) ==>
                    a.impenetrable_at(cell) || deneubourg_wall(cell),
                forall|j: EntityIndex| #[trigger] a.pos_map().contains_key(j) ==>
                    self.entity_store.pos_map().contains_key(j) && self.entity_store.pos_map()[j] == a.pos_map()[j],
                forall|k: int| 0 <= k < 2 * i ==> #[trigger] wall_at(&self.entity_store, (a.new_index + k) as EntityIndex, deneubourg_wall_position(k)),
                forall|j: EntityIndex| #[trigger] self.entity_store.pos_map().contains_key(j) ==>
                    a.pos_map().contains_key(j) || a.new_index <= j < a.new_index + 2 * i,
                forall|j: EntityIndex| #[trigger] a.entity_types@.contains_key(j) ==>
                    self.entity_store.entity_types@.contains_key(j) && self.entity_store.entity_types@[j] == a.entity_types@[j],
            decreases 5 - i,
        {
            let ghost s0 = self.entity_store;
            let y1 = if i == 0 || i == 4 { 150 } else { 50 };
            self.add_wall(i * CELL, y1);
            let ghost s1 = self.entity_store;
            let y2 = if i == 0 || i == 4 { 350 } else { 450 };
            self.add_wall(i * CELL, y2);
            proof {
                assert(deneubourg_wall_position(2 * i) == PositionComponent { x: (i * CELL) as i64, y: y1 });
                assert(deneubourg_wall_position(2 * i + 1) == PositionComponent { x: (i * CELL) as i64, y: y2 });
                assert forall|k: int| 0 <= k < 2 * (i + 1) implies #[trigger] wall_at(&self.entity_store, (a.new_index + k) as EntityIndex, deneubourg_wall_position(k)) by {
                    if k < 2 * i {
                        assert(wall_at(&s0, (a.new_index + k) as EntityIndex, deneubourg_wall_position(k)));
                        assert(wall_at(&s1, (a.new_index + k) as EntityIndex, deneubourg_wall_position(k)));
                    } else if k == 2 * i {
                        assert(wall_at(&s1, (a.new_index + k) as EntityIndex, deneubourg_wall_position(k)));
                    }
                }
            }
            i += 1;
        }
        let ghost t0 = self.entity_store;
        self.add_wall(50, 50);
        let ghost t1 = self.entity_store;
        self.add_wall(450, 50);
        let ghost t2 = self.entity_store;
        self.add_wall(50, 450);
        let ghost t3 = self.entity_store;
        self.add_wall(450, 450);
        let ghost t4 = self.entity_store;
        self.add_wall(250, 250);
        proof {
            assert forall|k: int| 0 <= k < 15 implies #[trigger] wall_at(&self.entity_store, (a.new_index + k) as EntityIndex, deneubourg_wall_position(k)) by {
                let id = (a.new_index + k) as EntityIndex;
                let p = deneubourg_wall_position(k);
                if k < 10 {
                    assert(wall_at(&t0, id, p));
                }
                if k <= 10 {
                    assert(wall_at(&t1, id, p));
                }
                if k <= 11 {
                    assert(wall_at(&t2, id, p));
                }
                if k <= 12 {
                    assert(wall_at(&t3, id, p));
                }
                if k <= 13 {
                    assert(wall_at(&t4, id, p));
                }
            }
            assert forall|cell: (u64, u64)| deneubourg_wall(cell) implies #[trigger] self.entity_store.impenetrable_at(cell) by {
                if cell == (0u64, 0u64) || cell == (4u64, 0u64) || cell == (0u64, 4u64) || cell == (4u64, 4u64) || cell == (2u64, 2u64) {
                } else {
                    assert(cell.0 < 5);
                }
            }
        }
    }

    /// The strength that pheromone `id` spreads to each neighbour; 0 where
    /// it is weaker than `min_spread_strength`.
    pub open spec fn spread_amount(&self, id: EntityIndex) -> nat {
        let s = self.entity_store.intensities@[id].strength;
        if s < self.min_spread_strength {
            0
        } else {
            (s * self.spread_percent / 100) as nat
        }
    }

    /// `spread` may be laid: a positive amount spread by a live pheromone
    /// to an orthogonal neighbour in the arena whose pheromone of that type,
    /// if any, is of a strictly newer generation than the source's.
    pub open spec fn spread_allowed(&self, spread: Spread) -> bool {
        let s = spread.source;
        let store = self.entity_store;
        let t = store.pheromone_types@[s];
        &&& store.pheromone_types@.contains_key(s)
        &&& spread.ph_type == t
        &&& spread.amount > 0
        &&& spread.amount == self.spread_amount(s)
        &&& exists|d: int| 0 <= d < 4 && spread.target == #[trigger] offset(store.pos_map()[s], orthogonal_step(d))
        &&& self.in_bounds(spread.target.x as int, spread.target.y as int)
        &&& match store.pheromone_at(spread.target.cell_key(), t) {
            Some(n) => store.pheromone_generations@[n].generation > store.pheromone_generations@[s].generation,
            None => true,
        }
    }

    /// `spreads` holds each spread that diffusion may lay in this world,
    /// once.
    pub open spec fn diffusion_plan(&self, spreads: Seq<Spread>) -> bool {
        &&& spreads.no_duplicates()
        &&& forall|k: int| 0 <= k < spreads.len() ==> self.spread_allowed(#[trigger] spreads[k])
        &&& forall|s: Spread| #[trigger] self.spread_allowed(s) ==> spreads.contains(s)
    }

    /// Diffusion of this world leads to store `b`: the spreads of its plan
    /// are laid one after the other, each merged into the pheromone of its
    /// type in the target's cell.
    pub open spec fn diffuses_into(&self, b: &EntityStore) -> bool {
        exists|spreads: Seq<Spread>, states: Seq<EntityStore>| {
            &&& self.diffusion_plan(spreads)
            &&& lays(states, spreads)
            &&& states[0] == self.entity_store
            &&& states[states.len() - 1] == *b
        }
    }

    /// `s` leads from its source to one of the first `d` orthogonal
    /// neighbours of the source.
    pub open spec fn targets_below(&self, s: Spread, d: int) -> bool {
        exists|d2: int| 0 <= d2 < d && s.target == #[trigger] offset(self.entity_store.pos_map()[s.source], orthogonal_step(d2))
    }

    /// What diffusion lays in this tick, read from the world as it is: each
    /// pheromone spreads to each orthogonal neighbour that allows it;
    /// each allowed spread once, by source and then neighbour order.
    pub fn diffusion_targets(&self) -> (r: Vec<Spread>)
        requires
            self.wf(),
        ensures
            r@.len() <= 4 * self.entity_store.new_index,
            r@.no_duplicates(),
            forall|k: int| 0 <= k < r@.len() ==> self.spread_allowed(#[trigger] r@[k]),
            forall|s: Spread| #[trigger] self.spread_allowed(s) ==> r@.contains(s),
    {
        let mut spreads: Vec<Spread> = Vec::new();
        let n = self.entity_store.new_index;
        let mut id: usize = 0;
        while id < n
            invariant
                self.wf(),
                n == self.entity_store.new_index,
                id <= n,
                spreads@.len() <= 4 * id,
                spreads@.no_duplicates(),
                forall|k: int| 0 <= k < spreads@.len() ==> self.spread_allowed(#[trigger] spreads@[k]),
                forall|k: int| 0 <= k < spreads@.len() ==> (#[trigger] spreads@[k]).source < id,
                forall|s: Spread| #[trigger] self.spread_allowed(s) && s.source < id ==> spreads@.contains(s),
            decreases n - id,
        {
            let info = match (self.entity_store.pheromone_types.get(&id), self.entity_store.intensities.get(&id), self.entity_store.pheromone_generations.get(&id), self.entity_store.get_position(id)) {
                (Some(t), Some(i), Some(g), Some(p)) => Some((*t, i.strength, g.generation, *p)),
                _ => None,
            };
            match info {
                Some((t, strength, generation, pos)) => {
                    let wide: u64 = strength as u64;
                    let percent: u64 = self.spread_percent as u64;
                    proof {
                        assert(wide * percent <= wide * 100) by (nonlinear_arith)
                            requires percent <= 100;
                    }
                    let amount: u32 = if strength < self.min_spread_strength {
                        0
                    } else {
                        (wide * percent / 100) as u32
                    };
                    assert(amount == self.spread_amount(id));
                    if amount > 0 {
                        let mut d: usize = 0;
                        while d < 4
                            invariant
                                self.wf(),
                                n == self.entity_store.new_index,
                                id < n,
                                d <= 4,
                                spreads@.len() <= 4 * id + d,
                                self.entity_store.pheromone_types@.contains_key(id),
                                t == self.entity_store.pheromone_types@[id],
                                generation == self.entity_store.pheromone_generations@[id].generation,
                                pos == self.entity_store.pos_map()[id],
                                coord_ok(pos),
                                amount > 0,
                                amount == self.spread_amount(id),
                                spreads@.no_duplicates(),
                                forall|k: int| 0 <= k < spreads@.len() ==> self.spread_allowed(#[trigger] spreads@[k]),
                                forall|k: int| 0 <= k < spreads@.len() ==> (#[trigger] spreads@[k]).source < id
                                    || (spreads@[k].source == id && self.targets_below(spreads@[k], d as int)),
                                forall|s: Spread| #[trigger] self.spread_allowed(s) && s.source < id ==> spreads@.contains(s),
                                forall|s: Spread| #[trigger] self.spread_allowed(s) && s.source == id
                                    && self.targets_below(s, d as int) ==> spreads@.contains(s),
                            decreases 4 - d,
                        {
                            let step = Self::neighbour(d);
                            let target = PositionComponent { x: pos.x + step.x, y: pos.y + step.y };
                            assert(target == offset(pos, orthogonal_step(d as int)));
                            let ghost prev = spreads@;
                            let mut open = false;
                            if self.pos_is_in_bounds(&target) {
                                open = match self.entity_store.get_pheromone_with_type_at(&target, t) {
                                    Some(other) => {
                                        proof {
                                            self.entity_store.lemma_pheromone_at(other, target.cell_key(), t);
                                        }
                                        match self.entity_store.pheromone_generations.get(&other) {
                                            Some(og) => og.generation > generation,
                                            None => false,
                                        }
                                    },
                                    None => {
                                        proof {
                                            assert(self.entity_store.pheromone_at(target.cell_key(), t) is None);
                                        }
                                        true
                                    },
                                };
                            }
                            let spread = Spread { source: id, ph_type: t, target, amount };
                            proof {
                                assert(open == self.spread_allowed(spread));
                                assert(forall|d2: int| 0 <= d2 < d ==> #[trigger] offset(pos, orthogonal_step(d2)) != target);
                            }
                            if open {
                                proof {
                                    assert(!prev.contains(spread)) by {
                                        if prev.contains(spread) {
                                            let k = choose|k: int| 0 <= k < prev.len() && prev[k] == spread;
                                            assert(self.targets_below(prev[k], d as int));
                                        }
                                    }
                                }
                                spreads.push(spread);
                            }
                            proof {
                                assert forall|s: Spread| #[trigger] prev.contains(s) implies spreads@.contains(s) by {
                                    let k = choose|k: int| 0 <= k < prev.len() && prev[k] == s;
                                    assert(spreads@[k] == s);
                                }
                                if open {
                                    assert(spreads@[spreads@.len() - 1] == spread);
                                }
                                assert forall|s: Spread| #[trigger] self.spread_allowed(s) && s.source == id
                                    && self.targets_below(s, d + 1) implies spreads@.contains(s) by {
                                    let d2 = choose|d2: int| 0 <= d2 < d + 1 && s.target == #[trigger] offset(self.entity_store.pos_map()[s.source], orthogonal_step(d2));
                                    if d2 < d {
                                        assert(self.targets_below(s, d as int));
                                    } else {
                                        assert(s == spread);
                                    }
                                }
                                assert forall|k: int| 0 <= k < spreads@.len() implies (#[trigger] spreads@[k]).source < id
                                    || (spreads@[k].source == id && self.targets_below(spreads@[k], d + 1)) by {
                                    if k < prev.len() {
                                        assert(spreads@[k] == prev[k]);
                                        if prev[k].source == id {
                                            let d2 = choose|d2: int| 0 <= d2 < d && prev[k].target == #[trigger] offset(self.entity_store.pos_map()[prev[k].source], orthogonal_step(d2));
                                            assert(self.targets_below(spreads@[k], d + 1));
                                        }
                                    } else {
                                        assert(self.targets_below(spreads@[k], d + 1));
                                    }
                                }
                            }
                            d += 1;
                        }
                        proof {
                            assert forall|s: Spread| #[trigger] self.spread_allowed(s) && s.source < id + 1 implies spreads@.contains(s) by {
                                if s.source == id {
                                    assert(self.targets_below(s, 4));
                                }
                            }
                        }
                    }
                },
                None => {},
            }
            id += 1;
        }
        proof {
            assert forall|s: Spread| #[trigger] self.spread_allowed(s) implies spreads@.contains(s) by {
                assert(self.entity_store.entity_types@.contains_key(s.source));
            }
        }
        spreads
    }

    /// Diffusion: lays every spread of `diffusion_targets`, each merged
    /// into the pheromone of its type already in the target's cell.
    fn diffuse_pheromones(&mut self)
        requires
            old(self).wf(),
            old(self).entity_store.new_index < usize::MAX / 8,
        ensures
            final(self).wf(),
            final(self).width == old(self).width,
            final(self).height == old(self).height,
            final(self).spread_percent == old(self).spread_percent,
            final(self).min_spread_strength == old(self).min_spread_strength,
            same_agents(&final(self).entity_store, &old(self).entity_store),
            old(self).entity_store.new_index <= final(self).entity_store.new_index <= 5 * old(self).entity_store.new_index,
            forall|i: EntityIndex| #[trigger] old(self).entity_store.pos_map().contains_key(i)
                && !old(self).entity_store.pheromone_types@.contains_key(i) ==> {
                &&& final(self).entity_store.pos_map().contains_key(i)
                &&& final(self).entity_store.pos_map()[i] == old(self).entity_store.pos_map()[i]
            },
            forall|i: EntityIndex| #[trigger] final(self).entity_store.pos_map().contains_key(i) ==>
                old(self).entity_store.pos_map().contains_key(i) || i >= old(self).entity_store.new_index,
            old(self).diffuses_into(&final(self).entity_store),
            forall|i: EntityIndex| #[trigger] old(self).entity_store.entity_types@.contains_key(i) ==>
                final(self).entity_store.entity_types@.contains_key(i)
                    && final(self).entity_store.entity_types@[i] == old(self).entity_store.entity_types@[i],
            forall|i: EntityIndex| #[trigger] old(self).entity_store.pos_map().contains_key(i)
                && !old(self).entity_store.pheromone_types@.contains_key(i) ==> !final(self).entity_store.pheromone_types@.contains_key(i),
    {
        let ghost a = self.entity_store;
        let spreads = self.diffusion_targets();
        let ghost mut states: Seq<EntityStore> = seq![a];
        let mut k: usize = 0;
        while k < spreads.len()
            invariant
                self.wf(),
                self.width == old(self).width,
                self.height == old(self).height,
                self.spread_percent == old(self).spread_percent,
                self.min_spread_strength == old(self).min_spread_strength,
                a == old(self).entity_store,
                a.wf(),
                a.new_index < usize::MAX / 8,
                spreads@.len() <= 4 * a.new_index,
                k <= spreads@.len(),
                a.new_index <= self.entity_store.new_index <= a.new_index + k,
                same_agents(&self.entity_store, &a),
                forall|j: int| 0 <= j < spreads@.len() ==> old(self).spread_allowed(#[trigger] spreads@[j]),
                forall|i: EntityIndex| #[trigger] a.pos_map().contains_key(i) && !a.pheromone_types@.contains_key(i) ==> {
                    &&& self.entity_store.pos_map().contains_key(i)
                    &&& self.entity_store.pos_map()[i] == a.pos_map()[i]
                    &&& !self.entity_store.pheromone_types@.contains_key(i)
                },
                forall|i: EntityIndex| #[trigger] self.entity_store.pos_map().contains_key(i) ==>
                    a.pos_map().contains_key(i) || i >= a.new_index,
                states.len() == k + 1,
                forall|i: EntityIndex| #[trigger] a.entity_types@.contains_key(i) ==>
                    self.entity_store.entity_types@.contains_key(i) && self.entity_store.entity_types@[i] == a.entity_types@[i],
                states[0] == a,
                states[states.len() - 1] == self.entity_store,
                lays(states, spreads@.subrange(0, k as int)),
            decreases spreads@.len() - k,
        {
            let spread = spreads[k];
            proof {
                assert(old(self).spread_allowed(spreads@[k as int]));
            }
            let ghost c = self.entity_store;
            self.increase_pheromone_strength_at(&spread.target, spread.ph_type, &IntensityComponent { strength: spread.amount });
            proof {
                let c2 = self.entity_store;
                assert forall|i: EntityIndex| #[trigger] a.pos_map().contains_key(i) && !a.pheromone_types@.contains_key(i) implies {
                    &&& c2.pos_map().contains_key(i)
                    &&& c2.pos_map()[i] == a.pos_map()[i]
                    &&& !c2.pheromone_types@.contains_key(i)
                } by {
                    assert(a.entity_types@.contains_key(i));
                    let gone = c.pheromone_at(spread.target.cell_key(), spread.ph_type);
                    if gone is Some {
                        assert(c.is_pheromone_at(gone->0, spread.target.cell_key(), spread.ph_type));
                    }
                }
                let prev = states;
                states = states.push(c2);
                let done = spreads@.subrange(0, k + 1);
                assert forall|j: int| 0 <= j < done.len() implies deposited(
                    &states[j],
                    &#[trigger] states[j + 1],
                    done[j].target,
                    done[j].ph_type,
                    done[j].amount as nat,
                    states[j].new_index,
                ) by {
                    if j < k {
                        assert(states[j] == prev[j] && states[j + 1] == prev[j + 1]);
                        assert(done[j] == spreads@.subrange(0, k as int)[j]);
                    }
                }
            }
            k += 1;
        }
        proof {
            assert(spreads@.subrange(0, spreads@.len() as int) =~= spreads@);
        }
    }
}

} // verus!
