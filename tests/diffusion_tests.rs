use aco_sim::components::{DirectionComponent, IntensityComponent, PositionComponent};
use aco_sim::entities::PheromoneType;
use aco_sim::entity_store::EntityStore;
use aco_sim::game::{Game, TurnSampler};

struct Still;

impl TurnSampler for Still {
    fn sample_direction(&mut self, _heading: &DirectionComponent) -> DirectionComponent {
        DirectionComponent { x: 0, y: 0 }
    }
}

fn strength_at(game: &Game, x: i64, y: i64, t: PheromoneType) -> Option<u32> {
    game.entity_store
        .get_pheromone_with_type_at(&PositionComponent { x, y }, t)
        .map(|id| game.entity_store.intensities[&id].strength)
}

#[test]
fn no_spreading_by_default() {
    let mut game = Game::init(EntityStore::default(), 500, 500);
    game.increase_pheromone_strength_at(&PositionComponent { x: 250, y: 250 }, PheromoneType::Food, &IntensityComponent { strength: 10 });
    assert!(game.diffusion_targets().is_empty());
    game.tick(&mut Still);
    assert_eq!(strength_at(&game, 150, 250, PheromoneType::Food), None);
    assert_eq!(strength_at(&game, 250, 250, PheromoneType::Food), Some(9));
}

#[test]
fn spreading_reaches_the_four_neighbours() {
    let mut game = Game::init(EntityStore::default(), 500, 500);
    game.set_diffusion(50, 2);
    game.increase_pheromone_strength_at(&PositionComponent { x: 250, y: 250 }, PheromoneType::Food, &IntensityComponent { strength: 10 });
    game.tick(&mut Still);
    assert_eq!(strength_at(&game, 250, 250, PheromoneType::Food), Some(9));
    for (x, y) in [(150, 250), (350, 250), (250, 150), (250, 350)] {
        assert_eq!(strength_at(&game, x, y, PheromoneType::Food), Some(4));
    }
    assert_eq!(strength_at(&game, 150, 150, PheromoneType::Food), None);
    assert_eq!(strength_at(&game, 250, 250, PheromoneType::Base), None);
}

#[test]
fn spreading_stays_in_the_arena() {
    let mut game = Game::init(EntityStore::default(), 200, 100);
    game.set_diffusion(100, 0);
    let source = game.increase_pheromone_strength_at(&PositionComponent { x: 50, y: 50 }, PheromoneType::Base, &IntensityComponent { strength: 8 });
    let spreads = game.diffusion_targets();
    assert_eq!(spreads.len(), 1);
    assert_eq!(spreads[0].source, source);
    assert_eq!(spreads[0].target, PositionComponent { x: 150, y: 50 });
    assert_eq!(spreads[0].amount, 8);
}

#[test]
fn weak_pheromones_do_not_spread() {
    let mut game = Game::init(EntityStore::default(), 500, 500);
    game.set_diffusion(50, 20);
    game.increase_pheromone_strength_at(&PositionComponent { x: 250, y: 250 }, PheromoneType::Food, &IntensityComponent { strength: 19 });
    assert!(game.diffusion_targets().is_empty());
    game.set_diffusion(5, 0);
    game.increase_pheromone_strength_at(&PositionComponent { x: 50, y: 50 }, PheromoneType::Food, &IntensityComponent { strength: 1 });
    // 19 * 5 / 100 and 1 * 5 / 100 both round down to nothing.
    assert!(game.diffusion_targets().is_empty());
}

#[test]
fn spreading_never_flows_towards_older_generations() {
    let mut game = Game::init(EntityStore::default(), 500, 500);
    game.set_diffusion(50, 0);
    game.entity_store.pheromone_generation = 3;
    let older = game.increase_pheromone_strength_at(&PositionComponent { x: 150, y: 250 }, PheromoneType::Food, &IntensityComponent { strength: 40 });
    game.entity_store.pheromone_generation = 5;
    let source = game.increase_pheromone_strength_at(&PositionComponent { x: 250, y: 250 }, PheromoneType::Food, &IntensityComponent { strength: 40 });
    game.entity_store.pheromone_generation = 5;
    let same = game.increase_pheromone_strength_at(&PositionComponent { x: 350, y: 250 }, PheromoneType::Food, &IntensityComponent { strength: 40 });
    game.entity_store.pheromone_generation = 9;
    let newer = game.increase_pheromone_strength_at(&PositionComponent { x: 250, y: 150 }, PheromoneType::Food, &IntensityComponent { strength: 40 });
    let from_source: Vec<PositionComponent> = game
        .diffusion_targets()
        .into_iter()
        .filter(|s| s.source == source)
        .map(|s| s.target)
        .collect();
    assert_eq!(from_source, vec![PositionComponent { x: 250, y: 350 }, PositionComponent { x: 250, y: 150 }]);
    let from_older = game.diffusion_targets().into_iter().filter(|s| s.source == older).count();
    assert_eq!(from_older, 4);
    let from_newer_to_source = game
        .diffusion_targets()
        .into_iter()
        .any(|s| (s.source == newer || s.source == same) && s.target == PositionComponent { x: 250, y: 250 });
    assert!(!from_newer_to_source);
}

#[test]
fn spreading_merges_into_newer_pheromones() {
    let mut game = Game::init(EntityStore::default(), 300, 100);
    game.set_diffusion(50, 0);
    game.increase_pheromone_strength_at(&PositionComponent { x: 50, y: 50 }, PheromoneType::Base, &IntensityComponent { strength: 21 });
    game.entity_store.pheromone_generation = 2;
    let newer = game.increase_pheromone_strength_at(&PositionComponent { x: 150, y: 50 }, PheromoneType::Base, &IntensityComponent { strength: 3 });
    game.tick(&mut Still);
    // 21 evaporates to 20 and spreads 10; 3 evaporates to 2 and spreads 1.
    assert_eq!(strength_at(&game, 150, 50, PheromoneType::Base), Some(12));
    assert!(!game.entity_store.intensities.contains_key(&newer));
    let merged = game.entity_store.get_pheromone_with_type_at(&PositionComponent { x: 150, y: 50 }, PheromoneType::Base).unwrap();
    assert_eq!(game.entity_store.pheromone_generations[&merged].generation, 2);
    assert_eq!(strength_at(&game, 250, 50, PheromoneType::Base), Some(1));
}
