use aco_sim::components::{DirectionComponent, IntensityComponent, PositionComponent};
use aco_sim::entities::{EntityType, PheromoneType};
use aco_sim::entity_store::EntityStore;
use aco_sim::game::{Game, TurnSampler};
use rand::rngs::StdRng;
use rand::SeedableRng;
use rand_distr::{Distribution, Normal};

/// Turns drawn from a normal distribution (mean 0, standard deviation 1/3,
/// scaled to half a turn) around the heading, from a seeded generator.
struct NormalTurns {
    rng: StdRng,
    normal: Normal<f64>,
}

impl NormalTurns {
    fn new(seed: [u8; 32]) -> Self {
        NormalTurns { rng: StdRng::from_seed(seed), normal: Normal::new(0.0, 1.0 / 3.0).unwrap() }
    }
}

impl TurnSampler for NormalTurns {
    fn sample_direction(&mut self, heading: &DirectionComponent) -> DirectionComponent {
        let mut r = self.normal.sample(&mut self.rng);
        r *= std::f64::consts::PI;
        r += (heading.y as f64).atan2(heading.x as f64);
        DirectionComponent { x: (r.cos() * 100.0).round() as i64, y: (r.sin() * 100.0).round() as i64 }
    }
}

/// A sampler whose steps never land in the arena.
struct FarAway;

impl TurnSampler for FarAway {
    fn sample_direction(&mut self, _heading: &DirectionComponent) -> DirectionComponent {
        DirectionComponent { x: i64::MAX, y: 0 }
    }
}

fn init_game(width: i64, height: i64, ants: i64) -> Game {
    let mut game = Game::init(EntityStore::default(), width, height);
    for i in 0..ants {
        let index = game.entity_store.create_entity(EntityType::Ant);
        game.entity_store.update_position(index, &PositionComponent { x: (50 + 100 * i) % width, y: height / 2 });
    }
    let index = game.entity_store.create_entity(EntityType::Base);
    game.entity_store.update_position(index, &PositionComponent { x: 50, y: height / 2 });
    let index = game.entity_store.create_entity(EntityType::Sugar);
    game.entity_store.update_position(index, &PositionComponent { x: width - 50, y: height / 2 });
    game
}

fn ants_in_open_cells(game: &Game) -> bool {
    game.entity_store.ants.keys().all(|id| {
        let p = game.entity_store.get_position(*id).unwrap();
        p.x >= 0 && p.y >= 0 && p.x < game.width && p.y < game.height && !game.entity_store.pos_is_impenetrable(p)
    })
}

#[test]
fn test_5x5_open() {
    let mut game = init_game(500, 500, 1);
    let mut turns = NormalTurns::new([0; 32]);
    for _ in 0..300 {
        game.tick(&mut turns);
    }
    println!("{} >= {}", game.entity_store.food_in_base, 32);
    assert!(game.entity_store.food_in_base >= 32);
}

#[test]
fn test_5x5_optimal_deneubourg_walls_1_ant() {
    let mut game = init_game(500, 500, 1);
    game.add_deneubourg_walls();
    let mut turns = NormalTurns::new([0; 32]);
    for _ in 0..300 {
        game.tick(&mut turns);
    }
    println!("{} >= {}", game.entity_store.food_in_base, 35);
    assert!(game.entity_store.food_in_base >= 35);
}

#[test]
fn test_10x10_open() {
    let mut game = init_game(1000, 1000, 10);
    let mut turns = NormalTurns::new([0; 32]);
    for _ in 0..300 {
        game.tick(&mut turns);
        assert!(ants_in_open_cells(&game));
    }
}

#[test]
fn walls_are_never_entered() {
    let mut game = init_game(500, 500, 1);
    game.add_deneubourg_walls();
    let mut turns = NormalTurns::new([7; 32]);
    for _ in 0..300 {
        game.tick(&mut turns);
        assert!(ants_in_open_cells(&game));
    }
    assert!(game.entity_store.food_in_base > 0);
}

#[test]
fn same_seed_same_outcome() {
    let mut first = init_game(500, 500, 3);
    let mut second = init_game(500, 500, 3);
    let mut a = NormalTurns::new([3; 32]);
    let mut b = NormalTurns::new([3; 32]);
    for _ in 0..100 {
        first.tick(&mut a);
        second.tick(&mut b);
    }
    assert_eq!(first.entity_store.food_in_base, second.entity_store.food_in_base);
    for id in first.entity_store.ants.keys() {
        assert_eq!(first.entity_store.get_position(*id), second.entity_store.get_position(*id));
    }
}

#[test]
fn generation_grows_each_tick() {
    let mut game = init_game(500, 500, 1);
    let mut turns = NormalTurns::new([0; 32]);
    game.tick(&mut turns);
    game.tick(&mut turns);
    assert_eq!(game.entity_store.pheromone_generation, 2);
}

#[test]
fn stuck_ant_stays_put() {
    let mut game = Game::init(EntityStore::default(), 300, 300);
    let ant = game.entity_store.create_entity(EntityType::Ant);
    game.entity_store.update_position(ant, &PositionComponent { x: 150, y: 150 });
    game.tick(&mut FarAway);
    assert_eq!(game.entity_store.get_position(ant), Some(&PositionComponent { x: 150, y: 150 }));
}

#[test]
fn ant_follows_strongest_food_trail() {
    let mut game = Game::init(EntityStore::default(), 500, 500);
    let ant = game.entity_store.create_entity(EntityType::Ant);
    game.entity_store.update_position(ant, &PositionComponent { x: 250, y: 250 });
    game.increase_pheromone_strength_at(&PositionComponent { x: 350, y: 250 }, PheromoneType::Food, &IntensityComponent { strength: 5 });
    game.increase_pheromone_strength_at(&PositionComponent { x: 250, y: 350 }, PheromoneType::Food, &IntensityComponent { strength: 9 });
    game.increase_pheromone_strength_at(&PositionComponent { x: 150, y: 250 }, PheromoneType::Base, &IntensityComponent { strength: 50 });
    game.tick(&mut FarAway);
    assert_eq!(game.entity_store.get_position(ant), Some(&PositionComponent { x: 250, y: 350 }));
    assert_eq!(game.entity_store.get_direction(ant), Some(&DirectionComponent { x: 0, y: 100 }));
}

#[test]
fn ant_picks_up_and_delivers_food() {
    let mut game = Game::init(EntityStore::default(), 300, 100);
    let base = game.entity_store.create_entity(EntityType::Base);
    game.entity_store.update_position(base, &PositionComponent { x: 50, y: 50 });
    let sugar = game.entity_store.create_entity(EntityType::Sugar);
    game.entity_store.update_position(sugar, &PositionComponent { x: 250, y: 50 });
    let ant = game.entity_store.create_entity(EntityType::Ant);
    game.entity_store.update_position(ant, &PositionComponent { x: 150, y: 50 });
    // Food trail to the right, base trail to the left.
    game.increase_pheromone_strength_at(&PositionComponent { x: 250, y: 50 }, PheromoneType::Food, &IntensityComponent { strength: 100 });
    game.increase_pheromone_strength_at(&PositionComponent { x: 50, y: 50 }, PheromoneType::Base, &IntensityComponent { strength: 100 });
    game.increase_pheromone_strength_at(&PositionComponent { x: 150, y: 50 }, PheromoneType::Base, &IntensityComponent { strength: 50 });
    game.tick(&mut FarAway);
    assert_eq!(game.entity_store.get_position(ant), Some(&PositionComponent { x: 250, y: 50 }));
    assert!(game.entity_store.carrying_food.contains_key(&ant));
    assert_eq!(game.entity_store.food_in_base, 0);
    game.tick(&mut FarAway);
    game.tick(&mut FarAway);
    assert_eq!(game.entity_store.get_position(ant), Some(&PositionComponent { x: 50, y: 50 }));
    assert!(!game.entity_store.carrying_food.contains_key(&ant));
    assert_eq!(game.entity_store.food_in_base, 1);
}

/// A sampler that always proposes the same step.
struct Fixed(DirectionComponent);

impl TurnSampler for Fixed {
    fn sample_direction(&mut self, _heading: &DirectionComponent) -> DirectionComponent {
        self.0
    }
}

#[test]
fn trails_are_not_followed_backwards() {
    let mut game = Game::init(EntityStore::default(), 500, 500);
    let ant = game.entity_store.create_entity(EntityType::Ant);
    game.entity_store.update_position(ant, &PositionComponent { x: 250, y: 150 });
    game.entity_store.update_position(ant, &PositionComponent { x: 250, y: 250 });
    assert_eq!(game.entity_store.get_direction(ant), Some(&DirectionComponent { x: 0, y: 100 }));
    // The only food trail lies straight behind the ant: a half turn is too sharp.
    game.increase_pheromone_strength_at(&PositionComponent { x: 250, y: 150 }, PheromoneType::Food, &IntensityComponent { strength: 50 });
    game.tick(&mut Fixed(DirectionComponent { x: 100, y: 0 }));
    assert_eq!(game.entity_store.get_position(ant), Some(&PositionComponent { x: 350, y: 250 }));
}

#[test]
fn trails_are_followed_at_right_angles() {
    let mut game = Game::init(EntityStore::default(), 500, 500);
    let ant = game.entity_store.create_entity(EntityType::Ant);
    game.entity_store.update_position(ant, &PositionComponent { x: 250, y: 150 });
    game.entity_store.update_position(ant, &PositionComponent { x: 250, y: 250 });
    game.increase_pheromone_strength_at(&PositionComponent { x: 150, y: 250 }, PheromoneType::Food, &IntensityComponent { strength: 50 });
    game.tick(&mut FarAway);
    assert_eq!(game.entity_store.get_position(ant), Some(&PositionComponent { x: 150, y: 250 }));
}

#[test]
fn steps_longer_than_a_cell_are_refused() {
    let mut game = Game::init(EntityStore::default(), 500, 500);
    let ant = game.entity_store.create_entity(EntityType::Ant);
    game.entity_store.update_position(ant, &PositionComponent { x: 150, y: 150 });
    game.tick(&mut Fixed(DirectionComponent { x: 200, y: 0 }));
    assert_eq!(game.entity_store.get_position(ant), Some(&PositionComponent { x: 150, y: 150 }));
    game.tick(&mut Fixed(DirectionComponent { x: 71, y: -71 }));
    assert_eq!(game.entity_store.get_position(ant), Some(&PositionComponent { x: 221, y: 79 }));
}

#[test]
fn each_move_lays_the_trail() {
    let mut game = Game::init(EntityStore::default(), 500, 500);
    let ant = game.entity_store.create_entity(EntityType::Ant);
    game.entity_store.update_position(ant, &PositionComponent { x: 150, y: 150 });
    game.tick(&mut FarAway);
    assert_eq!(game.entity_store.releasing_pheromones[&ant].ticks_left, 998);
    let food = game.entity_store.get_pheromone_with_type_at(&PositionComponent { x: 150, y: 150 }, PheromoneType::Food);
    assert_eq!(game.entity_store.intensities[&food.unwrap()].strength, 16);
}

#[test]
fn a_delivery_is_counted_once() {
    let mut game = Game::init(EntityStore::default(), 200, 100);
    let base = game.entity_store.create_entity(EntityType::Base);
    game.entity_store.update_position(base, &PositionComponent { x: 50, y: 50 });
    let ant = game.entity_store.create_entity(EntityType::Ant);
    game.entity_store.update_position(ant, &PositionComponent { x: 150, y: 50 });
    game.entity_store.carrying_food.insert(ant, aco_sim::components::CarryingFoodComponent {});
    game.tick(&mut Fixed(DirectionComponent { x: -100, y: 0 }));
    assert_eq!(game.entity_store.food_in_base, 1);
    assert!(!game.entity_store.carrying_food.contains_key(&ant));
    assert_eq!(game.entity_store.releasing_pheromones[&ant].ph_type, PheromoneType::Base);
}
