use aco_sim::components::{
    CoarsePositionComponent, DirectionComponent, IntensityComponent, PositionComponent,
    ShortMemory,
};
use aco_sim::entities::{EntityType, PheromoneType};
use aco_sim::entity_store::EntityStore;
use aco_sim::game::Game;

#[test]
fn create_entity_hands_out_increasing_indices() {
    let mut store = EntityStore::default();
    let ant = store.create_entity(EntityType::Ant);
    let sugar = store.create_entity(EntityType::Sugar);
    let wall = store.create_entity(EntityType::Wall);
    assert_eq!((ant, sugar, wall), (0, 1, 2));
    assert_eq!(store.new_index, 3);
    assert!(store.memories.contains_key(&ant));
    assert!(store.edibles.contains_key(&sugar));
    assert!(store.impenetrables.contains_key(&wall));
    assert_eq!(store.get_position(ant), Some(&PositionComponent { x: 50, y: 50 }));
    assert_eq!(store.get_direction(ant), None);
}

#[test]
fn coarse_position_floors_and_clamps() {
    assert_eq!(CoarsePositionComponent::from(PositionComponent { x: 299, y: 300 }), CoarsePositionComponent { x: 2, y: 3 });
    assert_eq!(CoarsePositionComponent::from(PositionComponent { x: -50, y: 0 }), CoarsePositionComponent { x: 0, y: 0 });
}

#[test]
fn update_position_moves_between_buckets() {
    let mut store = EntityStore::default();
    let ant = store.create_entity(EntityType::Ant);
    store.update_position(ant, &PositionComponent { x: 230, y: 170 });
    assert_eq!(store.get_direction(ant), Some(&DirectionComponent { x: 180, y: 120 }));
    assert!(store.get_entities_at(&PositionComponent { x: 10, y: 10 }).is_none());
    let here = store.get_entities_at(&PositionComponent { x: 299, y: 100 }).unwrap();
    assert_eq!(here, &vec![ant]);
}

#[test]
fn entities_with_type_at_filters_by_type() {
    let mut store = EntityStore::default();
    let ant = store.create_entity(EntityType::Ant);
    let base = store.create_entity(EntityType::Base);
    assert_eq!(store.get_entities_with_type_at(&PositionComponent { x: 0, y: 0 }, EntityType::Base), Some(vec![base]));
    assert_eq!(store.get_entities_with_type_at(&PositionComponent { x: 0, y: 0 }, EntityType::Ant), Some(vec![ant]));
    assert_eq!(store.get_entities_with_type_at(&PositionComponent { x: 0, y: 0 }, EntityType::Sugar), None);
    assert_eq!(store.get_entities_with_type_at(&PositionComponent { x: 500, y: 0 }, EntityType::Base), None);
}

#[test]
fn walls_make_cells_impenetrable() {
    let mut store = EntityStore::default();
    let wall = store.create_entity(EntityType::Wall);
    store.update_position(wall, &PositionComponent { x: 120, y: 40 });
    assert!(store.pos_is_impenetrable(&PositionComponent { x: 199, y: 99 }));
    assert!(!store.pos_is_impenetrable(&PositionComponent { x: 50, y: 50 }));
}

#[test]
fn remove_position_empties_the_cell() {
    let mut store = EntityStore::default();
    let sugar = store.create_entity(EntityType::Sugar);
    store.remove_position(sugar);
    assert_eq!(store.get_position(sugar), None);
    assert!(store.get_entities_at(&PositionComponent { x: 50, y: 50 }).is_none());
}

#[test]
fn short_memory_evicts_the_oldest_cell() {
    let mut store = EntityStore::default();
    let ant = store.create_entity(EntityType::Ant);
    for i in 0..17 {
        store.add_to_short_memory(ant, &PositionComponent { x: 100 * i + 50, y: 50 });
    }
    assert!(!store.in_short_memory(ant, &PositionComponent { x: 50, y: 50 }));
    assert!(store.in_short_memory(ant, &PositionComponent { x: 150, y: 99 }));
    assert!(store.in_short_memory(ant, &PositionComponent { x: 1650, y: 0 }));
    assert_eq!(store.memories[&ant].pos_queue.len(), 16);
    store.clear_memory(ant);
    assert!(!store.in_short_memory(ant, &PositionComponent { x: 1650, y: 0 }));
}

#[test]
fn short_memory_keeps_its_size() {
    let mut memory = ShortMemory::new(2);
    memory.remember(CoarsePositionComponent { x: 1, y: 1 });
    memory.remember(CoarsePositionComponent { x: 2, y: 1 });
    memory.remember(CoarsePositionComponent { x: 3, y: 1 });
    assert_eq!(memory.pos_queue, vec![CoarsePositionComponent { x: 2, y: 1 }, CoarsePositionComponent { x: 3, y: 1 }]);
    assert!(!memory.contains(&CoarsePositionComponent { x: 1, y: 1 }));
    assert_eq!(ShortMemory::default().size, 16);
}

#[test]
fn merging_adds_strengths_and_keeps_the_oldest_generation() {
    let mut game = Game::init(EntityStore::default(), 500, 500);
    let pos = PositionComponent { x: 120, y: 330 };
    let first = game.increase_pheromone_strength_at(&pos, PheromoneType::Food, &IntensityComponent { strength: 7 });
    game.entity_store.pheromone_generation = 4;
    let second = game.increase_pheromone_strength_at(&PositionComponent { x: 180, y: 301 }, PheromoneType::Food, &IntensityComponent { strength: 5 });
    assert_ne!(first, second);
    assert!(!game.entity_store.intensities.contains_key(&first));
    assert!(game.entity_store.get_position(first).is_none());
    assert_eq!(game.entity_store.intensities[&second].strength, 12);
    assert_eq!(game.entity_store.pheromone_generations[&second].generation, 0);
    assert_eq!(game.entity_store.get_pheromone_with_type_at(&pos, PheromoneType::Food), Some(second));
    assert_eq!(game.entity_store.get_pheromone_with_type_at(&pos, PheromoneType::Base), None);
}

#[test]
fn pheromone_types_do_not_merge() {
    let mut game = Game::init(EntityStore::default(), 500, 500);
    let pos = PositionComponent { x: 120, y: 330 };
    let food = game.increase_pheromone_strength_at(&pos, PheromoneType::Food, &IntensityComponent { strength: 7 });
    let base = game.increase_pheromone_strength_at(&pos, PheromoneType::Base, &IntensityComponent { strength: 3 });
    assert_eq!(game.entity_store.get_pheromone_with_type_at(&pos, PheromoneType::Food), Some(food));
    assert_eq!(game.entity_store.get_pheromone_with_type_at(&pos, PheromoneType::Base), Some(base));
    assert_eq!(game.entity_store.pheromone_generations[&base].generation, 0);
}

#[test]
fn merging_saturates_at_the_largest_strength() {
    let mut game = Game::init(EntityStore::default(), 500, 500);
    let pos = PositionComponent { x: 20, y: 30 };
    game.increase_pheromone_strength_at(&pos, PheromoneType::Base, &IntensityComponent { strength: u32::MAX - 1 });
    let id = game.increase_pheromone_strength_at(&pos, PheromoneType::Base, &IntensityComponent { strength: 5 });
    assert_eq!(game.entity_store.intensities[&id].strength, u32::MAX);
}

#[test]
fn evaporation_removes_a_pheromone_after_its_strength_in_ticks() {
    let mut game = Game::init(EntityStore::default(), 500, 500);
    let id = game.increase_pheromone_strength_at(&PositionComponent { x: 320, y: 10 }, PheromoneType::Food, &IntensityComponent { strength: 3 });
    game.evaporate_pheromones();
    assert_eq!(game.entity_store.intensities[&id].strength, 2);
    game.evaporate_pheromones();
    assert_eq!(game.entity_store.intensities[&id].strength, 1);
    game.evaporate_pheromones();
    assert!(!game.entity_store.intensities.contains_key(&id));
    assert!(!game.entity_store.pheromone_types.contains_key(&id));
    assert!(game.entity_store.get_position(id).is_none());
    assert!(game.entity_store.get_entities_at(&PositionComponent { x: 320, y: 10 }).is_none());
}

#[test]
fn evaporation_spares_food_and_bases() {
    let mut game = Game::init(EntityStore::default(), 500, 500);
    let sugar = game.entity_store.create_entity(EntityType::Sugar);
    game.entity_store.update_position(sugar, &PositionComponent { x: 410, y: 220 });
    let base = game.entity_store.create_entity(EntityType::Base);
    game.entity_store.update_position(base, &PositionComponent { x: 10, y: 220 });
    let on_sugar = game.increase_pheromone_strength_at(&PositionComponent { x: 450, y: 250 }, PheromoneType::Food, &IntensityComponent { strength: 1 });
    let on_base = game.increase_pheromone_strength_at(&PositionComponent { x: 50, y: 250 }, PheromoneType::Base, &IntensityComponent { strength: 1 });
    for _ in 0..5 {
        game.evaporate_pheromones();
    }
    assert_eq!(game.entity_store.intensities[&on_sugar].strength, 1);
    assert_eq!(game.entity_store.intensities[&on_base].strength, 1);
}

#[test]
fn deneubourg_walls_leave_a_corridor() {
    let mut game = Game::init(EntityStore::default(), 500, 500);
    game.add_deneubourg_walls();
    for (x, y) in [(0, 0), (0, 1), (0, 3), (0, 4), (1, 0), (2, 0), (3, 0), (1, 4), (2, 4), (3, 4), (4, 0), (4, 1), (4, 3), (4, 4), (2, 2)] {
        assert!(game.entity_store.pos_is_impenetrable(&PositionComponent { x: 100 * x + 50, y: 100 * y + 50 }));
    }
    for (x, y) in [(0, 2), (1, 1), (1, 2), (1, 3), (2, 1), (2, 3), (3, 1), (3, 2), (3, 3), (4, 2)] {
        assert!(!game.entity_store.pos_is_impenetrable(&PositionComponent { x: 100 * x + 50, y: 100 * y + 50 }));
    }
    assert_eq!(game.entity_store.walls.len(), 15);
}

#[test]
fn deneubourg_walls_take_the_next_fifteen_indices() {
    let mut game = Game::init(EntityStore::default(), 500, 500);
    let first = game.entity_store.create_entity(EntityType::Ant);
    game.add_deneubourg_walls();
    assert_eq!(game.entity_store.new_index, first + 16);
    assert_eq!(game.entity_store.get_position(first + 1), Some(&PositionComponent { x: 0, y: 150 }));
    assert_eq!(game.entity_store.get_position(first + 4), Some(&PositionComponent { x: 100, y: 450 }));
    assert_eq!(game.entity_store.get_position(first + 15), Some(&PositionComponent { x: 250, y: 250 }));
    for id in first + 1..first + 16 {
        assert_eq!(game.entity_store.entity_types[&id], EntityType::Wall);
    }
}
