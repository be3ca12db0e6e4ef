//! A foraging ant colony on a rectangular arena: ants lay and follow
//! pheromone trails between food and their base, and the trails merge,
//! spread and evaporate tick by tick.
pub mod components;
pub mod entities;
pub mod entity_store;
pub mod game;
