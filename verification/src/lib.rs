//! The simulation core of an arcade survival game: a ship, the waves of
//! asteroids and drones it fends off, the weapons it fires, and the rules by
//! which they collide.
//!
//! Nothing here reads a clock, a key or a window. A host hands in the time
//! that has passed and the state of the controls, and reads back what is on
//! the field and what there is to show. Every quantity is a fixed-point
//! integer (see [`units`]), so a step is exact and repeatable but for the
//! draws of the random generator.
pub mod collisions;
pub mod consts;
pub mod controls;
pub mod cooldown;
pub mod effects;
pub mod enemies;
pub mod events;
pub mod game;
pub mod laws;
pub mod rng;
pub mod scenes;
pub mod seqs;
pub mod ship;
pub mod steering;
pub mod units;
pub mod vec2;
pub mod weapons;

pub use collisions::{
    handle_enemy_bullet_collisions, handle_friendly_bullet_collisions, handle_powerup_collisions,
    handle_ship_asteroid_collisions, handle_ship_drone_collisions,
};
pub use controls::Controls;
pub use cooldown::Cooldown;
pub use effects::{
    create_explosion_particle, EffectSystem, Particle, TrailPoint as EffectTrailPoint,
};
pub use enemies::{Asteroid, Bullet, Drone, DroneType, PowerUp, PowerUpType};
pub use events::{Color, Event, EventQueue};
pub use game::{Game, GameState, ScreenShake, World};
pub use scenes::{GameOverScene, GameScene, MenuScene, PauseScene, Scene, SceneKeys};
pub use ship::{Ship, TrailPoint};
pub use vec2::Vec2;
pub use weapons::{HomingMissile, Laser, WeaponSystem};
