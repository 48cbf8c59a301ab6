//! The numbers the game is tuned with, in fixed-point steps: lengths in
//! thousandths of a unit, speeds in thousandths of a unit per second,
//! durations in millionths of a second, ratios in thousandths.
use vstd::prelude::*;

verus! {

/// Speed of a shot of the base gun.
pub const BULLET_SPEED: i64 = 600_000;

/// Shield energy when full.
pub const MAX_SHIELD_TIME: i64 = 5_000_000;

/// Slow-time energy when full.
pub const MAX_SLOWMO_TIME: i64 = 3_000_000;

/// Lives at the start of a session.
pub const PLAYER_LIVES: i32 = 3;

/// Most lives a ship can hold.
pub const MAX_LIVES: i32 = 5;

/// Length of the invincibility window after a damaging hit.
pub const PLAYER_INVINCIBLE_TIME: i64 = 2_000_000;

/// Chance that a destroyed enemy leaves a power-up, in thousandths.
pub const POWERUP_SPAWN_CHANCE: i32 = 300;

/// Most homing missiles a ship can carry.
pub const MISSILE_AMMO_MAX: i32 = 5;

/// Delay between two missile launches.
pub const MISSILE_COOLDOWN_MAX: i64 = 500_000;

/// Time a missile flies before it expires.
pub const MISSILE_LIFE: i64 = 3_000_000;

/// Speed of a missile.
pub const MISSILE_SPEED: i64 = 400_000;

/// Share of the way, per second, by which a missile's heading turns to its
/// target, in thousandths.
pub const MISSILE_TURN_SPEED: i64 = 3000;

/// Time after which one missile is restocked.
pub const MISSILE_REGEN_TIME: i64 = 1_000_000;

/// Time the beam stays on.
pub const LASER_DURATION: i64 = 1_500_000;

/// Time the beam takes to recharge.
pub const LASER_COOLDOWN: i64 = 2_000_000;

/// Hit points the beam takes from a drone.
pub const LASER_DAMAGE: i32 = 2;

/// Most enemies the beam damages in one step.
pub const LASER_MAX_PENETRATION: i32 = 5;

/// Reach of the beam.
pub const LASER_RANGE: i64 = 800_000;

/// Score for a shot that hits an asteroid.
pub const ASTEROID_HIT_SCORE: i32 = 10;

/// Score for a shot that hits a drone.
pub const DRONE_HIT_SCORE: i32 = 50;

/// Score for destroying a drone, on top of the score for the hit.
pub const KILL_SCORE: i32 = 50;

/// Score for a missile that hits a drone.
pub const MISSILE_DRONE_SCORE: i32 = 20;

/// Score for a missile that hits an asteroid.
pub const MISSILE_ASTEROID_SCORE: i32 = 15;

/// Score for bouncing an asteroid off the shield.
pub const BOUNCE_SCORE: i32 = 5;

/// Score for a drone that ran into an asteroid.
pub const COLLATERAL_SCORE: i32 = 50;

/// Hit points a missile takes from a drone.
pub const MISSILE_DAMAGE: i32 = 2;

/// Radius an asteroid loses to the beam or to a shot.
pub const SHOT_DAMAGE: i64 = 10_000;

/// Radius an asteroid loses to a missile or to a drone that rams it.
pub const HEAVY_DAMAGE: i64 = 15_000;

/// Radius at or below which an asteroid is destroyed.
pub const ASTEROID_MIN_RADIUS: i64 = 10_000;

/// Width of the playing field where no other is given.
pub const SCREEN_WIDTH: i64 = 800_000;

/// Height of the playing field where no other is given.
pub const SCREEN_HEIGHT: i64 = 600_000;

/// Collision radius of the ship.
pub const SHIP_RADIUS: i64 = 15_000;

/// Distance below which a drone rams the ship or an asteroid.
pub const DRONE_COLLISION_RADIUS: i64 = 20_000;

/// Distance below which a shot or the beam hits a drone.
pub const BULLET_COLLISION_RADIUS: i64 = 15_000;

/// Distance below which the ship picks a power-up.
pub const POWERUP_COLLISION_RADIUS: i64 = 20_000;

/// Distance below which a hostile shot hits the ship.
pub const SHIP_HIT_RADIUS: i64 = 12_000;

/// What is added to an asteroid's radius when the ship is tested against it.
pub const SHIP_ASTEROID_MARGIN: i64 = 8_000;

/// What is added to an asteroid's radius when a missile or the beam is tested
/// against it.
pub const BLAST_MARGIN: i64 = 10_000;

/// Speed at which an asteroid leaves the shield.
pub const ASTEROID_BOUNCE_SPEED: i64 = 400_000;

/// Speed at which a drone leaves the shield.
pub const DRONE_BOUNCE_SPEED: i64 = 300_000;

/// How far off the field a drone or a shot may stray.
pub const NEAR_MARGIN: i64 = 50_000;

/// How far off the field an asteroid or a missile may stray.
pub const FAR_MARGIN: i64 = 100_000;

/// Shield energy below which the shield does not come up.
pub const ENERGY_EPSILON: i64 = 100_000;

/// Factor by which time runs while slow-time is on, in thousandths.
pub const SLOW_TIME_FACTOR: i64 = 300;

/// Largest width or height of a playing field.
pub const ARENA: i64 = 400_000_000;

/// Largest speed the arithmetic can take.
pub const SPEED_LIMIT: i64 = 500_000_000;

/// Largest speed of anything but the ship in a running game.
pub const TAME_SPEED: i64 = 1_000_000;

/// How far anything but the ship can travel in the longest step.
pub const STRIDE: i64 = 20_000_000;

/// How far from the origin anything can be at the end of a step.
pub const HOME: i64 = 400_100_000;

/// How far from the origin anything can get in the course of a step: a
/// drone may fly a stride and fire, and its shot may fly another.
pub const REACH: i64 = 441_000_000;

} // verus!
