//! A small farm simulation: a player walks on a plane, spends money to spawn
//! brains, and each brain is sold for a profit once its lifetime runs out.
//!
//! All quantities are integers: money in whole currency units, time in
//! microseconds, positions in micro-units of the plane (a speed of one unit per
//! second moves the player one micro-unit per microsecond).

pub mod economy;
pub mod movement;
pub mod registry;
mod seq_facts;
pub mod world;

pub use economy::{FarmError, Money};
pub use movement::{move_player, InputSnapshot, Position};
pub use registry::{Brain, Player, Registry};
pub use world::{
    ActionState, Config, StepOutcome, World, ENTITY_LIFETIME_US, PLAYER_SPEED, SPAWN_COST,
    SPAWN_PAYOUT, STARTING_BALANCE,
};
