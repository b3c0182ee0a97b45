//! Discrete game model for a grid-based first-person dungeon crawler:
//! the wall grid, the occupancy grid, tile classification and movement,
//! the entity roster, combat, the player and monster state machines and
//! an exact grid ray caster, each with a machine-checked contract.

pub mod animation;
pub mod combat;
pub mod coords;
pub mod editor;
pub mod fpv;
pub mod frame;
pub mod game;
pub mod grid2d;
pub mod level;
pub mod mob;
pub mod physics;
pub mod player_movement;
pub mod player_state;
pub mod raycaster;
pub mod sight;
pub mod sprites;
