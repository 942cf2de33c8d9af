//! Simulation core of a small survival-horror scene: a tile world, a player
//! and camera, a pursuing ghost, a candle-lighting minigame, drifting embers,
//! the light mask and the scene state machine.
//!
//! World positions are fixed-point: one pixel is `SUB` sub-units, so that the
//! per-frame steps of the simulation (half a pixel for the player, a tenth of
//! a pixel per unit of the ghost's speed, seven tenths for a drifting ember)
//! are exact integers.
pub mod audio;
pub mod candle;
pub mod geom;
pub mod ghost;
pub mod grid;
pub mod light;
pub mod minimap;
pub mod particles;
pub mod player;
mod rng;
pub mod scene;

pub use audio::Audio;
pub use candle::{ProgressBar, PROGRESS_FULL, update_candles};
pub use geom::{PointF, Rect, SUB, to_px};
pub use ghost::{Specter, Stereo, update_ghost, stereo, SPAWN_REACH, SPEED_MAX, SPEED_START};
pub use grid::{
    Candle, GhostSpawn, WorldGrid, candle_from_draw, gen_map, GRID_CELLS, GRID_DIM, TILE_EMPTY, TILE_PX, TILE_WALL,
};
pub use light::{LightBlob, MAX_LIGHT, light_blobs};
pub use minimap::{candle_marks, player_mark, tile_color, CANDLE_MARK, PLAYER_MARK};
pub use particles::{
    Dot, Particle, ParticleColor, age_particles, bright_from_roll, emit_ember, roll_bright, make_ember, spawn_particles,
    visible_dots, DEAD_LIFETIME, SPAWN_LIFETIME,
};
pub use player::{Camera, Input, Player, camera_for, player_rect, update_player, PLAYER_MAX, PLAYER_MIN};
pub use scene::{FrameView, Jumpscare, Scene, SceneState, StepOutcome, World, JUMPSCARE_TICKS};
