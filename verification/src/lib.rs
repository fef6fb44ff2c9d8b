//! Verified core of an OpenGL learning project: file-name and path building,
//! level files of the breakout game, vertex de-duplication of meshes, key
//! handling decisions, power-up effects and a memoising cache.

pub mod search;
pub mod paths;
pub mod text;
pub mod level_text;
pub mod level;
pub mod mesh;
pub mod cacher;
pub mod input;
pub mod keyboard;
pub mod settings;
pub mod power_up;
pub mod images;
pub mod material;
pub mod event_loop;
pub mod context;
pub mod matrix;

pub use input::Action;
pub use paths::{build_filename, concat_filepath};
