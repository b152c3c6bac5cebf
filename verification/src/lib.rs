//! A grid puzzle engine: a player pushes coloured blocks through rooms whose
//! tiles are lit by coloured lamps, and every committed move can be undone.

pub mod camera;
pub mod color;
pub mod direction;
pub mod entity;
pub mod keys;
pub mod laws;
pub mod lerp;
pub mod model;
pub mod player;
pub mod room;
pub mod scene;
pub mod scene_config;
pub mod view;
pub mod visibility;
