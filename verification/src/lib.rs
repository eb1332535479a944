//! A turn-based dungeon simulation core: map generation, entities, combat,
//! monster behaviour and turn scheduling, with machine-checked contracts.

pub mod ai;
pub mod carve;
pub mod color;
pub mod combat;
pub mod death;
pub mod dungeon;
pub mod event;
pub mod fov;
pub mod generate;
pub mod guard;
pub mod inventory;
pub mod movement;
pub mod object;
pub mod player;
pub mod populate;
pub mod random;
pub mod reach;
pub mod rect;
pub mod registry;
pub mod schedule;
pub mod text;
pub mod tile;
pub mod turn;
pub mod ui;
