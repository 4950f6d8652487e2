//! The simulation core of a grid-based, turn-synchronous dungeon crawler.

pub mod carve;
pub mod color;
pub mod corridors;
pub mod direction;
pub mod dungeon;
pub mod engine;
pub mod fov;
pub mod grid;
pub mod item;
pub mod map;
pub mod pathing;
pub mod point;
pub mod random;
pub mod ranking;
pub mod reach;
pub mod rectangle;
pub mod rooms;
pub mod text;
pub mod traits;
pub mod turn;
pub mod ui;
pub mod unit_type;
pub mod units;
