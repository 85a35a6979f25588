//! Simulation engine of a turn-based dungeon crawler.
//!
//! The engine lays out a level of rooms and corridors, peoples it with
//! monsters and items that grow more dangerous with depth, and resolves the
//! turns of the player and of the monsters: combat, confusion, items,
//! equipment and levels. Drawing, keys, the computation of the field of view
//! and the save file are left to the program around the engine, which hands
//! it plain values and gets plain values back.
//!
//! Every function states what it does in a contract over the views of the
//! entities and of the game, and is proved to keep it. The draws of the
//! random generator in `rng` are the one thing believed rather than proved.
//!
//! - `map`, `dungeon`: the tile grid, rooms, corridors, and why every room
//!   can be reached;
//! - `object`, `ai`, `equipment`, `item`: the entities and their components,
//!   combat, monster behaviour, and what items do;
//! - `population`: monsters and items by depth;
//! - `game`: the state of a game, and the making of a level;
//! - `turn`, `targeting`, `leveling`: the player's turn and the monsters'
//!   answer, aiming, and progression;
//! - `fov`, `render`, `menu`, `log`, `text`, `color`: what the screen needs
//!   to know.

pub mod ai;
pub mod color;
pub mod dungeon;
pub mod equipment;
pub mod fov;
pub mod game;
pub mod item;
pub mod leveling;
pub mod log;
pub mod map;
pub mod menu;
pub mod object;
pub mod population;
pub mod render;
pub mod rng;
pub mod targeting;
pub mod text;
pub mod turn;
