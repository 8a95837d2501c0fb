//! Lapin: a turn based game on a grid where a rabbit runs to the grass
//! while foxes, wolves, knights and hunters move by simple rules.
//!
//! This crate holds the rules of the game (board, actors, moves,
//! path finding, world AI), the level editor's drawing logic and
//! the non-graphical parts of the menus, all verified with Verus.

pub mod pos;
pub mod pos_map;
pub mod terrain;
pub mod item;
pub mod actor;
pub mod actor_map;
pub mod world_move;
pub mod level;
pub mod board;
pub mod path;
pub mod world;
pub mod layout;
pub mod edit;
pub mod status;
pub mod transition;
pub mod critters;
pub mod fromage;
pub mod commands;
pub mod help;
pub mod campaign;
pub mod level_choice;
pub mod play;
