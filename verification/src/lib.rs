//! Input processing for fighting games: evaluates the actions pressed on each
//! frame, keeps an input history and matches it against a list of moves.

pub mod text;
pub mod frame_fighter;
pub mod keyed;
pub mod models;
pub mod fighter_history;
pub mod input_history;
pub mod indexed;
pub mod action_controller;
pub mod move_order;
pub mod move_matcher;
pub mod fighter_action_map;
pub mod fighter_move_list;
pub mod fighter_input;
pub mod properties;
