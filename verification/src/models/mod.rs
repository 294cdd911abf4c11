//! The values that the input processor works on.

pub mod action;
pub mod frame_input_state;
pub mod history_item;
pub mod move_def;
pub mod sequence_step;
