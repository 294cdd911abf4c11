//! One step of a move's input sequence.

use vstd::prelude::*;
use crate::text::names;

verus! {

/// A step: the movement and actions to press, and the frame window in which
/// the next input has to follow.
pub struct SequenceStep {
    pub movement: String,
    pub actions: Vec<String>,
    pub input_window: u32,
    pub modifiers: Vec<u32>,
}

/// What a `SequenceStep` holds, as plain values.
pub struct StepModel {
    pub movement: Seq<char>,
    pub actions: Seq<Seq<char>>,
    pub input_window: u32,
    pub modifiers: Seq<u32>,
}

impl View for SequenceStep {
    type V = StepModel;

    open spec fn view(&self) -> StepModel {
        StepModel {
            movement: self.movement@,
            actions: names(self.actions@),
            input_window: self.input_window,
            modifiers: self.modifiers@,
        }
    }
}

impl SequenceStep {
    /// A step made of the given parts.
    pub fn new(movement: String, actions: Vec<String>, input_window: u32, modifiers: Vec<u32>) -> (r: Self)
        ensures
            r.movement == movement,
            r.actions == actions,
            r.input_window == input_window,
            r.modifiers == modifiers,
    {
        SequenceStep { movement, actions, input_window, modifiers }
    }
}

} // verus!
