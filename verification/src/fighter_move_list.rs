//! The move list, as the engine's resources give it.

use vstd::prelude::*;
use crate::text::names;
use crate::models::sequence_step::StepModel;

verus! {

/// A collection of moves.
pub struct FighterMoveList {
    pub input_window: u32,
    pub moves: Vec<FighterMove>,
}

/// A move: its name, priority (lower is higher), whether it needs neutral
/// inputs or charge, and its sequence.
pub struct FighterMove {
    pub name: String,
    pub priority: i32,
    pub require_neutrals: bool,
    pub require_charge: bool,
    pub charge_frames: u32,
    pub sequence: Vec<FighterSequenceStep>,
}

/// One step of a sequence: the movement and actions to press, its modifiers
/// and the frame window for the next input.
pub struct FighterSequenceStep {
    pub movement: String,
    pub actions: Vec<String>,
    pub modifiers: Vec<u32>,
    pub input_window: u32,
}

impl View for FighterSequenceStep {
    type V = StepModel;

    open spec fn view(&self) -> StepModel {
        StepModel {
            movement: self.movement@,
            actions: names(self.actions@),
            input_window: self.input_window,
            modifiers: self.modifiers@,
        }
    }
}

/// What a `FighterMove` holds, as plain values; its steps are first step first.
pub struct FighterMoveModel {
    pub name: Seq<char>,
    pub priority: i32,
    pub require_neutrals: bool,
    pub require_charge: bool,
    pub charge_frames: u32,
    pub sequence: Seq<StepModel>,
}

impl View for FighterMove {
    type V = FighterMoveModel;

    open spec fn view(&self) -> FighterMoveModel {
        FighterMoveModel {
            name: self.name@,
            priority: self.priority,
            require_neutrals: self.require_neutrals,
            require_charge: self.require_charge,
            charge_frames: self.charge_frames,
            sequence: self.sequence@.map_values(|s: FighterSequenceStep| s@),
        }
    }
}

/// What a `FighterMoveList` holds, as plain values.
pub struct MoveListModel {
    pub input_window: u32,
    pub moves: Seq<FighterMoveModel>,
}

impl View for FighterMoveList {
    type V = MoveListModel;

    open spec fn view(&self) -> MoveListModel {
        MoveListModel { input_window: self.input_window, moves: self.moves@.map_values(|m: FighterMove| m@) }
    }
}

} // verus!
