//! The description of a fighter's actions, as the engine's resources give it.

use vstd::prelude::*;
use crate::text::names;

verus! {

/// Tells the input processor how to evaluate player input: the inputs of the
/// four directions and the custom actions.
pub struct FighterActionMap {
    pub up: String,
    pub down: String,
    pub forward: String,
    pub back: String,
    pub actions: Vec<FighterAction>,
    pub composite_actions: Vec<FighterCompositeAction>,
    pub charge_requirement: i32,
}

/// A custom basic action: a name, its input and how it charges.
pub struct FighterAction {
    pub name: String,
    pub input_action: String,
    pub charge_type: i32,
}

/// A custom composite action: a name, the actions it depends on, whether all
/// of them are needed, and how it charges.
pub struct FighterCompositeAction {
    pub name: String,
    pub dependencies: Vec<String>,
    pub require_all: bool,
    pub charge_type: i32,
}

/// What a `FighterAction` holds, as plain values.
pub struct FighterActionModel {
    pub name: Seq<char>,
    pub input_action: Seq<char>,
    pub charge_type: i32,
}

impl View for FighterAction {
    type V = FighterActionModel;

    open spec fn view(&self) -> FighterActionModel {
        FighterActionModel { name: self.name@, input_action: self.input_action@, charge_type: self.charge_type }
    }
}

/// What a `FighterCompositeAction` holds, as plain values.
pub struct FighterCompositeModel {
    pub name: Seq<char>,
    pub dependencies: Seq<Seq<char>>,
    pub require_all: bool,
    pub charge_type: i32,
}

impl View for FighterCompositeAction {
    type V = FighterCompositeModel;

    open spec fn view(&self) -> FighterCompositeModel {
        FighterCompositeModel {
            name: self.name@,
            dependencies: names(self.dependencies@),
            require_all: self.require_all,
            charge_type: self.charge_type,
        }
    }
}

/// What a `FighterActionMap` holds, as plain values.
pub struct ActionMapModel {
    pub up: Seq<char>,
    pub down: Seq<char>,
    pub forward: Seq<char>,
    pub back: Seq<char>,
    pub actions: Seq<FighterActionModel>,
    pub composite_actions: Seq<FighterCompositeModel>,
    pub charge_requirement: i32,
}

impl View for FighterActionMap {
    type V = ActionMapModel;

    open spec fn view(&self) -> ActionMapModel {
        ActionMapModel {
            up: self.up@,
            down: self.down@,
            forward: self.forward@,
            back: self.back@,
            actions: self.actions@.map_values(|a: FighterAction| a@),
            composite_actions: self.composite_actions@.map_values(|a: FighterCompositeAction| a@),
            charge_requirement: self.charge_requirement,
        }
    }
}

} // verus!
