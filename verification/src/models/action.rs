//! Actions: named inputs that are evaluated once per frame.

use vstd::prelude::*;
use crate::text::names;

verus! {

/// How an action is evaluated.
pub enum ActionType {
    /// Pressed when its input map action is pressed.
    Basic { input_action: String, is_dependency: bool },
    /// Pressed according to the state of other actions it depends upon.
    Composite { dependencies: Vec<String>, require_all: bool },
}

/// An action with its state for the current frame.
pub struct Action {
    pub pressed: bool,
    pub charge_type: u32,
    pub action_type: ActionType,
}

/// How an action is evaluated, as plain values.
pub enum ActionKind {
    Basic { input_action: Seq<char>, is_dependency: bool },
    Composite { dependencies: Seq<Seq<char>>, require_all: bool },
}

/// What an `Action` holds, as plain values.
pub struct ActionModel {
    pub pressed: bool,
    pub charge_type: u32,
    pub kind: ActionKind,
}

impl View for Action {
    type V = ActionModel;

    open spec fn view(&self) -> ActionModel {
        ActionModel {
            pressed: self.pressed,
            charge_type: self.charge_type,
            kind: match self.action_type {
                ActionType::Basic { input_action, is_dependency } => ActionKind::Basic {
                    input_action: input_action@,
                    is_dependency,
                },
                ActionType::Composite { dependencies, require_all } => ActionKind::Composite {
                    dependencies: names(dependencies@),
                    require_all,
                },
            },
        }
    }
}

/// The model of a new basic action.
pub open spec fn basic_model(input_action: Seq<char>, charge_type: u32) -> ActionModel {
    ActionModel {
        pressed: false,
        charge_type,
        kind: ActionKind::Basic { input_action, is_dependency: false },
    }
}

/// The model of a new composite action.
pub open spec fn composite_model(dependencies: Seq<Seq<char>>, charge_type: u32, require_all: bool) -> ActionModel {
    ActionModel {
        pressed: false,
        charge_type,
        kind: ActionKind::Composite { dependencies, require_all },
    }
}

impl Action {
    /// An unpressed basic action bound to `input_action`.
    pub fn basic(input_action: String, charge_type: u32) -> (r: Self)
        ensures
            !r.pressed,
            r.charge_type == charge_type,
            r.action_type == (ActionType::Basic { input_action, is_dependency: false }),
            r@ == basic_model(input_action@, charge_type),
    {
        Action {
            pressed: false,
            charge_type,
            action_type: ActionType::Basic { input_action, is_dependency: false },
        }
    }

    /// An unpressed composite action over `dependencies`.
    pub fn composite(dependencies: Vec<String>, charge_type: u32, require_all: bool) -> (r: Self)
        ensures
            !r.pressed,
            r.charge_type == charge_type,
            r.action_type == (ActionType::Composite { dependencies, require_all }),
            r@ == composite_model(names(dependencies@), charge_type, require_all),
    {
        Action {
            pressed: false,
            charge_type,
            action_type: ActionType::Composite { dependencies, require_all },
        }
    }
}

} // verus!
