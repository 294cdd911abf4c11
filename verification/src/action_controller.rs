//! Evaluates the actions of a fighter once per frame: basic actions from the
//! pressed inputs, composite actions from their dependencies, opposite
//! directions cancelling each other, and charge.

use vstd::prelude::*;
use indexmap::IndexMap;
use crate::frame_fighter::{FrameFighter, is_movement_name};
use crate::keyed::{
    kv, key_index, lookup, has_key, insert_key, set_existing, insert_pair, find_key,
    lemma_key_index, lemma_insert_names, lemma_set_existing_names,
};
use crate::text::{names, copy_string, copy_pairs, contains_name, str_eq};
use crate::indexed::{action_entries, actions_new, actions_insert, actions_len, actions_get, actions_value_mut};
use crate::models::frame_input_state::{FrameInputState, FrameModel, signature};
pub use crate::models::action::{Action, ActionType, ActionKind, ActionModel, basic_model, composite_model};

verus! {

/// Evaluates the actions of a fighter.
pub struct ActionController {
    pub side: u32,
    pub actions: IndexMap<String, Action>,
    pub charge: Vec<(String, u32)>,
    pub opposites: Vec<(String, (String, String))>,
    pub dependency_input: Vec<(String, bool)>,
    pub can_charge: bool,
}

/// What an `ActionController` holds, as plain values.
pub struct ControllerModel {
    pub side: u32,
    pub actions: Seq<(Seq<char>, ActionModel)>,
    pub charge: Seq<(Seq<char>, u32)>,
    pub opposites: Seq<(Seq<char>, (Seq<char>, Seq<char>))>,
    pub dependency_input: Seq<(Seq<char>, bool)>,
    pub can_charge: bool,
}

/// The models of named actions.
pub open spec fn amodels(s: Seq<(Seq<char>, Action)>) -> Seq<(Seq<char>, ActionModel)> {
    s.map_values(|e: (Seq<char>, Action)| (e.0, e.1@))
}

/// Named pairs of strings, every string taken as its characters.
pub open spec fn ovals(s: Seq<(Seq<char>, (String, String))>) -> Seq<(Seq<char>, (Seq<char>, Seq<char>))> {
    s.map_values(|e: (Seq<char>, (String, String))| (e.0, (e.1.0@, e.1.1@)))
}

impl View for ActionController {
    type V = ControllerModel;

    open spec fn view(&self) -> ControllerModel {
        ControllerModel {
            side: self.side,
            actions: amodels(action_entries(self.actions)),
            charge: kv(self.charge@),
            opposites: ovals(kv(self.opposites@)),
            dependency_input: kv(self.dependency_input@),
            can_charge: self.can_charge,
        }
    }
}

/// Inserting an action and taking the models commute.
proof fn lemma_amodels_insert(s: Seq<(Seq<char>, Action)>, k: Seq<char>, v: Action)
    ensures
        amodels(insert_key(s, k, v)) == insert_key(amodels(s), k, v@),
{
    lemma_insert_names(s, amodels(s), k, v, v@);
    lemma_key_index(s, k);
    assert(amodels(insert_key(s, k, v)) =~= insert_key(amodels(s), k, v@));
}

/// Inserting an opposite and taking the models commute.
proof fn lemma_ovals_insert(s: Seq<(Seq<char>, (String, String))>, k: Seq<char>, v: (String, String))
    ensures
        ovals(insert_key(s, k, v)) == insert_key(ovals(s), k, (v.0@, v.1@)),
{
    lemma_insert_names(s, ovals(s), k, v, (v.0@, v.1@));
    lemma_key_index(s, k);
    assert(ovals(insert_key(s, k, v)) =~= insert_key(ovals(s), k, (v.0@, v.1@)));
}

/// The controller after adding a basic action.
pub open spec fn with_basic(c: ControllerModel, name: Seq<char>, input_action: Seq<char>, charge_type: u32) -> ControllerModel {
    ControllerModel { actions: insert_key(c.actions, name, basic_model(input_action, charge_type)), ..c }
}

/// The controller after adding a composite action.
pub open spec fn with_composite(
    c: ControllerModel,
    name: Seq<char>,
    dependencies: Seq<Seq<char>>,
    charge_type: u32,
    require_all: bool,
) -> ControllerModel {
    ControllerModel {
        actions: insert_key(c.actions, name, composite_model(dependencies, charge_type, require_all)),
        ..c
    }
}

/// The controller after creating a charge counter, at zero.
pub open spec fn with_charge_key(c: ControllerModel, name: Seq<char>) -> ControllerModel {
    ControllerModel { charge: insert_key(c.charge, name, 0), ..c }
}

/// The controller after recording the opposite of a direction.
pub open spec fn with_opposite(
    c: ControllerModel,
    name: Seq<char>,
    opposite: Seq<char>,
    opposite_input: Seq<char>,
) -> ControllerModel {
    ControllerModel { opposites: insert_key(c.opposites, name, (opposite, opposite_input)), ..c }
}

/// The controller after adding the four directions, as basic actions, and
/// the four diagonals, as composite actions that are not charged and need
/// both of their directions.
pub open spec fn with_direction_actions(
    c: ControllerModel,
    up: Seq<char>,
    down: Seq<char>,
    forward: Seq<char>,
    back: Seq<char>,
    charge_type: u32,
) -> ControllerModel {
    let c1 = with_basic(
        with_basic(with_basic(with_basic(c, "up"@, up, charge_type), "down"@, down, charge_type), "forward"@, forward, charge_type),
        "back"@,
        back,
        charge_type,
    );
    with_composite(
        with_composite(
            with_composite(
                with_composite(c1, "up_forward"@, seq!["up"@, "forward"@], FrameFighter::CHARGE_NONE, true),
                "down_forward"@,
                seq!["down"@, "forward"@],
                FrameFighter::CHARGE_NONE,
                true,
            ),
            "up_back"@,
            seq!["up"@, "back"@],
            FrameFighter::CHARGE_NONE,
            true,
        ),
        "down_back"@,
        seq!["down"@, "back"@],
        FrameFighter::CHARGE_NONE,
        true,
    )
}

/// The controller after recording the opposite of each direction with the
/// input of that opposite.
pub open spec fn with_direction_opposites(
    c: ControllerModel,
    up: Seq<char>,
    down: Seq<char>,
    forward: Seq<char>,
    back: Seq<char>,
) -> ControllerModel {
    with_opposite(
        with_opposite(
            with_opposite(with_opposite(c, "up"@, "down"@, down), "down"@, "up"@, up),
            "back"@,
            "forward"@,
            forward,
        ),
        "forward"@,
        "back"@,
        back,
    )
}

/// The controller after binding the four directions and their diagonals,
/// with a charge counter for each direction and their opposites.
pub open spec fn with_directions(
    c: ControllerModel,
    up: Seq<char>,
    down: Seq<char>,
    forward: Seq<char>,
    back: Seq<char>,
    charge_type: u32,
) -> ControllerModel {
    let c2 = with_direction_actions(c, up, down, forward, back, charge_type);
    let c3 = with_charge_key(
        with_charge_key(with_charge_key(with_charge_key(c2, "up"@), "down"@), "back"@),
        "forward"@,
    );
    with_direction_opposites(c3, up, down, forward, back)
}

/// The input that action `a` reads, if it is a basic action.
pub open spec fn basic_input(a: ActionModel) -> Option<Seq<char>> {
    match a.kind {
        ActionKind::Basic { input_action, is_dependency } => Some(input_action),
        ActionKind::Composite { .. } => None,
    }
}

/// Action `a` reading `input` instead, if it is a basic action.
pub open spec fn with_input(a: ActionModel, input: Seq<char>) -> ActionModel {
    match a.kind {
        ActionKind::Basic { input_action, is_dependency } => ActionModel {
            kind: ActionKind::Basic { input_action: input, is_dependency },
            ..a
        },
        ActionKind::Composite { .. } => a,
    }
}

/// The actions with the inputs of the basic actions `x` and `y` exchanged;
/// unchanged unless both are basic actions.
pub open spec fn swap_inputs(s: Seq<(Seq<char>, ActionModel)>, x: Seq<char>, y: Seq<char>) -> Seq<(Seq<char>, ActionModel)> {
    let i = key_index(s, x);
    let j = key_index(s, y);
    if i >= 0 && j >= 0 && basic_input(s[i].1) is Some && basic_input(s[j].1) is Some {
        s.update(i, (s[i].0, with_input(s[i].1, basic_input(s[j].1)->0))).update(
            j,
            (s[j].0, with_input(s[j].1, basic_input(s[i].1)->0)),
        )
    } else {
        s
    }
}

/// The opposites with the opposite inputs recorded for `x` and `y`
/// exchanged; unchanged unless both are recorded.
pub open spec fn swap_opposites(
    o: Seq<(Seq<char>, (Seq<char>, Seq<char>))>,
    x: Seq<char>,
    y: Seq<char>,
) -> Seq<(Seq<char>, (Seq<char>, Seq<char>))> {
    let i = key_index(o, x);
    let j = key_index(o, y);
    if i >= 0 && j >= 0 {
        o.update(i, (o[i].0, (o[i].1.0, o[j].1.1))).update(j, (o[j].0, (o[j].1.0, o[i].1.1)))
    } else {
        o
    }
}

/// Whether forward and back are inverted on `side`: sequences are defined
/// for player one, so they are inverted for player two.
pub open spec fn inverted(side: u32) -> bool {
    side == FrameFighter::PLAYER_TWO
}

/// The controller on `side`: the side is stored, and when the side changes
/// between inverted and not inverted, forward and back exchange their
/// inputs, and so do the opposite inputs recorded for them.
pub open spec fn with_side(c: ControllerModel, side: u32) -> ControllerModel {
    if inverted(side) != inverted(c.side) {
        ControllerModel {
            side,
            actions: swap_inputs(c.actions, "forward"@, "back"@),
            opposites: swap_opposites(c.opposites, "forward"@, "back"@),
            ..c
        }
    } else {
        ControllerModel { side, ..c }
    }
}

impl ActionController {
    /// A controller for player one with no action, which does not charge.
    pub fn new() -> (r: Self)
        ensures
            r@.side == FrameFighter::PLAYER_ONE,
            !r@.can_charge,
            r@.actions.len() == 0,
            r@.charge.len() == 0,
            r@.opposites.len() == 0,
            r@.dependency_input.len() == 0,
    {
        ActionController {
            side: FrameFighter::PLAYER_ONE,
            can_charge: false,
            actions: actions_new(),
            charge: Vec::new(),
            opposites: Vec::new(),
            dependency_input: Vec::new(),
        }
    }

    /// Adds (or replaces) a basic action named `name` bound to `input_action`.
    pub fn add(&mut self, name: String, input_action: String, charge_type: u32)
        ensures
            final(self)@ == with_basic(old(self)@, name@, input_action@, charge_type),
    {
        let ghost before = action_entries(self.actions);
        let ghost n = name@;
        let a = Action::basic(input_action, charge_type);
        proof {
            lemma_amodels_insert(before, n, a);
        }
        actions_insert(&mut self.actions, name, a);
    }

    /// Adds (or replaces) a composite action named `name`.
    pub fn add_composite(&mut self, name: String, dependencies: Vec<String>, charge_type: u32, require_all: bool)
        ensures
            final(self)@ == with_composite(old(self)@, name@, names(dependencies@), charge_type, require_all),
    {
        let ghost before = action_entries(self.actions);
        let ghost n = name@;
        let a = Action::composite(dependencies, charge_type, require_all);
        proof {
            lemma_amodels_insert(before, n, a);
        }
        actions_insert(&mut self.actions, name, a);
    }

    /// Creates (or resets) the charge counter of `name`, at zero.
    pub fn create_charge_key(&mut self, name: String)
        ensures
            final(self)@ == with_charge_key(old(self)@, name@),
    {
        insert_pair(&mut self.charge, name, 0);
    }

    /// Records the opposite action of `name` and the input of that opposite.
    pub fn build_opposite_tuple(&mut self, name: String, opposite: String, opposite_input: String)
        ensures
            final(self)@ == with_opposite(old(self)@, name@, opposite@, opposite_input@),
    {
        let ghost before = kv(self.opposites@);
        let ghost n = name@;
        let v = (opposite, opposite_input);
        proof {
            lemma_ovals_insert(before, n, v);
        }
        insert_pair(&mut self.opposites, name, v);
    }

    /// Binds the four directions to their inputs, with their diagonals,
    /// their charge counters and their opposites.
    pub fn bind_directions(&mut self, up: String, down: String, forward: String, back: String, charge_type: u32)
        ensures
            final(self)@ == with_directions(old(self)@, up@, down@, forward@, back@, charge_type),
    {
        let up_input = copy_string(&up);
        let down_input = copy_string(&down);
        let forward_input = copy_string(&forward);
        let back_input = copy_string(&back);

        self.add("up".to_owned(), up, charge_type);
        self.add("down".to_owned(), down, charge_type);
        self.add("forward".to_owned(), forward, charge_type);
        self.add("back".to_owned(), back, charge_type);

        let d1 = vec!["up".to_owned(), "forward".to_owned()];
        assert(names(d1@) =~= seq!["up"@, "forward"@]);
        self.add_composite("up_forward".to_owned(), d1, FrameFighter::CHARGE_NONE, true);
        let d2 = vec!["down".to_owned(), "forward".to_owned()];
        assert(names(d2@) =~= seq!["down"@, "forward"@]);
        self.add_composite("down_forward".to_owned(), d2, FrameFighter::CHARGE_NONE, true);
        let d3 = vec!["up".to_owned(), "back".to_owned()];
        assert(names(d3@) =~= seq!["up"@, "back"@]);
        self.add_composite("up_back".to_owned(), d3, FrameFighter::CHARGE_NONE, true);
        let d4 = vec!["down".to_owned(), "back".to_owned()];
        assert(names(d4@) =~= seq!["down"@, "back"@]);
        self.add_composite("down_back".to_owned(), d4, FrameFighter::CHARGE_NONE, true);

        self.create_charge_key("up".to_owned());
        self.create_charge_key("down".to_owned());
        self.create_charge_key("back".to_owned());
        self.create_charge_key("forward".to_owned());

        self.build_opposite_tuple("up".to_owned(), "down".to_owned(), down_input);
        self.build_opposite_tuple("down".to_owned(), "up".to_owned(), up_input);
        self.build_opposite_tuple("back".to_owned(), "forward".to_owned(), forward_input);
        self.build_opposite_tuple("forward".to_owned(), "back".to_owned(), back_input);
    }

    /// Sets whether pressed actions gain charge.
    pub fn should_charge(&mut self, can_charge: bool)
        ensures
            final(self)@ == (ControllerModel { can_charge, ..old(self)@ }),
    {
        self.can_charge = can_charge;
    }

    /// Switches to `side`. Sequences are defined for player one: on the
    /// player two side forward and back read each other's inputs, and the
    /// opposite inputs recorded for them are exchanged too.
    pub fn handle_side(&mut self, side: u32)
        ensures
            final(self)@ == with_side(old(self)@, side),
    {
        let swap = (side == FrameFighter::PLAYER_TWO) != (self.side == FrameFighter::PLAYER_TWO);
        self.side = side;
        if swap {
            self.swap_direction_inputs();
            self.swap_direction_opposites();
        }
    }

    /// The position of the action named `name`.
    fn find_action(&self, name: &str) -> (r: Option<usize>)
        ensures
            match r {
                Some(i) => i < self@.actions.len() && i == key_index(self@.actions, name@),
                None => key_index(self@.actions, name@) == -1,
            },
    {
        let n = actions_len(&self.actions);
        let mut i: usize = 0;
        while i < n
            invariant
                i <= n,
                n == self@.actions.len(),
                forall|j: int| 0 <= j < i ==> #[trigger] self@.actions[j].0 != name@,
            decreases n - i,
        {
            let (k, _) = actions_get(&self.actions, i);
            if str_eq(k.as_str(), name) {
                proof {
                    crate::keyed::lemma_key_index_at(self@.actions, name@, i as int);
                }
                return Some(i);
            }
            i += 1;
        }
        proof {
            crate::keyed::lemma_key_index_absent(self@.actions, name@);
        }
        None
    }

    /// The input of the action at position `i`, if it is a basic action.
    fn input_at(&self, i: usize) -> (r: Option<String>)
        requires
            i < self@.actions.len(),
        ensures
            match r {
                Some(x) => basic_input(self@.actions[i as int].1) == Some(x@),
                None => basic_input(self@.actions[i as int].1) is None,
            },
    {
        let (_, a) = actions_get(&self.actions, i);
        match &a.action_type {
            ActionType::Basic { input_action, is_dependency } => Some(copy_string(input_action)),
            ActionType::Composite { .. } => None,
        }
    }

    /// Makes the action at position `i` read `input`, if it is a basic action.
    fn set_input_at(&mut self, i: usize, input: String)
        requires
            i < old(self)@.actions.len(),
        ensures
            final(self)@ == (ControllerModel {
                actions: old(self)@.actions.update(
                    i as int,
                    (old(self)@.actions[i as int].0, with_input(old(self)@.actions[i as int].1, input@)),
                ),
                ..old(self)@
            }),
    {
        let ghost before = self@;
        let a = actions_value_mut(&mut self.actions, i);
        match &mut a.action_type {
            ActionType::Basic { input_action, is_dependency } => {
                *input_action = input;
            },
            ActionType::Composite { .. } => {},
        }
        assert(self@.actions =~= before.actions.update(
            i as int,
            (before.actions[i as int].0, with_input(before.actions[i as int].1, input@)),
        ));
    }

    /// Exchanges the inputs of forward and back.
    fn swap_direction_inputs(&mut self)
        ensures
            final(self)@ == (ControllerModel { actions: swap_inputs(old(self)@.actions, "forward"@, "back"@), ..old(self)@ }),
    {
        let ghost c = self@;
        proof {
            reveal_strlit("forward");
            reveal_strlit("back");
            assert("forward"@.len() != "back"@.len());
            lemma_key_index(c.actions, "forward"@);
            lemma_key_index(c.actions, "back"@);
        }
        let f = self.find_action("forward");
        let b = self.find_action("back");
        match (f, b) {
            (Some(i), Some(j)) => {
                assert(i != j);
                let x = self.input_at(i);
                let y = self.input_at(j);
                match (x, y) {
                    (Some(x), Some(y)) => {
                        self.set_input_at(i, y);
                        self.set_input_at(j, x);
                        assert(self@.actions =~= swap_inputs(c.actions, "forward"@, "back"@));
                    },
                    _ => {},
                }
            },
            _ => {},
        }
    }

    /// Exchanges the opposite inputs recorded for forward and back.
    fn swap_direction_opposites(&mut self)
        ensures
            final(self)@ == (ControllerModel { opposites: swap_opposites(old(self)@.opposites, "forward"@, "back"@), ..old(self)@ }),
    {
        let ghost c = self@;
        let ghost o = kv(self.opposites@);
        proof {
            reveal_strlit("forward");
            reveal_strlit("back");
            assert("forward"@.len() != "back"@.len());
            crate::keyed::lemma_key_index_same_names(o, c.opposites, "forward"@);
            crate::keyed::lemma_key_index_same_names(o, c.opposites, "back"@);
            lemma_key_index(o, "forward"@);
            lemma_key_index(o, "back"@);
        }
        let f = find_key(&self.opposites, "forward");
        let b = find_key(&self.opposites, "back");
        match (f, b) {
            (Some(i), Some(j)) => {
                assert(i != j);
                let xi = copy_string(&self.opposites[i].1.1);
                let xj = copy_string(&self.opposites[j].1.1);
                let ki = copy_string(&self.opposites[i].0);
                let oi = copy_string(&self.opposites[i].1.0);
                let kj = copy_string(&self.opposites[j].0);
                let oj = copy_string(&self.opposites[j].1.0);
                self.opposites.set(i, (ki, (oi, xj)));
                self.opposites.set(j, (kj, (oj, xi)));
                assert(self@.opposites =~= swap_opposites(c.opposites, "forward"@, "back"@));
            },
            _ => {},
        }
    }
}


/// The dependency `d` was pressed, as last recorded.
pub open spec fn dep_pressed(deps: Seq<(Seq<char>, bool)>, d: Seq<char>) -> bool {
    lookup(deps, d) == Some(true)
}

/// How many of `ds` were pressed, as last recorded.
pub open spec fn count_pressed(deps: Seq<(Seq<char>, bool)>, ds: Seq<Seq<char>>) -> nat
    decreases ds.len(),
{
    if ds.len() == 0 {
        0
    } else {
        count_pressed(deps, ds.drop_last()) + if dep_pressed(deps, ds.last()) {
            1nat
        } else {
            0nat
        }
    }
}

/// All of `ds` were pressed, as last recorded.
pub open spec fn all_pressed(deps: Seq<(Seq<char>, bool)>, ds: Seq<Seq<char>>) -> bool {
    forall|j: int| 0 <= j < ds.len() ==> #[trigger] dep_pressed(deps, ds[j])
}

/// The input of the opposite of `name` is pressed.
pub open spec fn opposite_held(
    opposites: Seq<(Seq<char>, (Seq<char>, Seq<char>))>,
    name: Seq<char>,
    inputs: Seq<Seq<char>>,
) -> bool {
    match lookup(opposites, name) {
        Some(o) => inputs.contains(o.1),
        None => false,
    }
}

/// Whether action `a`, named `name`, is pressed on this frame: a composite
/// action by its dependencies (all of them, or more than one); a basic action
/// when its input is pressed, unless it is a movement whose opposite input is
/// pressed too.
pub open spec fn pressed_now(c: ControllerModel, name: Seq<char>, a: ActionModel, inputs: Seq<Seq<char>>) -> bool {
    match a.kind {
        ActionKind::Composite { dependencies, require_all } => if require_all {
            all_pressed(c.dependency_input, dependencies)
        } else {
            count_pressed(c.dependency_input, dependencies) > 1
        },
        ActionKind::Basic { input_action, is_dependency } => inputs.contains(input_action) && !(
        is_movement_name(name) && opposite_held(c.opposites, name, inputs)),
    }
}

/// A charge count kept between 0 and 9999.
pub open spec fn clamp_charge(x: int) -> u32 {
    if x < 0 {
        0
    } else if x > 9999 {
        9999
    } else {
        x as u32
    }
}

/// The charge after a frame: one more while pressed and charging; one less
/// for a ticking charge; otherwise back to zero.
pub open spec fn next_charge(frames: u32, pressed: bool, can_charge: bool, charge_type: u32) -> u32 {
    if pressed && can_charge {
        clamp_charge(frames + 1)
    } else if charge_type == FrameFighter::CHARGE_TICK {
        clamp_charge(frames - 1)
    } else {
        0
    }
}

/// The controller after evaluating the action at position `i`.
pub open spec fn process_step(c: ControllerModel, inputs: Seq<Seq<char>>, i: int) -> ControllerModel {
    let name = c.actions[i].0;
    let a = c.actions[i].1;
    let p = pressed_now(c, name, a, inputs);
    let deps = match a.kind {
        ActionKind::Basic { input_action, is_dependency } => if is_dependency {
            set_existing(c.dependency_input, name, p)
        } else {
            c.dependency_input
        },
        ActionKind::Composite { .. } => c.dependency_input,
    };
    let charge = if a.charge_type != FrameFighter::CHARGE_NONE {
        set_existing(c.charge, name, next_charge(lookup(c.charge, name).unwrap(), p, c.can_charge, a.charge_type))
    } else {
        c.charge
    };
    ControllerModel {
        actions: c.actions.update(i, (name, ActionModel { pressed: p, ..a })),
        dependency_input: deps,
        charge,
        ..c
    }
}

/// The controller after evaluating the first `n` actions in order.
pub open spec fn process_upto(c: ControllerModel, inputs: Seq<Seq<char>>, n: nat) -> ControllerModel
    decreases n,
{
    if n == 0 {
        c
    } else {
        process_step(process_upto(c, inputs, (n - 1) as nat), inputs, n - 1)
    }
}

/// Every action that charges has a charge counter.
pub open spec fn charge_keys_complete(c: ControllerModel) -> bool {
    forall|i: int|
        0 <= i < c.actions.len() && #[trigger] c.actions[i].1.charge_type != FrameFighter::CHARGE_NONE
            ==> has_key(c.charge, c.actions[i].0)
}

/// Two controllers with the same names and charge types of actions and the
/// same names of charge counters.
pub open spec fn same_shape(c: ControllerModel, d: ControllerModel) -> bool {
    &&& c.actions.len() == d.actions.len()
    &&& forall|i: int| 0 <= i < c.actions.len() ==> #[trigger] c.actions[i].0 == d.actions[i].0
        && c.actions[i].1.charge_type == d.actions[i].1.charge_type && c.actions[i].1.kind == d.actions[i].1.kind
    &&& c.charge.len() == d.charge.len()
    &&& forall|j: int| 0 <= j < c.charge.len() ==> #[trigger] c.charge[j].0 == d.charge[j].0
    &&& c.dependency_input.len() == d.dependency_input.len()
    &&& forall|j: int| 0 <= j < c.dependency_input.len() ==> #[trigger] c.dependency_input[j].0 == d.dependency_input[j].0
    &&& c.opposites == d.opposites
    &&& c.can_charge == d.can_charge
    &&& c.side == d.side
}

/// Evaluating actions changes neither names, kinds nor charge types.
pub proof fn lemma_process_shape(c: ControllerModel, inputs: Seq<Seq<char>>, n: nat)
    requires
        n <= c.actions.len(),
    ensures
        same_shape(c, process_upto(c, inputs, n)),
        forall|k: Seq<char>| key_index(process_upto(c, inputs, n).charge, k) == key_index(c.charge, k),
        forall|k: Seq<char>| key_index(process_upto(c, inputs, n).dependency_input, k) == key_index(c.dependency_input, k),
        forall|i: int| n <= i < c.actions.len() ==> #[trigger] process_upto(c, inputs, n).actions[i] == c.actions[i],
    decreases n,
{
    if n > 0 {
        lemma_process_shape(c, inputs, (n - 1) as nat);
        let p = process_upto(c, inputs, (n - 1) as nat);
        let i = n - 1;
        let name = p.actions[i].0;
        let q = process_step(p, inputs, i);
        assert(q == process_upto(c, inputs, n));
        assert(q.actions.len() == p.actions.len());
        assert forall|k: int| 0 <= k < p.actions.len() implies #[trigger] q.actions[k].0 == p.actions[k].0
            && q.actions[k].1.charge_type == p.actions[k].1.charge_type && q.actions[k].1.kind == p.actions[k].1.kind by {
        }
        lemma_set_existing_names(p.dependency_input, name, true);
        lemma_set_existing_names(p.dependency_input, name, false);
        lemma_set_existing_names(p.charge, name, next_charge(lookup(p.charge, name).unwrap(), pressed_now(p, name, p.actions[i].1, inputs), p.can_charge, p.actions[i].1.charge_type));
    }
}

impl ActionController {
    /// Whether `d` was pressed, as last recorded.
    fn dependency_pressed(&self, d: &String) -> (r: bool)
        ensures
            r == dep_pressed(self@.dependency_input, d@),
    {
        match find_key(&self.dependency_input, d.as_str()) {
            Some(j) => self.dependency_input[j].1,
            None => false,
        }
    }

    /// Whether the input of the opposite of `name` is pressed.
    fn opposite_pressed(&self, name: &String, pressed_inputs: &Vec<String>) -> (r: bool)
        ensures
            r == opposite_held(self@.opposites, name@, names(pressed_inputs@)),
    {
        proof {
            crate::keyed::lemma_key_index_same_names(kv(self.opposites@), self@.opposites, name@);
        }
        match find_key(&self.opposites, name.as_str()) {
            Some(j) => contains_name(pressed_inputs, self.opposites[j].1.1.as_str()),
            None => false,
        }
    }

    /// Whether `action`, named `name`, is pressed on this frame.
    fn evaluate(&self, name: &String, action: &Action, pressed_inputs: &Vec<String>) -> (r: bool)
        ensures
            r == pressed_now(self@, name@, action@, names(pressed_inputs@)),
    {
        match &action.action_type {
            ActionType::Composite { dependencies, require_all } => {
                let ghost ds = names(dependencies@);
                if *require_all {
                    let mut j: usize = 0;
                    while j < dependencies.len()
                        invariant
                            j <= dependencies.len(),
                            ds == names(dependencies@),
                            action@.kind == (ActionKind::Composite { dependencies: ds, require_all: true }),
                            forall|k: int| 0 <= k < j ==> #[trigger] dep_pressed(self@.dependency_input, ds[k]),
                        decreases dependencies.len() - j,
                    {
                        if !self.dependency_pressed(&dependencies[j]) {
                            assert(ds[j as int] == dependencies@[j as int]@);
                            assert(!dep_pressed(self@.dependency_input, ds[j as int]));
                            assert(!all_pressed(self@.dependency_input, ds));
                            return false;
                        }
                        j += 1;
                    }
                    true
                } else {
                    let mut count: usize = 0;
                    let mut j: usize = 0;
                    while j < dependencies.len()
                        invariant
                            j <= dependencies.len(),
                            count <= j,
                            ds == names(dependencies@),
                            count == count_pressed(self@.dependency_input, ds.take(j as int)),
                        decreases dependencies.len() - j,
                    {
                        assert(ds.take(j + 1).drop_last() =~= ds.take(j as int));
                        if self.dependency_pressed(&dependencies[j]) {
                            count += 1;
                        }
                        j += 1;
                    }
                    assert(ds.take(j as int) =~= ds);
                    count > 1
                }
            },
            ActionType::Basic { input_action, is_dependency } => {
                contains_name(pressed_inputs, input_action.as_str()) && !(FrameFighter::is_movement(name.as_str())
                    && self.opposite_pressed(name, pressed_inputs))
            },
        }
    }

    /// Whether every action that charges has a charge counter.
    pub fn has_charge_keys(&self) -> (r: bool)
        ensures
            r == charge_keys_complete(self@),
    {
        let n = actions_len(&self.actions);
        let mut i: usize = 0;
        while i < n
            invariant
                i <= n,
                n == self@.actions.len(),
                forall|k: int|
                    0 <= k < i && #[trigger] self@.actions[k].1.charge_type != FrameFighter::CHARGE_NONE
                        ==> has_key(self@.charge, self@.actions[k].0),
            decreases n - i,
        {
            let (name, action) = actions_get(&self.actions, i);
            if action.charge_type != FrameFighter::CHARGE_NONE {
                if find_key(&self.charge, name.as_str()).is_none() {
                    assert(self@.actions[i as int].1.charge_type != FrameFighter::CHARGE_NONE);
                    assert(!has_key(self@.charge, self@.actions[i as int].0));
                    return false;
                }
            }
            i += 1;
        }
        true
    }

    /// Evaluates every action, in order, for a frame on which the inputs
    /// named in `pressed_inputs` are pressed.
    pub fn process_current_frame(&mut self, pressed_inputs: &Vec<String>)
        requires
            charge_keys_complete(old(self)@),
        ensures
            final(self)@ == process_upto(old(self)@, names(pressed_inputs@), old(self)@.actions.len()),
    {
        let ghost c0 = self@;
        let ghost inputs = names(pressed_inputs@);
        let n = actions_len(&self.actions);
        let mut i: usize = 0;
        while i < n
            invariant
                i <= n,
                n == c0.actions.len(),
                charge_keys_complete(c0),
                inputs == names(pressed_inputs@),
                self@ == process_upto(c0, inputs, i as nat),
            decreases n - i,
        {
            proof {
                lemma_process_shape(c0, inputs, i as nat);
            }
            let ghost c = self@;
            let (name_ref, action_ref) = actions_get(&self.actions, i);
            let name = copy_string(name_ref);
            let pressed = self.evaluate(&name, action_ref, pressed_inputs);
            let charge_type = action_ref.charge_type;
            let dependency = match &action_ref.action_type {
                ActionType::Basic { input_action, is_dependency } => *is_dependency,
                ActionType::Composite { .. } => false,
            };
            let ghost entries = action_entries(self.actions);
            let a = actions_value_mut(&mut self.actions, i);
            a.pressed = pressed;
            proof {
                assert(amodels(action_entries(self.actions)) =~= c.actions.update(
                    i as int,
                    (name@, ActionModel { pressed, ..c.actions[i as int].1 }),
                ));
            }
            if dependency {
                match find_key(&self.dependency_input, name.as_str()) {
                    Some(j) => {
                        let ghost before = self.dependency_input@;
                        let key = copy_string(&self.dependency_input[j].0);
                        self.dependency_input.set(j, (key, pressed));
                        assert(kv(self.dependency_input@) =~= set_existing(kv(before), name@, pressed));
                    },
                    None => {},
                }
            }
            if charge_type != FrameFighter::CHARGE_NONE {
                match find_key(&self.charge, name.as_str()) {
                    Some(j) => {
                        let ghost before = self.charge@;
                        let frames = self.charge[j].1;
                        let next: u32 = if pressed && self.can_charge {
                            if frames >= 9999 {
                                9999
                            } else {
                                frames + 1
                            }
                        } else if charge_type == FrameFighter::CHARGE_TICK {
                            if frames == 0 {
                                0
                            } else if frames - 1 > 9999 {
                                9999
                            } else {
                                frames - 1
                            }
                        } else {
                            0
                        };
                        let key = copy_string(&self.charge[j].0);
                        self.charge.set(j, (key, next));
                        assert(kv(self.charge@) =~= set_existing(kv(before), name@, next));
                    },
                    None => {
                        assert(has_key(c0.charge, c0.actions[i as int].0));
                    },
                }
            }
            i += 1;
        }
    }
}


/// The last pressed movement action, or "neutral" when none is pressed.
pub open spec fn pressed_movement(s: Seq<(Seq<char>, ActionModel)>) -> Seq<char>
    decreases s.len(),
{
    if s.len() == 0 {
        "neutral"@
    } else if s.last().1.pressed && is_movement_name(s.last().0) {
        s.last().0
    } else {
        pressed_movement(s.drop_last())
    }
}

/// The pressed basic actions that are not movements, in order.
pub open spec fn pressed_basics(s: Seq<(Seq<char>, ActionModel)>) -> Seq<Seq<char>>
    decreases s.len(),
{
    if s.len() == 0 {
        Seq::empty()
    } else if s.last().1.pressed && !is_movement_name(s.last().0) && s.last().1.kind is Basic {
        pressed_basics(s.drop_last()).push(s.last().0)
    } else {
        pressed_basics(s.drop_last())
    }
}

/// The pressed composite actions that are not movements, in order.
pub open spec fn pressed_composites(s: Seq<(Seq<char>, ActionModel)>) -> Seq<Seq<char>>
    decreases s.len(),
{
    if s.len() == 0 {
        Seq::empty()
    } else if s.last().1.pressed && !is_movement_name(s.last().0) && s.last().1.kind is Composite {
        pressed_composites(s.drop_last()).push(s.last().0)
    } else {
        pressed_composites(s.drop_last())
    }
}

/// The state of the input that the controller reports for a frame.
pub open spec fn frame_of(c: ControllerModel) -> FrameModel {
    FrameModel {
        movement: pressed_movement(c.actions),
        basic_actions: pressed_basics(c.actions),
        composite_actions: pressed_composites(c.actions),
        all: signature(pressed_movement(c.actions), pressed_basics(c.actions), pressed_composites(c.actions)),
        charge: c.charge,
    }
}

/// A charge counter at zero for every action that charges, in order.
pub open spec fn charge_map_of(s: Seq<(Seq<char>, ActionModel)>) -> Seq<(Seq<char>, u32)>
    decreases s.len(),
{
    if s.len() == 0 {
        Seq::empty()
    } else if s.last().1.charge_type != FrameFighter::CHARGE_NONE {
        insert_key(charge_map_of(s.drop_last()), s.last().0, 0)
    } else {
        charge_map_of(s.drop_last())
    }
}

/// `m` with every name of `ds` recorded as not pressed.
pub open spec fn with_released(m: Seq<(Seq<char>, bool)>, ds: Seq<Seq<char>>) -> Seq<(Seq<char>, bool)>
    decreases ds.len(),
{
    if ds.len() == 0 {
        m
    } else {
        insert_key(with_released(m, ds.drop_last()), ds.last(), false)
    }
}

/// Every dependency of a composite action, recorded as not pressed.
pub open spec fn dependency_map_of(s: Seq<(Seq<char>, ActionModel)>) -> Seq<(Seq<char>, bool)>
    decreases s.len(),
{
    if s.len() == 0 {
        Seq::empty()
    } else {
        match s.last().1.kind {
            ActionKind::Composite { dependencies, require_all } => with_released(dependency_map_of(s.drop_last()), dependencies),
            ActionKind::Basic { .. } => dependency_map_of(s.drop_last()),
        }
    }
}

/// The controller with its charge counters rebuilt.
pub open spec fn with_charge_map(c: ControllerModel) -> ControllerModel {
    ControllerModel { charge: charge_map_of(c.actions), ..c }
}

/// The controller with its record of dependencies rebuilt and the basic
/// actions that composite actions depend on marked.
pub open spec fn with_dependencies(c: ControllerModel) -> ControllerModel {
    ControllerModel {
        dependency_input: dependency_map_of(c.actions),
        actions: c.actions.map_values(
            |e: (Seq<char>, ActionModel)| (e.0, marked(e.0, e.1, dependency_map_of(c.actions))),
        ),
        ..c
    }
}

/// A basic action named in `deps` marked as a dependency.
pub open spec fn marked(name: Seq<char>, a: ActionModel, deps: Seq<(Seq<char>, bool)>) -> ActionModel {
    match a.kind {
        ActionKind::Basic { input_action, is_dependency } => if has_key(deps, name) {
            ActionModel { kind: ActionKind::Basic { input_action, is_dependency: true }, ..a }
        } else {
            a
        },
        ActionKind::Composite { .. } => a,
    }
}

/// The inputs of the basic actions, in order.
pub open spec fn basic_inputs(s: Seq<(Seq<char>, ActionModel)>) -> Seq<Seq<char>>
    decreases s.len(),
{
    if s.len() == 0 {
        Seq::empty()
    } else {
        match s.last().1.kind {
            ActionKind::Basic { input_action, is_dependency } => basic_inputs(s.drop_last()).push(input_action),
            ActionKind::Composite { .. } => basic_inputs(s.drop_last()),
        }
    }
}

/// The inputs of the opposites, in order.
pub open spec fn opposite_inputs(o: Seq<(Seq<char>, (Seq<char>, Seq<char>))>) -> Seq<Seq<char>> {
    o.map_values(|e: (Seq<char>, (Seq<char>, Seq<char>))| e.1.1)
}

/// The inputs that a frame's evaluation reads: those of the basic actions,
/// then those of the opposites.
pub open spec fn polled_inputs(c: ControllerModel) -> Seq<Seq<char>> {
    basic_inputs(c.actions) + opposite_inputs(c.opposites)
}

impl ActionController {
    /// The state of the input on this frame: the last pressed movement, the
    /// pressed basic and composite actions, and the charge counters.
    pub fn frame_input_state(&self) -> (r: FrameInputState)
        ensures
            r@ == frame_of(self@),
    {
        let ghost s = self@.actions;
        let n = actions_len(&self.actions);
        let mut movement = "neutral".to_owned();
        let mut basic: Vec<String> = Vec::new();
        let mut composite: Vec<String> = Vec::new();
        let mut i: usize = 0;
        while i < n
            invariant
                i <= n,
                n == s.len(),
                s == self@.actions,
                movement@ == pressed_movement(s.take(i as int)),
                names(basic@) == pressed_basics(s.take(i as int)),
                names(composite@) == pressed_composites(s.take(i as int)),
            decreases n - i,
        {
            assert(s.take(i + 1).drop_last() =~= s.take(i as int));
            assert(s.take(i + 1).last() == s[i as int]);
            let (name, action) = actions_get(&self.actions, i);
            if action.pressed {
                if FrameFighter::is_movement(name.as_str()) {
                    movement = copy_string(name);
                } else {
                    match &action.action_type {
                        ActionType::Composite { .. } => {
                            let ghost before = composite@;
                            composite.push(copy_string(name));
                            assert(names(composite@) =~= names(before).push(name@));
                        },
                        ActionType::Basic { .. } => {
                            let ghost before = basic@;
                            basic.push(copy_string(name));
                            assert(names(basic@) =~= names(before).push(name@));
                        },
                    }
                }
            }
            i += 1;
        }
        assert(s.take(n as int) =~= s);
        FrameInputState::new(movement, basic, composite, copy_pairs(&self.charge))
    }

    /// Rebuilds the charge counters: one at zero for every action that charges.
    pub fn build_charge_map(&mut self)
        ensures
            final(self)@ == with_charge_map(old(self)@),
    {
        let ghost s = self@.actions;
        let n = actions_len(&self.actions);
        let mut charge: Vec<(String, u32)> = Vec::new();
        let mut i: usize = 0;
        while i < n
            invariant
                i <= n,
                n == s.len(),
                s == self@.actions,
                kv(charge@) == charge_map_of(s.take(i as int)),
            decreases n - i,
        {
            assert(s.take(i + 1).drop_last() =~= s.take(i as int));
            let (name, action) = actions_get(&self.actions, i);
            if action.charge_type != FrameFighter::CHARGE_NONE {
                insert_pair(&mut charge, copy_string(name), 0);
            }
            i += 1;
        }
        assert(s.take(n as int) =~= s);
        self.charge = charge;
    }

    /// Rebuilds the record of dependencies and marks every basic action that
    /// a composite action depends on.
    pub fn build_dependency_map(&mut self)
        ensures
            final(self)@ == with_dependencies(old(self)@),
    {
        let ghost s = self@.actions;
        let n = actions_len(&self.actions);
        let mut deps: Vec<(String, bool)> = Vec::new();
        let mut i: usize = 0;
        while i < n
            invariant
                i <= n,
                n == s.len(),
                s == self@.actions,
                kv(deps@) == dependency_map_of(s.take(i as int)),
            decreases n - i,
        {
            assert(s.take(i + 1).drop_last() =~= s.take(i as int));
            let (name, action) = actions_get(&self.actions, i);
            match &action.action_type {
                ActionType::Composite { dependencies, require_all } => {
                    let ghost base = kv(deps@);
                    let ghost ds = names(dependencies@);
                    let mut j: usize = 0;
                    while j < dependencies.len()
                        invariant
                            j <= dependencies.len(),
                            ds == names(dependencies@),
                            kv(deps@) == with_released(base, ds.take(j as int)),
                        decreases dependencies.len() - j,
                    {
                        assert(ds.take(j + 1).drop_last() =~= ds.take(j as int));
                        insert_pair(&mut deps, copy_string(&dependencies[j]), false);
                        j += 1;
                    }
                    assert(ds.take(j as int) =~= ds);
                },
                ActionType::Basic { .. } => {},
            }
            i += 1;
        }
        assert(s.take(n as int) =~= s);
        self.dependency_input = deps;
        let ghost d = kv(self.dependency_input@);
        let ghost c0 = self@;
        let mut i: usize = 0;
        while i < n
            invariant
                i <= n,
                n == s.len(),
                d == kv(self.dependency_input@),
                self@.charge == c0.charge,
                self@.opposites == c0.opposites,
                self@.can_charge == c0.can_charge,
                self@.side == c0.side,
                self@.actions.len() == s.len(),
                forall|k: int| 0 <= k < i ==> #[trigger] self@.actions[k] == (s[k].0, marked(s[k].0, s[k].1, d)),
                forall|k: int| i <= k < n ==> #[trigger] self@.actions[k] == s[k],
            decreases n - i,
        {
            let (name, action) = actions_get(&self.actions, i);
            let is_basic = match &action.action_type {
                ActionType::Basic { .. } => true,
                ActionType::Composite { .. } => false,
            };
            assert(self@.actions[i as int] == s[i as int]);
            assert(name@ == s[i as int].0);
            let found = find_key(&self.dependency_input, name.as_str());
            if is_basic && found.is_some() {
                let ghost before = self@.actions;
                let ghost e = action_entries(self.actions);
                assert(has_key(d, s[i as int].0));
                let a = actions_value_mut(&mut self.actions, i);
                match &mut a.action_type {
                    ActionType::Basic { input_action, is_dependency } => {
                        *is_dependency = true;
                    },
                    ActionType::Composite { .. } => {},
                }
                assert(a@ == marked(s[i as int].0, s[i as int].1, d));
                assert(self@.actions =~= before.update(i as int, (s[i as int].0, marked(s[i as int].0, s[i as int].1, d))));
            }
            i += 1;
        }
        assert(self@.actions =~= s.map_values(|e: (Seq<char>, ActionModel)| (e.0, marked(e.0, e.1, d))));
    }

    /// The inputs that evaluating a frame reads.
    pub fn input_actions(&self) -> (r: Vec<String>)
        ensures
            names(r@) == polled_inputs(self@),
    {
        let ghost s = self@.actions;
        let n = actions_len(&self.actions);
        let mut r: Vec<String> = Vec::new();
        let mut i: usize = 0;
        while i < n
            invariant
                i <= n,
                n == s.len(),
                s == self@.actions,
                names(r@) == basic_inputs(s.take(i as int)),
            decreases n - i,
        {
            assert(s.take(i + 1).drop_last() =~= s.take(i as int));
            let (name, action) = actions_get(&self.actions, i);
            match &action.action_type {
                ActionType::Basic { input_action, is_dependency } => {
                    let ghost before = r@;
                    r.push(copy_string(input_action));
                    assert(names(r@) =~= names(before).push(input_action@));
                },
                ActionType::Composite { .. } => {},
            }
            i += 1;
        }
        assert(s.take(n as int) =~= s);
        let ghost first = names(r@);
        let ghost o = self@.opposites;
        let mut j: usize = 0;
        while j < self.opposites.len()
            invariant
                j <= self.opposites.len(),
                o == self@.opposites,
                names(r@) == first + opposite_inputs(o.take(j as int)),
            decreases self.opposites.len() - j,
        {
            let ghost before = r@;
            r.push(copy_string(&self.opposites[j].1.1));
            assert(o[j as int].1.1 == self.opposites@[j as int].1.1@);
            assert(opposite_inputs(o.take(j + 1)) =~= opposite_inputs(o.take(j as int)).push(o[j as int].1.1));
            assert(names(r@) =~= names(before).push(self.opposites@[j as int].1.1@));
            assert(names(r@) =~= first + opposite_inputs(o.take(j + 1)));
            j += 1;
        }
        assert(o.take(j as int) =~= o);
        r
    }
}

impl Default for ActionController {
    /// The same as `new`.
    fn default() -> (r: Self)
        ensures
            r@.side == FrameFighter::PLAYER_ONE,
            !r@.can_charge,
            r@.actions.len() == 0,
            r@.charge.len() == 0,
            r@.opposites.len() == 0,
            r@.dependency_input.len() == 0,
    {
        ActionController::new()
    }
}

} // verus!
