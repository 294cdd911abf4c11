//! An entry of the input history.

use vstd::prelude::*;
use crate::keyed::kv;
use crate::text::{names, copy_string, copy_names, copy_pairs};
use crate::fighter_history::FighterHistoryItem;

verus! {

/// A set of inputs and the number of frames for which it was held.
pub struct HistoryItem {
    pub frames: u32,
    pub movement: String,
    pub basic_actions: Vec<String>,
    pub composite_actions: Vec<String>,
    pub charge: Vec<(String, u32)>,
    pub all: String,
}

/// What a `HistoryItem` holds, as plain values.
pub struct HistoryModel {
    pub frames: u32,
    pub movement: Seq<char>,
    pub basic_actions: Seq<Seq<char>>,
    pub composite_actions: Seq<Seq<char>>,
    pub charge: Seq<(Seq<char>, u32)>,
    pub all: Seq<char>,
}

impl View for HistoryItem {
    type V = HistoryModel;

    open spec fn view(&self) -> HistoryModel {
        HistoryModel {
            frames: self.frames,
            movement: self.movement@,
            basic_actions: names(self.basic_actions@),
            composite_actions: names(self.composite_actions@),
            charge: kv(self.charge@),
            all: self.all@,
        }
    }
}

/// The views of a sequence of history items.
pub open spec fn hviews(s: Seq<HistoryItem>) -> Seq<HistoryModel> {
    s.map_values(|h: HistoryItem| h@)
}

impl HistoryItem {
    /// A new entry, held for one frame.
    pub fn new(
        movement: String,
        basic_actions: Vec<String>,
        composite_actions: Vec<String>,
        all: String,
        charge: Vec<(String, u32)>,
    ) -> (r: Self)
        ensures
            r.frames == 1,
            r.movement == movement,
            r.basic_actions == basic_actions,
            r.composite_actions == composite_actions,
            r.all == all,
            r.charge == charge,
    {
        HistoryItem { frames: 1, movement, basic_actions, composite_actions, charge, all }
    }

    /// A copy of this entry.
    pub fn copy(&self) -> (r: Self)
        ensures
            r@ == self@,
    {
        HistoryItem {
            frames: self.frames,
            movement: copy_string(&self.movement),
            basic_actions: copy_names(&self.basic_actions),
            composite_actions: copy_names(&self.composite_actions),
            charge: copy_pairs(&self.charge),
            all: copy_string(&self.all),
        }
    }

    /// This entry as it is handed to the engine.
    pub fn to_godot(&self) -> (r: FighterHistoryItem)
        ensures
            r@ == FighterHistoryItem::spec_from(self@),
    {
        FighterHistoryItem::new(self)
    }
}

} // verus!
