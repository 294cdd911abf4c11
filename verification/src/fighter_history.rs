//! The history entry handed to the engine.

use vstd::prelude::*;
use crate::keyed::{kv, lookup, insert_key, insert_pair, find_key, distinct_keys, lemma_insert_distinct};
use crate::text::{names, copy_string, copy_names, contains_name, str_eq};
use crate::models::history_item::{HistoryItem, HistoryModel};

verus! {

/// The counters of `s` gathered into a dictionary: later pairs overwrite
/// earlier ones with the same name.
pub open spec fn dictionary(s: Seq<(Seq<char>, u32)>) -> Seq<(Seq<char>, u32)>
    decreases s.len(),
{
    if s.len() == 0 {
        Seq::empty()
    } else {
        insert_key(dictionary(s.drop_last()), s.last().0, s.last().1)
    }
}

/// The actions and charge of one frame, and how long they were held.
pub struct FighterHistoryItem {
    pub frames: u32,
    pub movement: String,
    pub basic_actions: Vec<String>,
    pub composite_actions: Vec<String>,
    pub charge: Vec<(String, u32)>,
}

/// What a `FighterHistoryItem` holds, as plain values.
pub struct FighterHistoryModel {
    pub frames: u32,
    pub movement: Seq<char>,
    pub basic_actions: Seq<Seq<char>>,
    pub composite_actions: Seq<Seq<char>>,
    pub charge: Seq<(Seq<char>, u32)>,
}

impl View for FighterHistoryItem {
    type V = FighterHistoryModel;

    open spec fn view(&self) -> FighterHistoryModel {
        FighterHistoryModel {
            frames: self.frames,
            movement: self.movement@,
            basic_actions: names(self.basic_actions@),
            composite_actions: names(self.composite_actions@),
            charge: kv(self.charge@),
        }
    }
}

impl FighterHistoryItem {
    /// The item made from a history entry.
    pub open spec fn spec_from(h: HistoryModel) -> FighterHistoryModel {
        FighterHistoryModel {
            frames: h.frames,
            movement: h.movement,
            basic_actions: h.basic_actions,
            composite_actions: h.composite_actions,
            charge: dictionary(h.charge),
        }
    }

    /// The item for a history entry.
    pub fn new(history_item: &HistoryItem) -> (r: Self)
        ensures
            r@ == Self::spec_from(history_item@),
            distinct_keys(r@.charge),
    {
        let mut charge: Vec<(String, u32)> = Vec::new();
        let mut i: usize = 0;
        let ghost src = kv(history_item.charge@);
        while i < history_item.charge.len()
            invariant
                i <= history_item.charge.len(),
                src == kv(history_item.charge@),
                kv(charge@) == dictionary(src.take(i as int)),
                distinct_keys(kv(charge@)),
            decreases history_item.charge.len() - i,
        {
            proof {
                assert(src.take(i + 1).drop_last() =~= src.take(i as int));
                lemma_insert_distinct(kv(charge@), src[i as int].0, src[i as int].1);
            }
            insert_pair(&mut charge, copy_string(&history_item.charge[i].0), history_item.charge[i].1);
            i += 1;
        }
        assert(src.take(i as int) =~= src);
        FighterHistoryItem {
            frames: history_item.frames,
            movement: copy_string(&history_item.movement),
            basic_actions: copy_names(&history_item.basic_actions),
            composite_actions: copy_names(&history_item.composite_actions),
            charge,
        }
    }

    /// The neutral item, held for one frame and holding no action or charge.
    pub open spec fn default_model() -> FighterHistoryModel {
        FighterHistoryModel {
            frames: 1,
            movement: "neutral"@,
            basic_actions: Seq::empty(),
            composite_actions: Seq::empty(),
            charge: Seq::empty(),
        }
    }

    /// Whether `action` is pressed: it is the movement, or a basic or
    /// composite action of this item.
    pub fn is_pressed(&self, action: &str) -> (r: bool)
        ensures
            r == (self@.movement == action@ || self@.basic_actions.contains(action@)
                || self@.composite_actions.contains(action@)),
    {
        str_eq(self.movement.as_str(), action) || contains_name(&self.basic_actions, action)
            || contains_name(&self.composite_actions, action)
    }

    /// The charge of `action`, or 0 when the item holds no charge for it.
    pub fn get_charge_frames(&self, action: &str) -> (r: u32)
        ensures
            r == match lookup(self@.charge, action@) {
                Some(c) => c,
                None => 0,
            },
    {
        match find_key(&self.charge, action) {
            Some(i) => self.charge[i].1,
            None => 0,
        }
    }
}

impl Default for FighterHistoryItem {
    /// The item shown when there is no history: neutral, held for one frame.
    fn default() -> (r: Self)
        ensures
            r@ == Self::default_model(),
    {
        let r = FighterHistoryItem {
            frames: 1,
            movement: "neutral".to_owned(),
            basic_actions: Vec::new(),
            composite_actions: Vec::new(),
            charge: Vec::new(),
        };
        assert(r@.basic_actions =~= Seq::empty());
        assert(r@.composite_actions =~= Seq::empty());
        assert(r@.charge =~= Seq::empty());
        r
    }

}

} // verus!
