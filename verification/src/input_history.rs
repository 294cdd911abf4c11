//! The input history: the most recent sets of inputs, newest first.

use vstd::prelude::*;
use crate::text::{copy_string, copy_names, copy_pairs};
use crate::fighter_history::FighterHistoryItem;
use crate::models::frame_input_state::{FrameInputState, FrameModel};
use crate::models::history_item::{HistoryItem, HistoryModel, hviews};

verus! {

/// The frame count of an entry held for one more frame, capped at `max_frames`.
pub open spec fn next_frames(frames: u32, max_frames: u32) -> u32 {
    if frames + 1 <= max_frames {
        (frames + 1) as u32
    } else {
        max_frames
    }
}

/// An entry held for one more frame, with the charge of the current frame.
pub open spec fn held_again(h: HistoryModel, max_frames: u32, charge: Seq<(Seq<char>, u32)>) -> HistoryModel {
    HistoryModel {
        frames: next_frames(h.frames, max_frames),
        movement: h.movement,
        basic_actions: h.basic_actions,
        composite_actions: h.composite_actions,
        charge,
        all: h.all,
    }
}

/// The new entry for the input of a frame, held for one frame.
pub open spec fn entry_for(st: FrameModel) -> HistoryModel {
    HistoryModel {
        frames: 1,
        movement: st.movement,
        basic_actions: st.basic_actions,
        composite_actions: st.composite_actions,
        charge: st.charge,
        all: st.all,
    }
}

/// At most the first `n` elements of `s`.
pub open spec fn keep_first<T>(s: Seq<T>, n: usize) -> Seq<T> {
    if s.len() > n {
        s.take(n as int)
    } else {
        s
    }
}

/// Whether the newest entry has the same signature as the frame.
pub open spec fn same_as_newest(entries: Seq<HistoryModel>, st: FrameModel) -> bool {
    entries.len() > 0 && entries[0].all == st.all
}

/// The history after a frame: the newest entry is held again when the frame
/// has its signature; otherwise the frame becomes the newest entry and the
/// history keeps at most `size` entries.
pub open spec fn history_after(entries: Seq<HistoryModel>, size: usize, max_frames: u32, st: FrameModel) -> Seq<HistoryModel> {
    if same_as_newest(entries, st) {
        entries.update(0, held_again(entries[0], max_frames, st.charge))
    } else {
        keep_first(seq![entry_for(st)].add(entries), size)
    }
}

/// The new entry for a frame's input.
pub fn entry_from_state(state: &FrameInputState) -> (r: HistoryItem)
    ensures
        r@ == entry_for(state@),
{
    HistoryItem::new(
        copy_string(&state.movement),
        copy_names(&state.basic_actions),
        copy_names(&state.composite_actions),
        copy_string(&state.all),
        copy_pairs(&state.charge),
    )
}

/// Holds the first entry of `entries` for one more frame.
pub fn hold_newest(entries: &mut Vec<HistoryItem>, max_frames: u32, state: &FrameInputState)
    requires
        old(entries).len() > 0,
        old(entries)@[0].frames < u32::MAX,
    ensures
        hviews(final(entries)@) == hviews(old(entries)@).update(
            0,
            held_again(old(entries)@[0]@, max_frames, state@.charge),
        ),
{
    let ghost before = hviews(entries@);
    let mut first = entries.remove(0);
    first.frames = if first.frames + 1 <= max_frames {
        first.frames + 1
    } else {
        max_frames
    };
    first.charge = copy_pairs(&state.charge);
    entries.insert(0, first);
    assert(hviews(entries@) =~= before.update(0, held_again(before[0], max_frames, state@.charge)));
}

/// The most recent sets of inputs, newest first.
pub struct InputHistory {
    pub size: usize,
    pub max_frames: u32,
    pub entries: Vec<HistoryItem>,
}

impl InputHistory {
    /// An empty history of 20 entries at most, counting up to 99 frames.
    pub fn new() -> (r: Self)
        ensures
            r.size == 20,
            r.max_frames == 99,
            r.entries@.len() == 0,
    {
        InputHistory { size: 20, max_frames: 99, entries: Vec::new() }
    }

    /// Sets the number of frames an entry counts up to.
    pub fn set_max_frames(&mut self, max_frames: u32)
        ensures
            final(self).max_frames == max_frames,
            final(self).size == old(self).size,
            final(self).entries == old(self).entries,
    {
        self.max_frames = max_frames;
    }

    /// Sets the number of entries the history keeps.
    pub fn set_size(&mut self, size: usize)
        ensures
            final(self).size == size,
            final(self).max_frames == old(self).max_frames,
            final(self).entries == old(self).entries,
    {
        self.size = size;
    }

    /// Whether recording `state` stays free of overflow: the newest entry is
    /// below the largest frame count when it would be held again.
    pub fn can_add(&self, state: &FrameInputState) -> (r: bool)
        ensures
            r == (same_as_newest(hviews(self.entries@), state@) ==> self.entries@[0].frames < u32::MAX),
    {
        if self.entries.len() > 0 && self.entries[0].all == state.all {
            self.entries[0].frames < u32::MAX
        } else {
            true
        }
    }

    /// Records the input of a frame.
    pub fn add(&mut self, state: &FrameInputState)
        requires
            same_as_newest(hviews(old(self).entries@), state@) ==> old(self).entries@[0].frames < u32::MAX,
        ensures
            final(self).size == old(self).size,
            final(self).max_frames == old(self).max_frames,
            hviews(final(self).entries@) == history_after(
                hviews(old(self).entries@),
                old(self).size,
                old(self).max_frames,
                state@,
            ),
    {
        if self.entries.len() > 0 && self.entries[0].all == state.all {
            hold_newest(&mut self.entries, self.max_frames, state);
            return;
        }
        let ghost before = hviews(self.entries@);
        self.entries.insert(0, entry_from_state(state));
        assert(hviews(self.entries@) =~= seq![entry_for(state@)].add(before));
        self.entries.truncate(self.size);
        assert(hviews(self.entries@) =~= keep_first(seq![entry_for(state@)].add(before), self.size));
    }

    /// The item for the current frame: the newest entry, or a neutral item
    /// when the history is empty.
    pub fn pressed_actions_for_godot(&self) -> (r: FighterHistoryItem)
        ensures
            self.entries@.len() > 0 ==> r@ == FighterHistoryItem::spec_from(self.entries@[0]@),
            self.entries@.len() == 0 ==> r@ == FighterHistoryItem::default_model(),
    {
        if self.entries.len() > 0 {
            return self.entries[0].to_godot();
        }
        FighterHistoryItem::default()
    }

    /// All entries, newest first, as they are handed to the engine.
    pub fn to_godot(&self) -> (r: Vec<FighterHistoryItem>)
        ensures
            r@.len() == self.entries@.len(),
            forall|i: int| 0 <= i < r@.len() ==> #[trigger] r@[i]@ == FighterHistoryItem::spec_from(self.entries@[i]@),
    {
        let mut r: Vec<FighterHistoryItem> = Vec::new();
        let mut i: usize = 0;
        while i < self.entries.len()
            invariant
                i <= self.entries.len(),
                r@.len() == i,
                forall|j: int| 0 <= j < i ==> #[trigger] r@[j]@ == FighterHistoryItem::spec_from(self.entries@[j]@),
            decreases self.entries.len() - i,
        {
            r.push(self.entries[i].to_godot());
            i += 1;
        }
        r
    }
}

impl Default for InputHistory {
    /// The same as `new`.
    fn default() -> (r: Self)
        ensures
            r.size == 20,
            r.max_frames == 99,
            r.entries@.len() == 0,
    {
        InputHistory::new()
    }
}

} // verus!
