//! The evaluated input of one frame.

use vstd::prelude::*;
use vstd::string::StringExecFns;
use crate::keyed::kv;
use crate::text::{names, copy_string};

verus! {

/// Names joined with commas between them.
pub open spec fn join_names(s: Seq<Seq<char>>) -> Seq<char>
    decreases s.len(),
{
    if s.len() == 0 {
        Seq::empty()
    } else if s.len() == 1 {
        s[0]
    } else {
        join_names(s.drop_last()) + seq![','] + s.last()
    }
}

/// The signature of a frame's input: the movement, then the basic actions,
/// then the composite actions, joined with commas.
pub open spec fn signature(movement: Seq<char>, basic: Seq<Seq<char>>, composite: Seq<Seq<char>>) -> Seq<char> {
    join_names(seq![movement] + basic + composite)
}

/// The state of the input on one frame.
pub struct FrameInputState {
    pub movement: String,
    pub basic_actions: Vec<String>,
    pub composite_actions: Vec<String>,
    pub all: String,
    pub charge: Vec<(String, u32)>,
}

/// What a `FrameInputState` holds, as plain values.
pub struct FrameModel {
    pub movement: Seq<char>,
    pub basic_actions: Seq<Seq<char>>,
    pub composite_actions: Seq<Seq<char>>,
    pub all: Seq<char>,
    pub charge: Seq<(Seq<char>, u32)>,
}

impl View for FrameInputState {
    type V = FrameModel;

    open spec fn view(&self) -> FrameModel {
        FrameModel {
            movement: self.movement@,
            basic_actions: names(self.basic_actions@),
            composite_actions: names(self.composite_actions@),
            all: self.all@,
            charge: kv(self.charge@),
        }
    }
}

/// Appends `name` to a comma-separated list that is not empty.
fn append_name(all: &mut String, name: &String, ghost_parts: Ghost<Seq<Seq<char>>>)
    requires
        ghost_parts@.len() > 0,
        old(all)@ == join_names(ghost_parts@),
    ensures
        final(all)@ == join_names(ghost_parts@.push(name@)),
{
    proof {
        reveal_strlit(",");
    }
    all.append(",");
    all.append(name.as_str());
    assert(ghost_parts@.push(name@).drop_last() =~= ghost_parts@);
}

impl FrameInputState {
    /// The state of a frame; its signature is computed from the names.
    pub fn new(
        movement: String,
        basic_actions: Vec<String>,
        composite_actions: Vec<String>,
        charge: Vec<(String, u32)>,
    ) -> (r: Self)
        ensures
            r.movement == movement,
            r.basic_actions == basic_actions,
            r.composite_actions == composite_actions,
            r.charge == charge,
            r.all@ == signature(movement@, names(basic_actions@), names(composite_actions@)),
    {
        let mut all = copy_string(&movement);
        let ghost m = movement@;
        let ghost b = names(basic_actions@);
        let ghost c = names(composite_actions@);
        assert(join_names(seq![m]) == m);
        let mut i: usize = 0;
        while i < basic_actions.len()
            invariant
                i <= basic_actions.len(),
                b == names(basic_actions@),
                all@ == join_names(seq![m] + b.take(i as int)),
            decreases basic_actions.len() - i,
        {
            proof {
                assert(b[i as int] == basic_actions@[i as int]@);
                assert((seq![m] + b.take(i as int)).push(b[i as int]) =~= seq![m] + b.take(i + 1));
            }
            append_name(&mut all, &basic_actions[i], Ghost(seq![m] + b.take(i as int)));
            i += 1;
        }
        assert(b.take(i as int) =~= b);
        let mut j: usize = 0;
        while j < composite_actions.len()
            invariant
                j <= composite_actions.len(),
                c == names(composite_actions@),
                all@ == join_names(seq![m] + b + c.take(j as int)),
            decreases composite_actions.len() - j,
        {
            proof {
                assert(c[j as int] == composite_actions@[j as int]@);
                assert((seq![m] + b + c.take(j as int)).push(c[j as int]) =~= seq![m] + b + c.take(j + 1));
            }
            append_name(&mut all, &composite_actions[j], Ghost(seq![m] + b + c.take(j as int)));
            j += 1;
        }
        assert(c.take(j as int) =~= c);
        FrameInputState { movement, basic_actions, composite_actions, all, charge }
    }
}

} // verus!
