//! Constants shared by the input processor and the classification of
//! movement actions.

use vstd::prelude::*;
use crate::text::str_eq;

verus! {

/// Holds the constants of the input processor.
pub struct FrameFighter {}

impl FrameFighter {
    /// Player 1 side. The default side; sequences are defined for it.
    pub const PLAYER_ONE: u32 = 1;
    /// Player 2 side. Forward and back are inverted.
    pub const PLAYER_TWO: u32 = 2;

    /// Step modifier: the final input of a sequence may be entered leniently.
    pub const LENIENT_ENDER: u32 = 1;
    /// Step modifier: diagonals are ignored.
    pub const IGNORE_DIAGONAL: u32 = 2;

    /// Charge type: never charged.
    pub const CHARGE_NONE: u32 = 0;
    /// Charge type: increased once per frame while held, reset to zero when released.
    pub const CHARGE_IMMEDIATE: u32 = 1;
    /// Charge type: increased once per frame while held, reduced once per frame when released.
    pub const CHARGE_TICK: u32 = 2;
}

/// The four cardinal directions.
pub open spec fn is_cardinal_name(s: Seq<char>) -> bool {
    s == "up"@ || s == "down"@ || s == "back"@ || s == "forward"@
}

/// The eight movement directions: the cardinals and the diagonals.
pub open spec fn is_movement_name(s: Seq<char>) -> bool {
    is_cardinal_name(s) || s == "up_forward"@ || s == "up_back"@ || s == "down_forward"@
        || s == "down_back"@
}

/// The direction that ends a sequence going from cardinal `a` to diagonal `b`.
pub open spec fn expected_ender_name(a: Seq<char>, b: Seq<char>) -> Seq<char> {
    if a == "down"@ && b == "down_forward"@ {
        "forward"@
    } else if a == "down"@ && b == "down_back"@ {
        "back"@
    } else if a == "up"@ && b == "up_forward"@ {
        "forward"@
    } else if a == "up"@ && b == "up_back"@ {
        "back"@
    } else if a == "forward"@ && b == "down_forward"@ {
        "down"@
    } else if a == "forward"@ && b == "up_forward"@ {
        "up"@
    } else if a == "back"@ && b == "down_back"@ {
        "down"@
    } else if a == "back"@ && b == "up_back"@ {
        "up"@
    } else {
        "neutral"@
    }
}

impl FrameFighter {
    /// Whether `name` is one of the eight movement actions.
    pub fn is_movement(name: &str) -> (r: bool)
        ensures
            r == is_movement_name(name@),
    {
        str_eq(name, "up") || str_eq(name, "down") || str_eq(name, "back") || str_eq(name, "forward")
            || str_eq(name, "up_forward") || str_eq(name, "up_back") || str_eq(name, "down_forward")
            || str_eq(name, "down_back")
    }

    /// Whether `name` is one of the four cardinal directions.
    pub fn is_cardinal(name: &str) -> (r: bool)
        ensures
            r == is_cardinal_name(name@),
    {
        str_eq(name, "up") || str_eq(name, "down") || str_eq(name, "back") || str_eq(name, "forward")
    }

    /// For a transition from a cardinal to a diagonal, the direction expected
    /// to end the sequence; "neutral" for any other pair.
    pub fn expected_ender(dir_a: &str, dir_b: &str) -> (r: String)
        ensures
            r@ == expected_ender_name(dir_a@, dir_b@),
    {
        let s: &str = if str_eq(dir_a, "down") && str_eq(dir_b, "down_forward") {
            "forward"
        } else if str_eq(dir_a, "down") && str_eq(dir_b, "down_back") {
            "back"
        } else if str_eq(dir_a, "up") && str_eq(dir_b, "up_forward") {
            "forward"
        } else if str_eq(dir_a, "up") && str_eq(dir_b, "up_back") {
            "back"
        } else if str_eq(dir_a, "forward") && str_eq(dir_b, "down_forward") {
            "down"
        } else if str_eq(dir_a, "forward") && str_eq(dir_b, "up_forward") {
            "up"
        } else if str_eq(dir_a, "back") && str_eq(dir_b, "down_back") {
            "down"
        } else if str_eq(dir_a, "back") && str_eq(dir_b, "up_back") {
            "up"
        } else {
            "neutral"
        };
        s.to_owned()
    }
}

} // verus!
