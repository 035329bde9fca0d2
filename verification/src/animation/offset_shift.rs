//! Shifting an offset in one of four directions.
use vstd::prelude::*;
use crate::script::text::same_text;

verus! {

/// A direction of an offset shift (terminal coordinates: `y` grows
/// downwards).
#[derive(Clone, Copy, Debug, PartialEq, Eq, Structural)]
pub enum ShiftDirection {
    Up,
    Down,
    Left,
    Right,
}

/// The offset `begin` moved by `d` towards `dir`.
pub open spec fn shifted(dir: ShiftDirection, begin: (i32, i32), d: int) -> (int, int) {
    match dir {
        ShiftDirection::Up => (begin.0 as int, begin.1 - d),
        ShiftDirection::Down => (begin.0 as int, begin.1 + d),
        ShiftDirection::Left => (begin.0 - d, begin.1 as int),
        ShiftDirection::Right => (begin.0 + d, begin.1 as int),
    }
}

/// The name of a direction: that of its variant.
pub open spec fn direction_name(d: ShiftDirection) -> Seq<char> {
    match d {
        ShiftDirection::Up => "Up"@,
        ShiftDirection::Down => "Down"@,
        ShiftDirection::Left => "Left"@,
        ShiftDirection::Right => "Right"@,
    }
}

impl ShiftDirection {
    /// The name of the direction.
    pub fn name(&self) -> (r: &'static str)
        ensures
            r@ == direction_name(*self),
    {
        match self {
            ShiftDirection::Up => "Up",
            ShiftDirection::Down => "Down",
            ShiftDirection::Left => "Left",
            ShiftDirection::Right => "Right",
        }
    }

    /// The direction named `name` (exactly as its variant), if any.
    pub fn from_name(name: &str) -> (r: Option<ShiftDirection>)
        ensures
            match r {
                Some(d) => direction_name(d) == name@,
                None => forall|d: ShiftDirection| direction_name(d) != name@,
            },
    {
        proof {
            reveal_strlit("Up");
            reveal_strlit("Down");
            reveal_strlit("Left");
            reveal_strlit("Right");
        }
        if same_text(name, "Up") {
            Some(ShiftDirection::Up)
        } else if same_text(name, "Down") {
            Some(ShiftDirection::Down)
        } else if same_text(name, "Left") {
            Some(ShiftDirection::Left)
        } else if same_text(name, "Right") {
            Some(ShiftDirection::Right)
        } else {
            None
        }
    }

    /// The offset `begin` moved by `distance` (taken as an `i32`, that is,
    /// its low 32 bits) towards this direction.
    pub fn apply(&self, begin: (i32, i32), distance: i64) -> (r: (i32, i32))
        requires
            i32::MIN <= shifted(*self, begin, (distance as i32) as int).0 <= i32::MAX,
            i32::MIN <= shifted(*self, begin, (distance as i32) as int).1 <= i32::MAX,
        ensures
            r.0 == shifted(*self, begin, (distance as i32) as int).0,
            r.1 == shifted(*self, begin, (distance as i32) as int).1,
    {
        let d = distance as i32;
        match self {
            ShiftDirection::Up => (begin.0, begin.1 - d),
            ShiftDirection::Down => (begin.0, begin.1 + d),
            ShiftDirection::Left => (begin.0 - d, begin.1),
            ShiftDirection::Right => (begin.0 + d, begin.1),
        }
    }
}


/// A shift back undoes a shift: moving an offset by `d` one way and then
/// the other way returns to the start.
pub proof fn shift_back_returns(dir: ShiftDirection, begin: (i32, i32), d: int)
    requires
        i32::MIN <= shifted(dir, begin, d).0 <= i32::MAX,
        i32::MIN <= shifted(dir, begin, d).1 <= i32::MAX,
    ensures
        ({
            let m = shifted(dir, begin, d);
            let back = match dir {
                ShiftDirection::Up => ShiftDirection::Down,
                ShiftDirection::Down => ShiftDirection::Up,
                ShiftDirection::Left => ShiftDirection::Right,
                ShiftDirection::Right => ShiftDirection::Left,
            };
            shifted(back, (m.0 as i32, m.1 as i32), d) == (begin.0 as int, begin.1 as int)
        }),
{
}

} // verus!
