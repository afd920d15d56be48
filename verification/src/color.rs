//! Colors are indexes: white 0, black 1.

use vstd::prelude::*;

verus! {

pub type Color = usize;

pub struct ColorUtils;

impl ColorUtils {
    pub const SIZE: usize = 2;

    pub const WHITE: Color = 0;
    pub const BLACK: Color = 1;
}

impl ColorUtils {
    /// The color written as `w`/`b` (either case) in a placement description.
    pub fn parse(value: char) -> (r: Color)
        requires
            value == 'w' || value == 'W' || value == 'b' || value == 'B',
        ensures
            r == if value == 'w' || value == 'W' {
                0int
            } else {
                1int
            },
            r < 2,
    {
        match value {
            'w' | 'W' => 0,
            'b' | 'B' => 1,
            _ => vstd::pervasive::unreached(),
        }
    }

    /// White for `true`, black for `false`.
    pub fn from_bool(value: bool) -> (r: Color)
        ensures
            r == if value {
                0int
            } else {
                1int
            },
    {
        if value {
            0
        } else {
            1
        }
    }

    /// The letter a placement description uses for the color.
    pub fn to_string(value: Color) -> (r: String)
        requires
            value < 2,
        ensures
            value == 0 ==> r@ == "w"@,
            value == 1 ==> r@ == "b"@,
    {
        if value == 0 {
            String::from_str("w")
        } else {
            String::from_str("b")
        }
    }
}

} // verus!
