//! The 256-colour palette of a terminal: the colour that stands in for a
//! colour given by its red, green and blue parts.

use vstd::prelude::*;

verus! {

/// The first colour of the palette's colour cube.
pub const CUBE_BASE: u8 = 16;

/// The first colour of the palette's grey ramp.
pub const GREY_BASE: u8 = 232;

/// The strength of step `i` of a part in the colour cube, which has six
/// steps for each part.
pub open spec fn cube_level(i: int) -> int {
    if i <= 0 {
        0
    } else if i == 1 {
        95
    } else if i == 2 {
        135
    } else if i == 3 {
        175
    } else if i == 4 {
        215
    } else {
        255
    }
}

/// How far two strengths are apart.
pub open spec fn apart(a: int, b: int) -> int {
    if a >= b {
        a - b
    } else {
        b - a
    }
}

/// Whether `i` is the step of the colour cube nearest to strength `v`: the
/// first of the steps that are nearest.
pub open spec fn is_nearest_step(v: u8, i: int) -> bool {
    &&& 0 <= i < 6
    &&& forall|j: int| 0 <= j < i ==> apart(v as int, cube_level(j)) > apart(v as int, cube_level(i))
    &&& forall|j: int| i <= j < 6 ==> apart(v as int, cube_level(j)) >= apart(v as int, cube_level(i))
}

/// The step of the grey ramp, which has 24 steps, for the mean strength
/// `mean` of a colour's parts.
pub open spec fn grey_step(mean: int) -> int {
    if mean < 8 {
        0
    } else if mean >= 248 {
        23
    } else {
        (mean - 8) / 10
    }
}

/// The strength of step `i` of the grey ramp.
pub open spec fn grey_level(i: int) -> int {
    8 + 10 * i
}

/// How far a colour is from the colour whose three parts have strengths
/// `x`, `y` and `z`: the sum of how far their parts are apart.
pub open spec fn distance(r: u8, g: u8, b: u8, x: int, y: int, z: int) -> int {
    apart(r as int, x) + apart(g as int, y) + apart(b as int, z)
}

/// Whether `index` is the colour of the palette that stands in for the
/// colour with parts `r`, `g` and `b`: the grey for the mean of the parts
/// where that is nearer than the colour of the cube whose parts are the
/// steps nearest to `r`, `g` and `b`; else that colour of the cube.
pub open spec fn stands_in(r: u8, g: u8, b: u8, index: u8) -> bool {
    exists|ri: int, gi: int, bi: int|
        {
            &&& is_nearest_step(r, ri)
            &&& is_nearest_step(g, gi)
            &&& is_nearest_step(b, bi)
            &&& {
                let grey = grey_step((r + g + b) / 3);
                let level = grey_level(grey);
                if distance(r, g, b, level, level, level) < distance(
                    r,
                    g,
                    b,
                    cube_level(ri),
                    cube_level(gi),
                    cube_level(bi),
                ) {
                    index == GREY_BASE + grey
                } else {
                    index == CUBE_BASE + 36 * ri + 6 * gi + bi
                }
            }
        }
}

/// The strength of step `i` of a part in the colour cube.
fn level_of_step(i: u8) -> (level: u8)
    requires
        i < 6,
    ensures
        level == cube_level(i as int),
{
    if i == 0 {
        0
    } else if i == 1 {
        95
    } else if i == 2 {
        135
    } else if i == 3 {
        175
    } else if i == 4 {
        215
    } else {
        255
    }
}

/// How far two strengths are apart.
fn gap(a: u8, b: u8) -> (d: u16)
    ensures
        d == apart(a as int, b as int),
{
    if a >= b {
        (a - b) as u16
    } else {
        (b - a) as u16
    }
}

/// The step of the colour cube nearest to a strength.
fn nearest_step(v: u8) -> (step: u8)
    ensures
        is_nearest_step(v, step as int),
{
    let mut best: u8 = 0;
    let mut best_gap: u16 = gap(v, level_of_step(0));
    let mut i: u8 = 1;
    while i < 6
        invariant
            1 <= i <= 6,
            best < i,
            best_gap == apart(v as int, cube_level(best as int)),
            forall|j: int|
                0 <= j < best ==> apart(v as int, cube_level(j)) > apart(
                    v as int,
                    cube_level(best as int),
                ),
            forall|j: int|
                best <= j < i ==> apart(v as int, cube_level(j)) >= apart(
                    v as int,
                    cube_level(best as int),
                ),
        decreases 6 - i,
    {
        let d = gap(v, level_of_step(i));
        if d < best_gap {
            best_gap = d;
            best = i;
        }
        i = i + 1;
    }
    best
}

/// The colour of the 256-colour palette that stands in for the colour with
/// parts `r`, `g` and `b`.
pub fn rgb_to_index(r: u8, g: u8, b: u8) -> (index: u8)
    ensures
        stands_in(r, g, b, index),
{
    let ri = nearest_step(r);
    let gi = nearest_step(g);
    let bi = nearest_step(b);
    let mean: u16 = (r as u16 + g as u16 + b as u16) / 3;
    let grey: u8 = if mean < 8 {
        0
    } else if mean >= 248 {
        23
    } else {
        ((mean - 8) / 10) as u8
    };
    let level: u8 = 8 + 10 * grey;
    let grey_distance = gap(r, level) + gap(g, level) + gap(b, level);
    let cube_distance = gap(r, level_of_step(ri)) + gap(g, level_of_step(gi)) + gap(
        b,
        level_of_step(bi),
    );
    if grey_distance < cube_distance {
        GREY_BASE + grey
    } else {
        CUBE_BASE + 36 * ri + 6 * gi + bi
    }
}

} // verus!
