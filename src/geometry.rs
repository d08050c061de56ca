use vstd::prelude::*;

verus! {

/// Width of the screen, the largest x a selected corner can have.
pub const MAX_WIDTH: i32 = 1920;

/// Height of the screen, the largest y a selected corner can have.
pub const MAX_HEIGHT: i32 = 1080;

/// `v` constrained to the interval `[lo, hi]`.
pub open spec fn clamp_spec(v: int, lo: int, hi: int) -> int {
    if v < lo {
        lo
    } else if v > hi {
        hi
    } else {
        v
    }
}

/// Whether a point lies in the rectangle `[0, w] x [0, h]`.
pub open spec fn in_bounds(p: (i32, i32), w: int, h: int) -> bool {
    0 <= p.0 <= w && 0 <= p.1 <= h
}

/// Whether a point lies on the screen, borders included.
pub open spec fn on_screen(p: (i32, i32)) -> bool {
    in_bounds(p, MAX_WIDTH as int, MAX_HEIGHT as int)
}

/// `p` with each coordinate constrained to the screen.
pub open spec fn clamp_to_screen(p: (i32, i32)) -> (i32, i32) {
    (
        clamp_spec(p.0 as int, 0, MAX_WIDTH as int) as i32,
        clamp_spec(p.1 as int, 0, MAX_HEIGHT as int) as i32,
    )
}

/// Constrains `v` to `[lo, hi]`.
pub fn clamp_coord(v: i32, lo: i32, hi: i32) -> (r: i32)
    requires
        lo <= hi,
    ensures
        r == clamp_spec(v as int, lo as int, hi as int),
        lo <= r <= hi,
{
    if v < lo {
        lo
    } else if v > hi {
        hi
    } else {
        v
    }
}

/// Constrains each coordinate of `point` to `[0, max_width]` and
/// `[0, max_height]` respectively.
pub fn clamp_point(point: (i32, i32), max_width: i32, max_height: i32) -> (r: (i32, i32))
    requires
        0 <= max_width,
        0 <= max_height,
    ensures
        r.0 == clamp_spec(point.0 as int, 0, max_width as int),
        r.1 == clamp_spec(point.1 as int, 0, max_height as int),
        in_bounds(r, max_width as int, max_height as int),
{
    let clamped_x = clamp_coord(point.0, 0, max_width);
    let clamped_y = clamp_coord(point.1, 0, max_height);
    (clamped_x, clamped_y)
}

} // verus!
