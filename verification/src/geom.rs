//! Scaled-integer geometry: screen points, colors, hex-grid tiles, and the
//! exact linear interpolation used by the timed actions.

use vstd::prelude::*;

verus! {

/// Upper bound on every duration handled by the engine, in milliseconds.
pub const MAX_TIME: i64 = 1_000_000_000_000;

/// Screen coordinates are kept within this bound.
pub const POS_LIMIT: i64 = 1_000_000_000_000;

/// Color channels range over `0 ..= COLOR_MAX` (scaled, `COLOR_MAX` = opaque).
pub const COLOR_MAX: i64 = 1000;

/// Hex-grid axial coordinates are kept within this bound.
pub const HEX_LIMIT: i64 = 10_000;

/// Tile sizes range over `1 ..= TILE_LIMIT`.
pub const TILE_LIMIT: i64 = 10_000;

/// A screen position or displacement, in scaled integer units.
#[derive(Clone, Copy, PartialEq, Eq, Structural, Debug)]
pub struct Point {
    pub x: i64,
    pub y: i64,
}

/// An RGBA color; each channel is in `0 ..= COLOR_MAX`.
#[derive(Clone, Copy, PartialEq, Eq, Structural, Debug)]
pub struct Color {
    pub r: i64,
    pub g: i64,
    pub b: i64,
    pub a: i64,
}

/// An axial hex-grid tile coordinate.
#[derive(Clone, Copy, PartialEq, Eq, Structural, Debug)]
pub struct PosHex {
    pub q: i64,
    pub r: i64,
}

pub open spec fn point_wf(p: Point) -> bool {
    &&& -POS_LIMIT <= p.x <= POS_LIMIT
    &&& -POS_LIMIT <= p.y <= POS_LIMIT
}

pub open spec fn color_wf(c: Color) -> bool {
    &&& 0 <= c.r <= COLOR_MAX
    &&& 0 <= c.g <= COLOR_MAX
    &&& 0 <= c.b <= COLOR_MAX
    &&& 0 <= c.a <= COLOR_MAX
}

pub open spec fn hex_wf(h: PosHex) -> bool {
    &&& -HEX_LIMIT <= h.q <= HEX_LIMIT
    &&& -HEX_LIMIT <= h.r <= HEX_LIMIT
}

/// The screen point of a tile: a fixed linear map of the axial coordinates.
pub open spec fn hex_to_point_spec(tile_size: int, pos: PosHex) -> Point {
    Point {
        x: (tile_size * (2 * pos.q + pos.r)) as i64,
        y: (tile_size * 3 * pos.r) as i64,
    }
}

/// The farthest screen coordinate any tile can map to.
pub const HEX_POINT_BOUND: i64 = 300_000_000;

/// Converts a tile coordinate to its screen point.
pub fn hex_to_point(tile_size: i64, pos: PosHex) -> (r: Point)
    requires
        1 <= tile_size <= TILE_LIMIT,
        hex_wf(pos),
    ensures
        r == hex_to_point_spec(tile_size as int, pos),
        point_wf(r),
        -HEX_POINT_BOUND <= r.x <= HEX_POINT_BOUND,
        -HEX_POINT_BOUND <= r.y <= HEX_POINT_BOUND,
{
    proof {
        assert(-HEX_POINT_BOUND <= tile_size * (2 * pos.q + pos.r)
            <= HEX_POINT_BOUND) by (nonlinear_arith)
            requires 1 <= tile_size <= TILE_LIMIT, -3 * HEX_LIMIT <= 2 * pos.q + pos.r <= 3 * HEX_LIMIT;
        assert(-HEX_POINT_BOUND <= (tile_size * 3) * pos.r <= HEX_POINT_BOUND) by (nonlinear_arith)
            requires 1 <= tile_size <= TILE_LIMIT, -HEX_LIMIT <= pos.r <= HEX_LIMIT;
    }
    Point { x: tile_size * (2 * pos.q + pos.r), y: tile_size * 3 * pos.r }
}

/// Half of a displacement, rounded toward zero.
pub open spec fn half_toward_zero(v: int) -> int {
    if v >= 0 {
        v / 2
    } else {
        -((-v) / 2)
    }
}

/// Computes `half_toward_zero` exactly.
pub fn half_i64(v: i64) -> (r: i64)
    requires
        -2 * POS_LIMIT <= v <= 2 * POS_LIMIT,
    ensures
        r == half_toward_zero(v as int),
        -POS_LIMIT <= r <= POS_LIMIT,
{
    if v >= 0 {
        v / 2
    } else {
        -((-v) / 2)
    }
}

/// Clamps a coordinate into `-POS_LIMIT ..= POS_LIMIT`.
pub open spec fn clamp_pos(v: int) -> int {
    if v < -POS_LIMIT {
        -POS_LIMIT as int
    } else if v > POS_LIMIT {
        POS_LIMIT as int
    } else {
        v
    }
}

/// How far a linear interpolation of total change `delta` has gone after
/// `p` of `d` time units, rounding the magnitude down.
pub open spec fn scale_toward(delta: int, p: int, d: int) -> int {
    if delta >= 0 {
        (delta * p) / d
    } else {
        -(((-delta) * p) / d)
    }
}

pub proof fn lemma_scale_bounds(delta: int, p: int, d: int)
    requires
        1 <= d,
        0 <= p <= d,
    ensures
        delta >= 0 ==> 0 <= scale_toward(delta, p, d) <= delta,
        delta < 0 ==> delta <= scale_toward(delta, p, d) <= 0,
        p == d ==> scale_toward(delta, p, d) == delta,
        p == 0 ==> scale_toward(delta, p, d) == 0,
{
    let m = if delta >= 0 { delta } else { -delta };
    assert(0 <= m * p <= m * d) by (nonlinear_arith)
        requires 0 <= m, 0 <= p <= d;
    assert(0 <= (m * p) / d <= m) by (nonlinear_arith)
        requires 1 <= d, 0 <= m * p <= m * d;
    if p == d {
        assert((m * d) / d == m) by (nonlinear_arith)
            requires 1 <= d;
    }
}

/// Computes `scale_toward` exactly, using wide intermediates.
pub fn scale_toward_exec(delta: i64, p: i64, d: i64) -> (r: i64)
    requires
        -POS_LIMIT <= delta <= POS_LIMIT,
        1 <= d <= MAX_TIME,
        0 <= p <= d,
    ensures
        r == scale_toward(delta as int, p as int, d as int),
        -POS_LIMIT <= r <= POS_LIMIT,
{
    proof {
        lemma_scale_bounds(delta as int, p as int, d as int);
    }
    if delta >= 0 {
        proof {
            assert(0 <= delta * p <= POS_LIMIT * MAX_TIME) by (nonlinear_arith)
                requires 0 <= delta <= POS_LIMIT, 0 <= p <= MAX_TIME;
        }
        let prod: u128 = (delta as u128) * (p as u128);
        let q: u128 = prod / (d as u128);
        assert(q == (delta * p) / (d as int)) by {
            assert(prod == delta * p);
        }
        q as i64
    } else {
        let m: i64 = -delta;
        proof {
            assert(0 <= m * p <= POS_LIMIT * MAX_TIME) by (nonlinear_arith)
                requires 0 <= m <= POS_LIMIT, 0 <= p <= MAX_TIME;
        }
        let prod: u128 = (m as u128) * (p as u128);
        let q: u128 = prod / (d as u128);
        assert(q == (m * p) / (d as int)) by {
            assert(prod == m * p);
        }
        -(q as i64)
    }
}

/// The smaller of two instants.
pub open spec fn min_time(a: int, b: int) -> int {
    if a < b {
        a
    } else {
        b
    }
}

/// Clamps a coordinate into the screen bound.
pub fn clamp_pos_exec(v: i64) -> (r: i64)
    requires
        -4 * POS_LIMIT <= v <= 4 * POS_LIMIT,
    ensures
        r == clamp_pos(v as int),
        -POS_LIMIT <= r <= POS_LIMIT,
{
    if v < -POS_LIMIT {
        -POS_LIMIT
    } else if v > POS_LIMIT {
        POS_LIMIT
    } else {
        v
    }
}

/// The position of a linear move from `st` by `delta` after `p` of `d` time
/// units; at completion it is exactly the clamped endpoint `st + delta`.
pub open spec fn move_target(st: Point, delta: Point, p: int, d: int) -> Point {
    if p == d {
        Point { x: clamp_pos(st.x + delta.x) as i64, y: clamp_pos(st.y + delta.y) as i64 }
    } else {
        Point {
            x: clamp_pos(st.x + scale_toward(delta.x as int, p, d)) as i64,
            y: clamp_pos(st.y + scale_toward(delta.y as int, p, d)) as i64,
        }
    }
}

/// The color of a linear blend from `st` toward `target` after `p` of `d`
/// time units; at completion it is exactly `target`.
pub open spec fn blend_target(st: Color, target: Color, p: int, d: int) -> Color {
    if p == d {
        target
    } else {
        Color {
            r: (st.r + scale_toward(target.r - st.r, p, d)) as i64,
            g: (st.g + scale_toward(target.g - st.g, p, d)) as i64,
            b: (st.b + scale_toward(target.b - st.b, p, d)) as i64,
            a: (st.a + scale_toward(target.a - st.a, p, d)) as i64,
        }
    }
}

/// One channel of a linear color blend, before completion.
pub fn blend_channel(st: i64, target: i64, p: i64, d: i64) -> (r: i64)
    requires
        0 <= st <= COLOR_MAX,
        0 <= target <= COLOR_MAX,
        1 <= d <= MAX_TIME,
        0 <= p < d,
    ensures
        r == st + scale_toward(target - st, p as int, d as int),
        0 <= r <= COLOR_MAX,
{
    proof {
        lemma_scale_bounds(target - st, p as int, d as int);
    }
    st + scale_toward_exec(target - st, p, d)
}

/// Computes `move_target` exactly.
pub fn move_target_exec(st: Point, delta: Point, p: i64, d: i64) -> (r: Point)
    requires
        point_wf(st),
        point_wf(delta),
        0 <= d <= MAX_TIME,
        0 <= p <= d,
    ensures
        r == move_target(st, delta, p as int, d as int),
        point_wf(r),
{
    if p == d {
        Point { x: clamp_pos_exec(st.x + delta.x), y: clamp_pos_exec(st.y + delta.y) }
    } else {
        Point {
            x: clamp_pos_exec(st.x + scale_toward_exec(delta.x, p, d)),
            y: clamp_pos_exec(st.y + scale_toward_exec(delta.y, p, d)),
        }
    }
}

/// Computes `blend_target` exactly.
pub fn blend_target_exec(st: Color, target: Color, p: i64, d: i64) -> (r: Color)
    requires
        color_wf(st),
        color_wf(target),
        0 <= d <= MAX_TIME,
        0 <= p <= d,
    ensures
        r == blend_target(st, target, p as int, d as int),
        color_wf(r),
{
    if p == d {
        target
    } else {
        Color {
            r: blend_channel(st.r, target.r, p, d),
            g: blend_channel(st.g, target.g, p, d),
            b: blend_channel(st.b, target.b, p, d),
            a: blend_channel(st.a, target.a, p, d),
        }
    }
}

} // verus!
