//! Play-field geometry in fixed point.
//!
//! Lengths are measured in thousandths of a world unit and time in
//! microseconds, so every speed of the game is a whole number of
//! thousandths per microsecond and each frame moves entities exactly.
use vstd::prelude::*;

verus! {

/// Margin between the window edge and the outermost enemy lanes.
pub const PADDING: i64 = 80_000;

/// Horizontal distance between neighbouring enemy lanes.
pub const ENEMY_SPACING: i64 = 120_000;

/// Number of enemies (and lanes) in a row.
pub const ENEMY_PER_ROW: usize = 4;

/// Collision radii (half of each sprite's size).
pub const PLAYER_RADIUS: i64 = 45_000;
pub const ENEMY_RADIUS: i64 = 51_000;
pub const BULLET_RADIUS: i64 = 4_500;

/// Speeds, in thousandths of a unit per microsecond.
pub const PLAYER_SPEED: i64 = 2;
pub const ENEMY_SPEED: i64 = 1;
pub const BULLET_SPEED: i64 = 1;

/// Largest window side that the simulation accepts.
pub const MAX_EXTENT: i64 = 1_099_511_627_776;

/// Every coordinate of a well-formed world lies within this magnitude.
pub const COORD_LIMIT: i64 = 4_398_046_511_104;

/// Coordinates stay within this magnitude between a movement stage and the
/// clamp that follows it.
pub const DRIFT_LIMIT: i64 = 8_796_093_022_208;

/// A position on the play field.
#[derive(Clone, Copy, Debug, PartialEq, Eq, Structural)]
pub struct Point {
    pub x: i64,
    pub y: i64,
}

/// The window size, as supplied by the host each frame.
#[derive(Clone, Copy, Debug, PartialEq, Eq, Structural)]
pub struct Extent {
    pub width: i64,
    pub height: i64,
}

impl Extent {
    pub open spec fn wf(self) -> bool {
        0 <= self.width <= MAX_EXTENT && 0 <= self.height <= MAX_EXTENT
    }

    /// Whether every lane and the player's box are non-empty.
    pub open spec fn roomy(self) -> bool {
        &&& self.wf()
        &&& self.width >= 2 * PADDING + 3 * ENEMY_SPACING + 2 * ENEMY_RADIUS
        &&& self.height >= 2 * PLAYER_RADIUS
    }
}

pub open spec fn within(p: Point, bound: int) -> bool {
    -bound <= p.x <= bound && -bound <= p.y <= bound
}

/// Pulls `v` back into `[lo, hi]`, testing the lower end first.
pub open spec fn clamp_spec(v: int, lo: int, hi: int) -> int {
    if v < lo {
        lo
    } else if v > hi {
        hi
    } else {
        v
    }
}

pub fn clamp_axis(v: i64, lo: i64, hi: i64) -> (r: i64)
    ensures
        r == clamp_spec(v as int, lo as int, hi as int),
{
    if v < lo {
        lo
    } else if v > hi {
        hi
    } else {
        v
    }
}

pub open spec fn player_x_min() -> int {
    PLAYER_RADIUS as int
}

pub open spec fn player_x_max(w: int) -> int {
    w - PLAYER_RADIUS
}

pub open spec fn player_y_min() -> int {
    PLAYER_RADIUS as int
}

pub open spec fn player_y_max(h: int) -> int {
    h - PLAYER_RADIUS
}

/// Left end of the lane in which the enemy of column `col` patrols.
pub open spec fn lane_min(col: int) -> int {
    PADDING + ENEMY_SPACING * col + ENEMY_RADIUS
}

/// Right end of the lane of column `col` in a window `w` wide.
pub open spec fn lane_max(w: int, col: int) -> int {
    w - PADDING - ENEMY_SPACING * (ENEMY_PER_ROW - col - 1) - ENEMY_RADIUS
}

/// Highest point a bullet may reach before it leaves the field.
pub open spec fn bullet_y_max(h: int) -> int {
    h - BULLET_RADIUS
}

pub fn lane_bounds(width: i64, col: usize) -> (r: (i64, i64))
    requires
        0 <= width <= MAX_EXTENT,
        col < ENEMY_PER_ROW,
    ensures
        r.0 == lane_min(col as int),
        r.1 == lane_max(width as int, col as int),
{
    let c = col as i64;
    let lo = PADDING + ENEMY_SPACING * c + ENEMY_RADIUS;
    let hi = width - PADDING - ENEMY_SPACING * (ENEMY_PER_ROW as i64 - c - 1) - ENEMY_RADIUS;
    (lo, hi)
}

pub open spec fn dist_sq(a: Point, b: Point) -> int {
    (a.x - b.x) * (a.x - b.x) + (a.y - b.y) * (a.y - b.y)
}

/// Two disks of radii summing to `reach` overlap when their centres are
/// closer than `reach`; compared on squares, so no root is taken.
pub open spec fn touching(a: Point, b: Point, reach: int) -> bool {
    dist_sq(a, b) < reach * reach
}

pub fn disks_touch(a: Point, b: Point, reach: i64) -> (r: bool)
    requires
        within(a, DRIFT_LIMIT as int),
        within(b, DRIFT_LIMIT as int),
        0 <= reach <= MAX_EXTENT,
    ensures
        r == touching(a, b, reach as int),
{
    let dx = a.x as i128 - b.x as i128;
    let dy = a.y as i128 - b.y as i128;
    assert(0 <= dx * dx <= 0x100_0000_0000_0000_0000_0000_0000) by (nonlinear_arith)
        requires
            -0x10_0000_0000_0000 <= dx <= 0x10_0000_0000_0000,
    ;
    assert(0 <= dy * dy <= 0x100_0000_0000_0000_0000_0000_0000) by (nonlinear_arith)
        requires
            -0x10_0000_0000_0000 <= dy <= 0x10_0000_0000_0000,
    ;
    assert(0 <= reach * reach <= 0x100_0000_0000_0000_0000_0000_0000) by (nonlinear_arith)
        requires
            0 <= reach <= 0x10_0000_0000_0000,
    ;
    let rr = reach as i128;
    dx * dx + dy * dy < rr * rr
}

/// The component, on each axis, of a diagonal move of length `step`: the
/// largest `c` with `2c² <= step²`, that is `step / sqrt(2)` rounded down.
pub open spec fn is_diagonal_component(c: int, step: int) -> bool {
    2 * c * c <= step * step < 2 * (c + 1) * (c + 1)
}

pub fn diagonal_component(step: u64) -> (c: u64)
    requires
        step <= 0x4_0000_0000,
    ensures
        is_diagonal_component(c as int, step as int),
        c <= step,
{
    let s = step as u128;
    assert(s * s <= 0x10_0000_0000_0000_0000) by (nonlinear_arith)
        requires
            s <= 0x4_0000_0000,
    ;
    let target: u128 = s * s;
    let mut lo: u128 = 0;
    let mut hi: u128 = s + 1;
    assert(target < 2 * hi * hi) by (nonlinear_arith)
        requires
            target == s * s,
            hi == s + 1,
    ;
    while hi - lo > 1
        invariant
            lo < hi <= s + 1,
            s <= 0x4_0000_0000,
            target == s * s,
            2 * lo * lo <= target,
            target < 2 * hi * hi,
        decreases hi - lo,
    {
        let mid = lo + (hi - lo) / 2;
        assert(2 * mid * mid <= 2 * (s + 1) * (s + 1)) by (nonlinear_arith)
            requires
                mid <= s + 1,
        ;
        assert(2 * (s + 1) * (s + 1) <= 0x80_0000_0000_0000_0000) by (nonlinear_arith)
            requires
                s <= 0x4_0000_0000,
        ;
        if 2 * mid * mid <= target {
            lo = mid;
        } else {
            hi = mid;
        }
    }
    assert(lo <= s) by (nonlinear_arith)
        requires
            2 * lo * lo <= s * s,
            lo >= 0,
            s >= 0,
    ;
    lo as u64
}

} // verus!
