use vstd::prelude::*;

verus! {

/// Number of subpixel units in one grid cell, along each axis.
pub const SUBPIXEL_SCALE: i32 = 64;

/// A position, velocity or acceleration in subpixel units.
#[derive(Copy, Clone, Debug)]
pub struct Coordinate {
    pub x: i32,
    pub y: i32,
}

/// A cell of the character grid.
#[derive(Copy, Clone, Debug, PartialEq, Eq, Structural)]
pub struct ConsoleCell {
    pub x: u16,
    pub y: u16,
}

/// `v / s` rounded to the nearest integer, ties away from zero.
pub open spec fn round_div(v: int, s: int) -> int
    recommends
        s > 0,
{
    if v >= 0 {
        (v + s / 2) / s
    } else {
        -((-v + s / 2) / s)
    }
}

/// The grid coordinate of a subpixel coordinate: rounded to the nearest cell,
/// then held to the range of `u16`.
pub open spec fn cell_of(v: int) -> int {
    let c = round_div(v, SUBPIXEL_SCALE as int);
    if c < 0 {
        0
    } else if c > u16::MAX {
        u16::MAX as int
    } else {
        c
    }
}

/// The grid cell of a subpixel position.
pub open spec fn cell_of_coord(c: Coordinate) -> ConsoleCell {
    ConsoleCell { x: cell_of(c.x as int) as u16, y: cell_of(c.y as int) as u16 }
}

impl ConsoleCell {
    pub fn new(x: u16, y: u16) -> (r: Self)
        ensures
            r.x == x,
            r.y == y,
    {
        Self { x, y }
    }
}

impl Coordinate {
    pub fn new(x: i32, y: i32) -> (r: Self)
        ensures
            r.x == x,
            r.y == y,
    {
        Self { x, y }
    }

    /// Adds `other` to this coordinate, component by component, and hands
    /// back the sum.
    pub fn add(&mut self, other: &Self) -> (r: &Self)
        requires
            i32::MIN <= old(self).x + other.x <= i32::MAX,
            i32::MIN <= old(self).y + other.y <= i32::MAX,
        ensures
            final(self).x == old(self).x + other.x,
            final(self).y == old(self).y + other.y,
            *r == *final(self),
    {
        self.y = self.y + other.y;
        self.x = self.x + other.x;
        self
    }

    /// The grid cell that holds this subpixel position.
    pub fn to_cell(&self) -> (r: ConsoleCell)
        ensures
            r.x == cell_of(self.x as int),
            r.y == cell_of(self.y as int),
            r == cell_of_coord(*self),
    {
        ConsoleCell::new(axis_to_cell(self.x as i64), axis_to_cell(self.y as i64))
    }
}

impl Default for Coordinate {
    fn default() -> (r: Self)
        ensures
            r.x == 0,
            r.y == 0,
    {
        Self::new(0, 0)
    }
}

/// The grid coordinate of one subpixel coordinate (see `cell_of`).
pub(crate) fn axis_to_cell(v: i64) -> (r: u16)
    ensures
        r == cell_of(v as int),
{
    if v <= 0 {
        0
    } else {
        let q: i64 = v / 64;
        let rem: i64 = v % 64;
        let c: i64 = if rem >= 32 { q + 1 } else { q };
        if c > 65535 {
            65535
        } else {
            c as u16
        }
    }
}

pub open spec fn sign(v: int) -> int {
    if v > 0 {
        1
    } else if v < 0 {
        -1
    } else {
        0
    }
}

pub open spec fn abs(v: int) -> int {
    if v < 0 {
        -v
    } else {
        v
    }
}

pub open spec fn max(a: int, b: int) -> int {
    if a >= b {
        a
    } else {
        b
    }
}

/// `v` held to `[lo, hi]`.
pub open spec fn clamp(v: int, lo: int, hi: int) -> int {
    if v < lo {
        lo
    } else if v > hi {
        hi
    } else {
        v
    }
}

/// Speed at or under which, on both axes, braking works in unit steps.
pub const LOW_SPEED: i32 = 10;

/// Braking acceleration before the overshoot guard. At low speed it is a
/// unit step against the faster axis (against both when they tie); above it
/// each axis gets about a twentieth of its speed, at least 1, against its
/// velocity: `-sign(v) * max(|v| / 20, 1)`.
pub open spec fn braking_unguarded(vx: int, vy: int) -> (int, int) {
    let ax = abs(vx);
    let ay = abs(vy);
    if ax <= LOW_SPEED && ay <= LOW_SPEED {
        if ax > ay {
            (-sign(vx), 0)
        } else if ay > ax {
            (0, -sign(vy))
        } else {
            (-sign(vx), -sign(vy))
        }
    } else {
        (-sign(vx) * max(ax / 20, 1), -sign(vy) * max(ay / 20, 1))
    }
}

/// Holds an acceleration `a` on an axis of velocity `v` so that `v + a`
/// lies between 0 and `v`.
pub open spec fn overshoot_guard(a: int, v: int) -> int {
    if v > 0 {
        clamp(a, -v, 0)
    } else if v < 0 {
        clamp(a, 0, -v)
    } else {
        0
    }
}

/// The braking acceleration for velocity `(vx, vy)`.
pub open spec fn braking(vx: int, vy: int) -> (int, int) {
    let (ax, ay) = braking_unguarded(vx, vy);
    (overshoot_guard(ax, vx), overshoot_guard(ay, vy))
}

/// After braking, an axis keeps its sign or stops; it never reverses.
pub open spec fn keeps_sign(v: int, a: int) -> bool {
    &&& v > 0 ==> 0 <= v + a <= v
    &&& v < 0 ==> v <= v + a <= 0
    &&& v == 0 ==> a == 0
}

/// Braking acceleration, added to the velocity, never changes the sign of
/// the velocity on either axis.
pub proof fn lemma_braking_never_overshoots(vx: int, vy: int)
    ensures
        keeps_sign(vx, braking(vx, vy).0),
        keeps_sign(vy, braking(vx, vy).1),
{
}

/// Guards one axis of a braking acceleration; see `overshoot_guard`.
fn guard_axis(a: i64, v: i64) -> (r: i64)
    requires
        i32::MIN <= v <= i32::MAX,
    ensures
        r == overshoot_guard(a as int, v as int),
        abs(r as int) <= abs(a as int),
{
    if v > 0 {
        if a < -v {
            -v
        } else if a > 0 {
            0
        } else {
            a
        }
    } else if v < 0 {
        if a < 0 {
            0
        } else if a > -v {
            -v
        } else {
            a
        }
    } else {
        0
    }
}

fn sign_i64(v: i64) -> (r: i64)
    ensures
        r == sign(v as int),
        -1 <= r <= 1,
{
    if v > 0 {
        1
    } else if v < 0 {
        -1
    } else {
        0
    }
}

/// `-sign(v) * m`: magnitude `m` pointing against `v`.
fn against(m: i64, v: i64) -> (r: i64)
    requires
        0 <= m <= i32::MAX,
    ensures
        r == -sign(v as int) * m,
        -m <= r <= m,
{
    if v > 0 {
        assert(sign(v as int) == 1);
        assert(-sign(v as int) * m == -m) by (nonlinear_arith)
            requires
                sign(v as int) == 1,
        ;
        -m
    } else if v < 0 {
        assert(sign(v as int) == -1);
        assert(-sign(v as int) * m == m) by (nonlinear_arith)
            requires
                sign(v as int) == -1,
        ;
        m
    } else {
        assert(sign(v as int) == 0);
        assert(-sign(v as int) * m == 0) by (nonlinear_arith)
            requires
                sign(v as int) == 0,
        ;
        0
    }
}

/// The acceleration that brakes a particle moving at `vel`.
pub fn braking_acceleration_from_velocity(vel: Coordinate) -> (r: Coordinate)
    ensures
        (r.x as int, r.y as int) == braking(vel.x as int, vel.y as int),
        keeps_sign(vel.x as int, r.x as int),
        keeps_sign(vel.y as int, r.y as int),
{
    let vx: i64 = vel.x as i64;
    let vy: i64 = vel.y as i64;

    if vx == 0 && vy == 0 {
        return Coordinate::new(0, 0);
    }

    let absx: i64 = if vx < 0 { -vx } else { vx };
    let absy: i64 = if vy < 0 { -vy } else { vy };
    let low: i64 = LOW_SPEED as i64;

    let mut ax: i64;
    let mut ay: i64;
    if absx <= low && absy <= low {
        if absx > absy {
            ax = -sign_i64(vx);
            ay = 0;
        } else if absy > absx {
            ax = 0;
            ay = -sign_i64(vy);
        } else {
            ax = -sign_i64(vx);
            ay = -sign_i64(vy);
        }
    } else {
        ax = against(if absx / 20 < 1 { 1 } else { absx / 20 }, vx);
        ay = against(if absy / 20 < 1 { 1 } else { absy / 20 }, vy);
    }
    assert(-(absx / 20) - 1 <= ax <= absx / 20 + 1);
    assert(-(absy / 20) - 1 <= ay <= absy / 20 + 1);

    ax = guard_axis(ax, vx);
    ay = guard_axis(ay, vy);
    proof {
        lemma_braking_never_overshoots(vx as int, vy as int);
    }
    Coordinate::new(ax as i32, ay as i32)
}

/// The cell coordinate never decreases as the subpixel coordinate grows.
pub proof fn lemma_cell_of_monotonic(a: int, b: int)
    requires
        a <= b,
    ensures
        cell_of(a) <= cell_of(b),
{
    assert(round_div(a, 64) <= round_div(b, 64)) by {
        if a >= 0 {
            vstd::arithmetic::div_mod::lemma_div_is_ordered(a + 32, b + 32, 64);
        } else if b >= 0 {
            assert((-a + 32) / 64 >= 0) by {
                vstd::arithmetic::div_mod::lemma_div_pos_is_pos(-a + 32, 64);
            }
            assert((b + 32) / 64 >= 0) by {
                vstd::arithmetic::div_mod::lemma_div_pos_is_pos(b + 32, 64);
            }
        } else {
            vstd::arithmetic::div_mod::lemma_div_is_ordered(-b + 32, -a + 32, 64);
        }
    }
}

/// Converting a subpixel position to a grid cell gives a cell that is not
/// negative and is monotonic along each axis.
pub proof fn lemma_to_cell_monotonic(a: Coordinate, b: Coordinate)
    ensures
        cell_of(a.x as int) >= 0,
        cell_of(a.y as int) >= 0,
        a.x <= b.x ==> cell_of(a.x as int) <= cell_of(b.x as int),
        a.y <= b.y ==> cell_of(a.y as int) <= cell_of(b.y as int),
{
    if a.x <= b.x {
        lemma_cell_of_monotonic(a.x as int, b.x as int);
    }
    if a.y <= b.y {
        lemma_cell_of_monotonic(a.y as int, b.y as int);
    }
}

} // verus!
