use crate::spatial::{
    abs, axis_to_cell, braking, braking_acceleration_from_velocity, cell_of, clamp, Coordinate,
    ConsoleCell,
};
use crossterm::style::Color;
use vstd::prelude::*;

verus! {

/// Fuel of a particle when it is made.
pub const FULL_FUEL: u16 = 510;

/// A stable identity of a particle; 0 means "not yet assigned".
#[derive(Copy, Clone, Debug, PartialEq, Eq, Structural, Hash, PartialOrd, Ord)]
pub struct ParticleId(pub u64);

#[derive(Copy, Clone, Debug, PartialEq, Eq, Structural)]
pub enum ParticleType {
    Rocket,
    FuelCell,
}

/// Foreground and background colour of a drawn cell.
#[derive(Copy, Clone, Debug)]
pub struct ParticleColors {
    pub foreground: Color,
    pub background: Color,
}

/// Cells drawn around a particle: each with its offset, glyph and foreground
/// colour. The anchor is the offset that lands on the particle's own cell.
#[derive(Clone, Debug)]
pub struct Sprite {
    pub cells: Vec<(ConsoleCell, char, Color)>,
    pub anchor: ConsoleCell,
}

/// A thrust command for one tick: brake, or add a delta to the acceleration.
#[derive(Copy, Clone, Debug)]
pub enum Boost {
    Brake,
    Coordinate(Coordinate),
}

#[derive(Copy, Clone, Debug)]
pub struct Particle {
    pub uid: ParticleId,
    pub position: Coordinate,
    pub velocity: Coordinate,
    pub acceleration: Coordinate,
    pub color: Color,
    pub kind: ParticleType,
    pub fuel: u16,
    pub velocity_cap: Coordinate,
}

pub open spec fn fits_i32(v: int) -> bool {
    i32::MIN <= v <= i32::MAX
}

/// Rust's integer division, which truncates toward zero.
pub open spec fn trunc_div(a: int, d: int) -> int
    recommends
        d > 0,
{
    if a >= 0 {
        a / d
    } else {
        -((-a) / d)
    }
}

/// Position integration divides the velocity by this.
pub open spec fn divisor(kind: ParticleType) -> int {
    match kind {
        ParticleType::FuelCell => 4,
        ParticleType::Rocket => 2,
    }
}

/// The glyph of a rocket moving at `(vx, vy)`: a dot when it stands still,
/// else the arrow of the nearest of the eight compass directions (y grows
/// downward). The direction is within 22.5 degrees of the x axis exactly when
/// `|vy| < (sqrt(2) - 1) * |vx|`, that is when `(|vx| + |vy|)^2 < 2 * |vx|^2`;
/// likewise for the y axis. No integer velocity lies on a sector boundary.
pub open spec fn rocket_glyph(vx: int, vy: int) -> char {
    let a = abs(vx);
    let b = abs(vy);
    if vx == 0 && vy == 0 {
        '•'
    } else if (a + b) * (a + b) < 2 * a * a {
        if vx > 0 {
            '→'
        } else {
            '←'
        }
    } else if (a + b) * (a + b) < 2 * b * b {
        if vy > 0 {
            '↓'
        } else {
            '↑'
        }
    } else if vx > 0 {
        if vy > 0 {
            '↘'
        } else {
            '↗'
        }
    } else {
        if vy > 0 {
            '↙'
        } else {
            '↖'
        }
    }
}

/// The glyph a particle is drawn with.
pub open spec fn glyph_of(p: Particle) -> char {
    match p.kind {
        ParticleType::Rocket => rocket_glyph(p.velocity.x as int, p.velocity.y as int),
        ParticleType::FuelCell => 'F',
    }
}

/// The colours a particle is drawn with.
pub open spec fn colors_of(p: Particle) -> ParticleColors {
    match p.kind {
        ParticleType::FuelCell => ParticleColors {
            foreground: Color::DarkBlue,
            background: Color::Yellow,
        },
        ParticleType::Rocket => ParticleColors { foreground: p.color, background: Color::Black },
    }
}

/// Acceleration after the boost of a tick: none without fuel; else braking,
/// the old acceleration plus a delta, or none when no boost is given.
pub open spec fn next_acceleration(p: Particle, boost: Option<Boost>) -> (int, int) {
    if p.fuel == 0 {
        (0, 0)
    } else {
        match boost {
            Some(Boost::Brake) => braking(p.velocity.x as int, p.velocity.y as int),
            Some(Boost::Coordinate(d)) => (
                p.acceleration.x + d.x,
                p.acceleration.y + d.y,
            ),
            None => (0, 0),
        }
    }
}

/// Fuel after a tick: one unit less when the particle accelerates, never
/// below zero.
pub open spec fn next_fuel(p: Particle, boost: Option<Boost>) -> int {
    let a = next_acceleration(p, boost);
    if (a.0 != 0 || a.1 != 0) && p.fuel > 0 {
        p.fuel - 1
    } else {
        p.fuel as int
    }
}

/// Position and velocity on one axis before the border bounce: the velocity
/// gains the acceleration and is held to `[-cap, cap]`; the position gains the
/// velocity divided by `d`.
pub open spec fn integrate(pos: int, vel: int, acc: int, cap: int, d: int) -> (int, int) {
    let v = clamp(vel + acc, -cap, cap);
    (pos + trunc_div(v, d), v)
}

/// Reflection at the far border: when the position's cell is at or beyond the
/// last cell, the position is mirrored about the far pixel bound and the
/// velocity turns.
pub open spec fn reflect_far(pos: int, vel: int, pixels: int, cells: int) -> (int, int) {
    if cell_of(pos) >= cells - 1 {
        (pixels - abs(pos - pixels), -vel)
    } else {
        (pos, vel)
    }
}

/// Bounce on the x axis. The near test looks at the cell of the position
/// before the far reflection.
pub open spec fn bounce_x(pos: int, vel: int, pixels: int, cells: int) -> (int, int) {
    let r = reflect_far(pos, vel, pixels, cells);
    if cell_of(pos) <= 1 {
        (abs(r.0), -r.1)
    } else {
        r
    }
}

/// Bounce on the y axis. The near test looks at the pixel position after the
/// far reflection.
pub open spec fn bounce_y(pos: int, vel: int, pixels: int, cells: int) -> (int, int) {
    let r = reflect_far(pos, vel, pixels, cells);
    if r.0 <= 1 {
        (abs(r.0), -r.1)
    } else {
        r
    }
}

/// Position and velocity on the x axis after a tick.
pub open spec fn next_x(p: Particle, bounds: (i32, i32, u16, u16), boost: Option<Boost>) -> (
    int,
    int,
) {
    let m = integrate(
        p.position.x as int,
        p.velocity.x as int,
        next_acceleration(p, boost).0,
        p.velocity_cap.x as int,
        divisor(p.kind),
    );
    bounce_x(m.0, m.1, bounds.0 as int, bounds.2 as int)
}

/// Position and velocity on the y axis after a tick.
pub open spec fn next_y(p: Particle, bounds: (i32, i32, u16, u16), boost: Option<Boost>) -> (
    int,
    int,
) {
    let m = integrate(
        p.position.y as int,
        p.velocity.y as int,
        next_acceleration(p, boost).1,
        p.velocity_cap.y as int,
        divisor(p.kind),
    );
    bounce_y(m.0, m.1, bounds.1 as int, bounds.3 as int)
}

/// Without fuel a particle gets no thrust, whatever boost it is given, and
/// its fuel stays at zero.
pub proof fn lemma_no_fuel_no_thrust(p: Particle, boost: Option<Boost>)
    requires
        p.fuel == 0,
    ensures
        next_acceleration(p, boost) == (0int, 0int),
        next_fuel(p, boost) == 0,
{
}

/// A particle that moves, with no boost, into the first two columns of a
/// grid at least three cells wide: its velocity is held to the cap, its
/// position moves by the velocity over the divisor, and then the position is
/// mirrored about pixel 0 and the x velocity turns.
pub proof fn lemma_near_x_bounce(p: Particle, bounds: (i32, i32, u16, u16))
    requires
        p.velocity_cap.x >= 0,
        bounds.2 >= 3,
        cell_of(
            p.position.x + trunc_div(
                clamp(p.velocity.x as int, -p.velocity_cap.x, p.velocity_cap.x as int),
                divisor(p.kind),
            ),
        ) <= 1,
    ensures
        ({
            let v = clamp(p.velocity.x as int, -p.velocity_cap.x, p.velocity_cap.x as int);
            let x1 = p.position.x + trunc_div(v, divisor(p.kind));
            next_x(p, bounds, None) == (abs(x1), -v)
        }),
{
    assert(next_acceleration(p, None).0 == 0);
}

/// Bound on the wide positions met while a step is computed.
const BOUND: i64 = 0x4_0000_0000;

fn trunc_div_i64(a: i64, d: i64) -> (r: i64)
    requires
        d > 0,
        a > i64::MIN,
    ensures
        r == trunc_div(a as int, d as int),
{
    if a >= 0 {
        a / d
    } else {
        -((-a) / d)
    }
}

/// One axis of `integrate`, on machine integers.
fn integrate_axis(pos: i32, vel: i32, acc: i64, cap: i32, d: i64) -> (r: (i64, i64))
    requires
        cap >= 0,
        d == 2 || d == 4,
        2 * (i32::MIN as int) <= acc <= 2 * (i32::MAX as int),
    ensures
        (r.0 as int, r.1 as int) == integrate(pos as int, vel as int, acc as int, cap as int, d as int),
        -cap <= r.1 <= cap,
        -BOUND <= r.0 <= BOUND,
{
    let sum: i64 = vel as i64 + acc;
    let c: i64 = cap as i64;
    let v: i64 = if sum < -c {
        -c
    } else if sum > c {
        c
    } else {
        sum
    };
    let step = trunc_div_i64(v, d);
    assert(-c <= step <= c) by {
        if v >= 0 {
            vstd::arithmetic::div_mod::lemma_div_is_ordered_by_denominator(v as int, 1, d as int);
        } else {
            vstd::arithmetic::div_mod::lemma_div_is_ordered_by_denominator(-v as int, 1, d as int);
        }
    }
    (pos as i64 + step, v)
}

/// One axis of `reflect_far`, on machine integers.
fn reflect_far_axis(pos: i64, vel: i64, pixels: i32, cells: u16) -> (r: (i64, i64))
    requires
        -BOUND <= pos <= BOUND,
        i32::MIN < vel <= i32::MAX,
    ensures
        (r.0 as int, r.1 as int) == reflect_far(pos as int, vel as int, pixels as int, cells as int),
        -4 * BOUND <= r.0 <= 4 * BOUND,
        i32::MIN < r.1 <= i32::MAX,
{
    if axis_to_cell(pos) as i64 >= cells as i64 - 1 {
        let off: i64 = pos - pixels as i64;
        let dist: i64 = if off < 0 { -off } else { off };
        (pixels as i64 - dist, -vel)
    } else {
        (pos, vel)
    }
}

/// One axis of `bounce_x`, on machine integers.
fn bounce_x_axis(pos: i64, vel: i64, pixels: i32, cells: u16) -> (r: (i64, i64))
    requires
        -BOUND <= pos <= BOUND,
        i32::MIN < vel <= i32::MAX,
    ensures
        (r.0 as int, r.1 as int) == bounce_x(pos as int, vel as int, pixels as int, cells as int),
{
    let near = axis_to_cell(pos) <= 1;
    let (p, v) = reflect_far_axis(pos, vel, pixels, cells);
    if near {
        (if p < 0 { -p } else { p }, -v)
    } else {
        (p, v)
    }
}

/// One axis of `bounce_y`, on machine integers.
fn bounce_y_axis(pos: i64, vel: i64, pixels: i32, cells: u16) -> (r: (i64, i64))
    requires
        -BOUND <= pos <= BOUND,
        i32::MIN < vel <= i32::MAX,
    ensures
        (r.0 as int, r.1 as int) == bounce_y(pos as int, vel as int, pixels as int, cells as int),
{
    let (p, v) = reflect_far_axis(pos, vel, pixels, cells);
    if p <= 1 {
        (if p < 0 { -p } else { p }, -v)
    } else {
        (p, v)
    }
}

fn fits_i64(v: i64) -> (r: bool)
    ensures
        r == fits_i32(v as int),
{
    i32::MIN as i64 <= v && v <= i32::MAX as i64
}

/// The rocket glyph for velocity `(vx, vy)`; see `rocket_glyph`.
fn heading_glyph(vx: i32, vy: i32) -> (r: char)
    ensures
        r == rocket_glyph(vx as int, vy as int),
{
    if vx == 0 && vy == 0 {
        return '•';
    }
    let a: u128 = if vx < 0 { (-(vx as i64)) as u128 } else { vx as u128 };
    let b: u128 = if vy < 0 { (-(vy as i64)) as u128 } else { vy as u128 };
    assert(a <= 0x8000_0000 && b <= 0x8000_0000);
    let s: u128 = a + b;
    assert(s * s <= 0x1_0000_0000 * 0x1_0000_0000) by (nonlinear_arith)
        requires
            s <= 0x1_0000_0000,
    ;
    assert(2 * a * a <= 2 * 0x8000_0000 * 0x8000_0000) by (nonlinear_arith)
        requires
            a <= 0x8000_0000,
    ;
    assert(2 * b * b <= 2 * 0x8000_0000 * 0x8000_0000) by (nonlinear_arith)
        requires
            b <= 0x8000_0000,
    ;
    let sq: u128 = s * s;
    if sq < 2 * a * a {
        if vx > 0 {
            '→'
        } else {
            '←'
        }
    } else if sq < 2 * b * b {
        if vy > 0 {
            '↓'
        } else {
            '↑'
        }
    } else if vx > 0 {
        if vy > 0 {
            '↘'
        } else {
            '↗'
        }
    } else {
        if vy > 0 {
            '↙'
        } else {
            '↖'
        }
    }
}

impl Particle {
    /// `next` is this particle after one tick with `boost` in `bounds`.
    pub open spec fn is_step(self, next: Particle, bounds: (i32, i32, u16, u16), boost: Option<Boost>) -> bool {
        &&& (next.acceleration.x as int, next.acceleration.y as int) == next_acceleration(self, boost)
        &&& next.fuel == next_fuel(self, boost)
        &&& (next.position.x as int, next.velocity.x as int) == next_x(self, bounds, boost)
        &&& (next.position.y as int, next.velocity.y as int) == next_y(self, bounds, boost)
        &&& next.uid == self.uid
        &&& next.color == self.color
        &&& next.kind == self.kind
        &&& next.velocity_cap == self.velocity_cap
    }

    /// The inputs on which `update` is defined: the velocity caps are not
    /// negative, and the new acceleration and position fit in `i32`.
    pub open spec fn update_defined(self, bounds: (i32, i32, u16, u16), boost: Option<Boost>) -> bool {
        &&& self.velocity_cap.x >= 0
        &&& self.velocity_cap.y >= 0
        &&& fits_i32(next_acceleration(self, boost).0)
        &&& fits_i32(next_acceleration(self, boost).1)
        &&& fits_i32(next_x(self, bounds, boost).0)
        &&& fits_i32(next_y(self, bounds, boost).0)
    }

    /// A particle with no identity yet, white, with full fuel; absent vectors
    /// are zero.
    pub fn new(
        position: Option<Coordinate>,
        velocity: Option<Coordinate>,
        acceleration: Option<Coordinate>,
        kind: ParticleType,
        velocity_cap: Coordinate,
    ) -> (r: Self)
        ensures
            r.uid == ParticleId(0),
            r.position == (match position {
                Some(c) => c,
                None => Coordinate { x: 0, y: 0 },
            }),
            r.velocity == (match velocity {
                Some(c) => c,
                None => Coordinate { x: 0, y: 0 },
            }),
            r.acceleration == (match acceleration {
                Some(c) => c,
                None => Coordinate { x: 0, y: 0 },
            }),
            r.color == Color::White,
            r.kind == kind,
            r.fuel == FULL_FUEL,
            r.velocity_cap == velocity_cap,
    {
        Self {
            uid: ParticleId(0),
            position: match position {
                Some(c) => c,
                None => Coordinate::new(0, 0),
            },
            velocity: match velocity {
                Some(c) => c,
                None => Coordinate::new(0, 0),
            },
            acceleration: match acceleration {
                Some(c) => c,
                None => Coordinate::new(0, 0),
            },
            color: Color::White,
            kind,
            fuel: FULL_FUEL,
            velocity_cap,
        }
    }

    pub fn get_position(&self) -> (r: Coordinate)
        ensures
            r == self.position,
    {
        self.position
    }

    pub fn set_color(&mut self, color: Color)
        ensures
            *final(self) == (Particle { color, ..*old(self) }),
    {
        self.color = color;
    }

    pub fn get_colors(&self) -> (r: ParticleColors)
        ensures
            r == colors_of(*self),
    {
        match self.kind {
            ParticleType::FuelCell => ParticleColors {
                foreground: Color::DarkBlue,
                background: Color::Yellow,
            },
            ParticleType::Rocket => ParticleColors { foreground: self.color, background: Color::Black },
        }
    }

    /// The sprite of this particle: one cell, at the anchor, with its glyph and
    /// foreground colour.
    pub fn get_particle_char(&self) -> (r: Sprite)
        ensures
            r.anchor == (ConsoleCell { x: 0, y: 0 }),
            r.cells@ == seq![(r.anchor, glyph_of(*self), colors_of(*self).foreground)],
    {
        let ch = match self.kind {
            ParticleType::Rocket => self.get_rocket_char(),
            ParticleType::FuelCell => 'F',
        };
        let anchor = ConsoleCell::new(0, 0);
        Sprite { anchor, cells: vec![(anchor, ch, self.get_colors().foreground)] }
    }

    fn get_rocket_char(&self) -> (r: char)
        ensures
            r == rocket_glyph(self.velocity.x as int, self.velocity.y as int),
    {
        heading_glyph(self.velocity.x, self.velocity.y)
    }

    /// The acceleration after this tick's boost, on wide integers.
    fn boosted_acceleration(&self, boost: Option<Boost>) -> (r: (i64, i64))
        ensures
            (r.0 as int, r.1 as int) == next_acceleration(*self, boost),
            2 * (i32::MIN as int) <= r.0 <= 2 * (i32::MAX as int),
            2 * (i32::MIN as int) <= r.1 <= 2 * (i32::MAX as int),
    {
        if self.fuel == 0 {
            (0, 0)
        } else {
            match boost {
                Some(Boost::Brake) => {
                    let b = braking_acceleration_from_velocity(self.velocity);
                    (b.x as i64, b.y as i64)
                },
                Some(Boost::Coordinate(d)) => (
                    self.acceleration.x as i64 + d.x as i64,
                    self.acceleration.y as i64 + d.y as i64,
                ),
                None => (0, 0),
            }
        }
    }

    /// The whole step on wide integers: acceleration, fuel, and position and
    /// velocity on each axis.
    fn advance(&self, bounds: (i32, i32, u16, u16), boost: Option<Boost>) -> (r: (
        (i64, i64),
        u16,
        (i64, i64),
        (i64, i64),
    ))
        requires
            self.velocity_cap.x >= 0,
            self.velocity_cap.y >= 0,
        ensures
            (r.0.0 as int, r.0.1 as int) == next_acceleration(*self, boost),
            r.1 == next_fuel(*self, boost),
            (r.2.0 as int, r.2.1 as int) == next_x(*self, bounds, boost),
            (r.3.0 as int, r.3.1 as int) == next_y(*self, bounds, boost),
    {
        let (pixel_width, pixel_height, cell_width, cell_height) = bounds;
        let acc = self.boosted_acceleration(boost);
        let fuel: u16 = if (acc.0 != 0 || acc.1 != 0) && self.fuel > 0 {
            self.fuel - 1
        } else {
            self.fuel
        };
        let d: i64 = match self.kind {
            ParticleType::FuelCell => 4,
            ParticleType::Rocket => 2,
        };
        let mx = integrate_axis(self.position.x, self.velocity.x, acc.0, self.velocity_cap.x, d);
        let my = integrate_axis(self.position.y, self.velocity.y, acc.1, self.velocity_cap.y, d);
        let x = bounce_x_axis(mx.0, mx.1, pixel_width, cell_width);
        let y = bounce_y_axis(my.0, my.1, pixel_height, cell_height);
        (acc, fuel, x, y)
    }

    /// Whether `update` is defined on these inputs (see `update_defined`).
    pub fn can_update(&self, bounds: (i32, i32, u16, u16), boost: Option<Boost>) -> (r: bool)
        ensures
            r == self.update_defined(bounds, boost),
    {
        if self.velocity_cap.x < 0 || self.velocity_cap.y < 0 {
            return false;
        }
        let (acc, _fuel, x, y) = self.advance(bounds, boost);
        fits_i64(acc.0) && fits_i64(acc.1) && fits_i64(x.0) && fits_i64(y.0)
    }

    /// One tick of motion: boost, fuel, velocity with its cap, position, and
    /// the bounce off the borders. `bounds` is the pixel width and height and
    /// the cell width and height of the grid.
    pub fn update(&mut self, bounds: (i32, i32, u16, u16), boost: Option<Boost>)
        requires
            old(self).update_defined(bounds, boost),
        ensures
            old(self).is_step(*final(self), bounds, boost),
            old(self).fuel == 0 ==> final(self).fuel == 0 && final(self).acceleration.x == 0
                && final(self).acceleration.y == 0,
    {
        let (acc, fuel, x, y) = self.advance(bounds, boost);
        self.acceleration = Coordinate::new(acc.0 as i32, acc.1 as i32);
        self.fuel = fuel;
        self.position = Coordinate::new(x.0 as i32, y.0 as i32);
        self.velocity = Coordinate::new(x.1 as i32, y.1 as i32);
    }
}

} // verus!
