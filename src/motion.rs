//! Accelerate, brake and clamp: the player's velocity from one frame to the next.
use vstd::prelude::*;

use crate::config::{ACCEL_RATE, PLAYER_SPEED};
use crate::isqrt::{
    ceil_sqrt, floor_sqrt, isqrt_ceil, isqrt_floor, lemma_ceil_sqrt, lemma_ceil_sqrt_le,
    lemma_square_monotone, lemma_square_strict,
};

verus! {

/// The movement keys held during a frame.
#[derive(Clone, Copy, Debug, PartialEq, Eq)]
pub struct HeldKeys {
    pub left: bool,
    pub right: bool,
    pub up: bool,
    pub down: bool,
}

/// One axis of the held direction: `-1`, `0` or `1`.
pub open spec fn axis(neg: bool, pos: bool) -> int {
    (if pos { 1int } else { 0int }) - (if neg { 1int } else { 0int })
}

impl HeldKeys {
    /// The held direction; opposite keys cancel.
    pub open spec fn dir(self) -> (int, int) {
        (axis(self.left, self.right), axis(self.down, self.up))
    }
}

/// The player's velocity, in millipixels per second.
#[derive(Clone, Copy, Debug, PartialEq, Eq)]
pub struct Velocity {
    pub x: i64,
    pub y: i64,
}

pub open spec fn norm_sq(v: (int, int)) -> int {
    v.0 * v.0 + v.1 * v.1
}

pub open spec fn abs(x: int) -> int {
    if x < 0 {
        -x
    } else {
        x
    }
}

/// `m` with the sign of `s`.
pub open spec fn with_sign(s: int, m: int) -> int {
    if s < 0 {
        -m
    } else {
        m
    }
}

pub open spec fn ceil_div(p: int, q: int) -> int {
    (p + q - 1) / q
}

/// The largest speed squared.
pub open spec fn max_speed_sq() -> int {
    PLAYER_SPEED * PLAYER_SPEED
}

/// Speed gained or lost in a frame of `dt_ms` milliseconds.
pub open spec fn frame_accel(dt_ms: int) -> int {
    ACCEL_RATE * dt_ms
}

/// The push of one frame along direction `d`: length `a` along an axis, and on
/// a diagonal `floor(a / sqrt 2)` on each axis.
pub open spec fn push(d: (int, int), a: int) -> (int, int) {
    if d.0 != 0 && d.1 != 0 {
        let c = floor_sqrt((a * a / 2) as nat) as int;
        (d.0 * c, d.1 * c)
    } else {
        (d.0 * a, d.1 * a)
    }
}

/// `w` shortened to length at most `m`: a longer vector is scaled by
/// `m / ceil_sqrt(|w|^2)`, each component rounded toward zero.
pub open spec fn clamp_length(w: (int, int), m: int) -> (int, int) {
    if norm_sq(w) <= m * m {
        w
    } else {
        let r = ceil_sqrt(norm_sq(w) as nat) as int;
        (with_sign(w.0, abs(w.0) * m / r), with_sign(w.1, abs(w.1) * m / r))
    }
}

/// `v` slowed by `a`. At a speed of at most `a` it stops; else each component
/// loses `ceil(|c| * a / ceil_sqrt(|v|^2))` of its size.
pub open spec fn brake(v: (int, int), a: int) -> (int, int) {
    if norm_sq(v) <= a * a {
        (0, 0)
    } else {
        let r = ceil_sqrt(norm_sq(v) as nat) as int;
        (
            with_sign(v.0, abs(v.0) - ceil_div(abs(v.0) * a, r)),
            with_sign(v.1, abs(v.1) - ceil_div(abs(v.1) * a, r)),
        )
    }
}

/// The velocity after a frame with direction `d` held and acceleration `a`:
/// with input, push and clamp to the largest speed; without, brake.
pub open spec fn next_velocity(v: (int, int), d: (int, int), a: int) -> (int, int) {
    if d.0 != 0 || d.1 != 0 {
        let p = push(d, a);
        clamp_length((v.0 + p.0, v.1 + p.1), PLAYER_SPEED as int)
    } else {
        brake(v, a)
    }
}

/// The velocity after coasting, with no key held, through frames of the given lengths.
pub open spec fn coast(v: (int, int), dts: Seq<u32>) -> (int, int)
    decreases dts.len(),
{
    if dts.len() == 0 {
        v
    } else {
        coast(next_velocity(v, (0, 0), frame_accel(dts[0] as int)), dts.subrange(1, dts.len() as int))
    }
}

/// Total length of the given frames.
pub open spec fn total_ms(dts: Seq<u32>) -> int
    decreases dts.len(),
{
    if dts.len() == 0 {
        0
    } else {
        dts[0] + total_ms(dts.subrange(1, dts.len() as int))
    }
}

impl Velocity {
    pub open spec fn view(self) -> (int, int) {
        (self.x as int, self.y as int)
    }

    /// Never faster than the largest speed.
    pub open spec fn wf(self) -> bool {
        norm_sq(self@) <= max_speed_sq()
    }

    /// At rest.
    pub fn new() -> (r: Self)
        ensures
            r@ == (0int, 0int),
            r.wf(),
    {
        Velocity { x: 0, y: 0 }
    }

    pub open spec fn is_moving_spec(&self) -> bool {
        self.x != 0 || self.y != 0
    }

    /// Whether any component is non-zero.
    #[verifier::when_used_as_spec(is_moving_spec)]
    pub fn is_moving(&self) -> (r: bool)
        ensures
            r == self.is_moving_spec(),
    {
        self.x != 0 || self.y != 0
    }
}

impl From<(i64, i64)> for Velocity {
    /// A velocity from its components, in millipixels per second.
    fn from(v: (i64, i64)) -> (r: Self) {
        Velocity { x: v.0, y: v.1 }
    }
}

impl vstd::std_specs::convert::FromSpecImpl<(i64, i64)> for Velocity {
    open spec fn obeys_from_spec() -> bool {
        true
    }

    open spec fn from_spec(v: (i64, i64)) -> Self {
        Velocity { x: v.0, y: v.1 }
    }
}

/// Whichever key of a pair is held: `-1`, `0` or `1`.
fn axis_of(neg: bool, pos: bool) -> (r: i64)
    ensures
        r == axis(neg, pos),
{
    let p: i64 = if pos { 1 } else { 0 };
    let n: i64 = if neg { 1 } else { 0 };
    p - n
}

fn abs_of(c: i64) -> (r: u128)
    ensures
        r == abs(c as int),
{
    if c < 0 {
        (-(c as i128)) as u128
    } else {
        c as u128
    }
}

proof fn lemma_square_root_bound(c: int, a: int)
    requires
        0 <= c,
        0 <= a,
        c * c <= a * a,
    ensures
        c <= a,
{
    if c > a {
        lemma_square_strict(a, c);
    }
}

proof fn lemma_component_bound(v: (int, int))
    ensures
        abs(v.0) * abs(v.0) <= norm_sq(v),
        abs(v.1) * abs(v.1) <= norm_sq(v),
        abs(v.0) * abs(v.0) == v.0 * v.0,
        abs(v.1) * abs(v.1) == v.1 * v.1,
{
    assert(v.0 * v.0 >= 0 && v.1 * v.1 >= 0) by (nonlinear_arith);
    assert(abs(v.0) * abs(v.0) == v.0 * v.0) by (nonlinear_arith);
    assert(abs(v.1) * abs(v.1) == v.1 * v.1) by (nonlinear_arith);
}

proof fn lemma_mul_le(x: int, y: int, p: int, q: int)
    requires
        0 <= x <= p,
        0 <= y <= q,
    ensures
        0 <= x * y <= p * q,
{
    assert(0 <= x * y <= p * q) by (nonlinear_arith)
        requires
            0 <= x <= p,
            0 <= y <= q,
    ;
}

proof fn lemma_with_sign_square(s: int, m: int)
    ensures
        with_sign(s, m) * with_sign(s, m) == m * m,
{
    assert((-m) * (-m) == m * m) by (nonlinear_arith);
}

/// Largest frame acceleration: a frame of `u32::MAX` milliseconds.
pub open spec fn max_frame_accel() -> int {
    ACCEL_RATE * 0xffff_ffff
}

/// `d * c` for a unit step `d`.
fn times_unit(d: i64, c: i64) -> (r: i64)
    requires
        -1 <= d <= 1,
        -0x1_0000_0000_0000 <= c <= 0x1_0000_0000_0000,
    ensures
        r == d * c,
        abs(r as int) <= abs(c as int),
{
    if d < 0 {
        assert(d == -1);
        -c
    } else if d > 0 {
        assert(d == 1);
        c
    } else {
        assert(d == 0);
        0
    }
}

/// The push of one frame, in exec form.
fn push_of(dx: i64, dy: i64, a: u64) -> (r: (i64, i64))
    requires
        -1 <= dx <= 1,
        -1 <= dy <= 1,
        a <= max_frame_accel(),
    ensures
        r.0 == push((dx as int, dy as int), a as int).0,
        r.1 == push((dx as int, dy as int), a as int).1,
        abs(r.0 as int) <= a,
        abs(r.1 as int) <= a,
{
    if dx != 0 && dy != 0 {
        proof {
            lemma_mul_le(a as int, a as int, max_frame_accel(), max_frame_accel());
        }
        let sq = (a as u128) * (a as u128) / 2;
        let c = isqrt_floor(sq);
        proof {
            assert(sq <= a * a);
            lemma_square_root_bound(c as int, a as int);
        }
        let c = c as i64;
        (times_unit(dx, c), times_unit(dy, c))
    } else {
        (times_unit(dx, a as i64), times_unit(dy, a as i64))
    }
}

/// `m` times `|c| / r`, rounded toward zero and given the sign of `c`.
fn scale_component(c: i64, m: u128, r: u128) -> (out: i64)
    requires
        0 < r <= 0x1_0000_0000_0000,
        abs(c as int) <= r,
        m <= PLAYER_SPEED,
    ensures
        out == with_sign(c as int, abs(c as int) * (m as int) / (r as int)),
{
    proof {
        lemma_mul_le(abs(c as int), m as int, 0x1_0000_0000_0000, PLAYER_SPEED as int);
    }
    let q = abs_of(c) * m / r;
    proof {
        let (ci, mi, ri) = (abs(c as int), m as int, r as int);
        assert(ci * mi <= ri * mi) by (nonlinear_arith)
            requires
                ci <= ri,
                0 <= mi,
        ;
        assert((ri * mi) / ri == mi) by (nonlinear_arith)
            requires
                ri > 0,
        ;
        vstd::arithmetic::div_mod::lemma_div_is_ordered(ci * mi, ri * mi, ri);
    }
    let q = q as i64;
    if c < 0 {
        -q
    } else {
        q
    }
}

/// The size of `c` less `ceil(|c| * a / r)`, with the sign of `c`.
fn brake_component(c: i64, a: u128, r: u128) -> (out: i64)
    requires
        0 <= a < r,
        abs(c as int) <= PLAYER_SPEED,
        r <= PLAYER_SPEED,
    ensures
        out == with_sign(c as int, abs(c as int) - ceil_div(abs(c as int) * a, r as int)),
        0 <= ceil_div(abs(c as int) * a, r as int) <= abs(c as int),
{
    let u = abs_of(c);
    proof {
        lemma_mul_le(u as int, a as int, PLAYER_SPEED as int, PLAYER_SPEED as int);
    }
    let d = (u * a + r - 1) / r;
    proof {
        let (ui, ai, ri) = (u as int, a as int, r as int);
        assert(ui * ai <= ui * ri) by (nonlinear_arith)
            requires
                ai < ri,
                0 <= ui,
        ;
        assert((ui * ai + ri - 1) / ri <= ui) by (nonlinear_arith)
            requires
                ui * ai <= ui * ri,
                ri > 0,
                0 <= ui,
        ;
        assert(0 <= (ui * ai + ri - 1) / ri) by (nonlinear_arith)
            requires
                ui * ai >= 0,
                ri > 0,
        ;
    }
    let m = (u - d) as i64;
    if c < 0 {
        -m
    } else {
        m
    }
}

/// Length squared of a vector, in exec form.
fn norm_sq_of(x: i64, y: i64) -> (r: u128)
    requires
        abs(x as int) <= 0x1_0000_0000_0000,
        abs(y as int) <= 0x1_0000_0000_0000,
    ensures
        r == norm_sq((x as int, y as int)),
{
    let ax = abs_of(x);
    let ay = abs_of(y);
    proof {
        lemma_component_bound((x as int, y as int));
        lemma_square_monotone(ax as int, 0x1_0000_0000_0000);
        lemma_square_monotone(ay as int, 0x1_0000_0000_0000);
    }
    ax * ax + ay * ay
}

/// `c * r <= u * m` carries over to squares.
proof fn lemma_scaled_square(c: int, r: int, u: int, m: int)
    requires
        0 <= c,
        0 <= u,
        0 <= m,
        0 < r,
        c * r <= u * m,
    ensures
        (c * c) * (r * r) <= (u * u) * (m * m),
{
    lemma_mul_le(c * r, c * r, u * m, u * m);
    assert((c * r) * (c * r) == (c * c) * (r * r)) by (nonlinear_arith);
    assert((u * m) * (u * m) == (u * u) * (m * m)) by (nonlinear_arith);
}

/// Two components bounded after scaling by `m / r` give a vector no longer than `m`,
/// when the unscaled vector was no longer than `r`.
proof fn lemma_scaled_sum(c0: int, c1: int, u0: int, u1: int, r: int, m: int)
    requires
        (c0 * c0) * (r * r) <= (u0 * u0) * (m * m),
        (c1 * c1) * (r * r) <= (u1 * u1) * (m * m),
        u0 * u0 + u1 * u1 <= r * r,
        0 < r,
        0 <= m,
    ensures
        c0 * c0 + c1 * c1 <= m * m,
{
    assert((c0 * c0 + c1 * c1) * (r * r) <= (u0 * u0 + u1 * u1) * (m * m)) by (nonlinear_arith)
        requires
            (c0 * c0) * (r * r) <= (u0 * u0) * (m * m),
            (c1 * c1) * (r * r) <= (u1 * u1) * (m * m),
    ;
    assert((u0 * u0 + u1 * u1) * (m * m) <= (r * r) * (m * m)) by (nonlinear_arith)
        requires
            u0 * u0 + u1 * u1 <= r * r,
    ;
    assert(c0 * c0 + c1 * c1 <= m * m) by (nonlinear_arith)
        requires
            (c0 * c0 + c1 * c1) * (r * r) <= (r * r) * (m * m),
            0 < r,
    ;
}

/// A clamped vector is no longer than the bound.
pub proof fn lemma_clamp_length_bounded(w: (int, int), m: int)
    requires
        m > 0,
    ensures
        norm_sq(clamp_length(w, m)) <= m * m,
{
    let n = norm_sq(w);
    if n > m * m {
        let r = ceil_sqrt(n as nat) as int;
        lemma_ceil_sqrt(n as nat);
        lemma_ceil_sqrt_le(n as nat, m as nat);
        lemma_component_bound(w);
        let a0 = abs(w.0);
        let a1 = abs(w.1);
        let c0 = a0 * m / r;
        let c1 = a1 * m / r;
        assert(0 <= c0 && c0 * r <= a0 * m) by (nonlinear_arith)
            requires
                c0 == a0 * m / r,
                r > 0,
                a0 >= 0,
                m > 0,
        ;
        assert(0 <= c1 && c1 * r <= a1 * m) by (nonlinear_arith)
            requires
                c1 == a1 * m / r,
                r > 0,
                a1 >= 0,
                m > 0,
        ;
        lemma_scaled_square(c0, r, a0, m);
        lemma_scaled_square(c1, r, a1, m);
        lemma_scaled_sum(c0, c1, a0, a1, r, m);
        lemma_with_sign_square(w.0, c0);
        lemma_with_sign_square(w.1, c1);
    }
}

/// Braking never speeds up; past a speed of `a` it takes at least `a` off the
/// speed rounded up, and below that it stops.
pub proof fn lemma_brake(v: (int, int), a: int)
    requires
        a >= 0,
    ensures
        norm_sq(brake(v, a)) <= norm_sq(v),
        norm_sq(v) <= a * a ==> brake(v, a) == (0int, 0int),
        norm_sq(v) > a * a ==> ceil_sqrt(norm_sq(brake(v, a)) as nat) + a <= ceil_sqrt(
            norm_sq(v) as nat,
        ),
{
    let n = norm_sq(v);
    lemma_component_bound(v);
    if n > a * a {
        let r = ceil_sqrt(n as nat) as int;
        lemma_ceil_sqrt(n as nat);
        lemma_ceil_sqrt_le(n as nat, a as nat);
        let u0 = abs(v.0);
        let u1 = abs(v.1);
        let d0 = ceil_div(u0 * a, r);
        let d1 = ceil_div(u1 * a, r);
        assert(d0 * r >= u0 * a && d0 <= u0 && d0 >= 0) by (nonlinear_arith)
            requires
                d0 == (u0 * a + r - 1) / r,
                r > a,
                a >= 0,
                u0 >= 0,
        ;
        assert(d1 * r >= u1 * a && d1 <= u1 && d1 >= 0) by (nonlinear_arith)
            requires
                d1 == (u1 * a + r - 1) / r,
                r > a,
                a >= 0,
                u1 >= 0,
        ;
        let e0 = u0 - d0;
        let e1 = u1 - d1;
        let out = brake(v, a);
        lemma_with_sign_square(v.0, e0);
        lemma_with_sign_square(v.1, e1);
        lemma_square_monotone(e0, u0);
        lemma_square_monotone(e1, u1);
        assert(e0 * r <= u0 * (r - a)) by (nonlinear_arith)
            requires
                d0 * r >= u0 * a,
                e0 == u0 - d0,
        ;
        assert(e1 * r <= u1 * (r - a)) by (nonlinear_arith)
            requires
                d1 * r >= u1 * a,
                e1 == u1 - d1,
        ;
        lemma_scaled_square(e0, r, u0, r - a);
        lemma_scaled_square(e1, r, u1, r - a);
        lemma_scaled_sum(e0, e1, u0, u1, r, r - a);
        lemma_ceil_sqrt_le(norm_sq(out) as nat, (r - a) as nat);
    }
}

/// The velocity after one frame of `dt_ms` milliseconds with `keys` held.
pub fn next_frame_velocity(v: Velocity, keys: HeldKeys, dt_ms: u32) -> (r: Velocity)
    requires
        v.wf(),
    ensures
        r@ == next_velocity(v@, keys.dir(), frame_accel(dt_ms as int)),
        r.wf(),
{
    let dx = axis_of(keys.left, keys.right);
    let dy = axis_of(keys.down, keys.up);
    let a: u64 = ACCEL_RATE * (dt_ms as u64);
    proof {
        lemma_component_bound(v@);
        lemma_square_root_bound(abs(v.x as int), PLAYER_SPEED as int);
        lemma_square_root_bound(abs(v.y as int), PLAYER_SPEED as int);
    }
    if dx != 0 || dy != 0 {
        let p = push_of(dx, dy, a);
        let wx = v.x + p.0;
        let wy = v.y + p.1;
        let n = norm_sq_of(wx, wy);
        let m: u128 = PLAYER_SPEED as u128;
        proof {
            lemma_clamp_length_bounded((wx as int, wy as int), PLAYER_SPEED as int);
        }
        if n <= m * m {
            Velocity { x: wx, y: wy }
        } else {
            let r = isqrt_ceil(n);
            proof {
                lemma_ceil_sqrt(n as nat);
                lemma_ceil_sqrt_le(n as nat, PLAYER_SPEED as nat);
                lemma_component_bound((wx as int, wy as int));
                lemma_square_root_bound(abs(wx as int), r as int);
                lemma_square_root_bound(abs(wy as int), r as int);
                lemma_square_monotone(abs(wx as int), 0x4000_0000_0000);
                lemma_square_monotone(abs(wy as int), 0x4000_0000_0000);
                lemma_ceil_sqrt_le(n as nat, 0x1_0000_0000_0000);
            }
            Velocity { x: scale_component(wx, m, r), y: scale_component(wy, m, r) }
        }
    } else {
        let n = norm_sq_of(v.x, v.y);
        proof {
            lemma_brake(v@, a as int);
        }
        proof {
            lemma_mul_le(a as int, a as int, max_frame_accel(), max_frame_accel());
        }
        if n <= (a as u128) * (a as u128) {
            Velocity { x: 0, y: 0 }
        } else {
            let r = isqrt_ceil(n);
            proof {
                lemma_ceil_sqrt_le(n as nat, a as nat);
                lemma_ceil_sqrt_le(n as nat, PLAYER_SPEED as nat);
            }
            Velocity {
                x: brake_component(v.x, a as u128, r),
                y: brake_component(v.y, a as u128, r),
            }
        }
    }
}

/// Whatever keys are held and however long the frame, the velocity after it is
/// no faster than the largest speed.
pub proof fn lemma_speed_never_exceeds_max(v: Velocity, keys: HeldKeys, dt_ms: u32)
    requires
        v.wf(),
    ensures
        norm_sq(next_velocity(v@, keys.dir(), frame_accel(dt_ms as int))) <= max_speed_sq(),
{
    let d = keys.dir();
    if d.0 != 0 || d.1 != 0 {
        let p = push(d, frame_accel(dt_ms as int));
        lemma_clamp_length_bounded((v.x + p.0, v.y + p.1), PLAYER_SPEED as int);
    } else {
        lemma_brake(v@, frame_accel(dt_ms as int));
    }
}

proof fn lemma_coast_from_rest(dts: Seq<u32>)
    ensures
        coast((0, 0), dts) == (0int, 0int),
    decreases dts.len(),
{
    if dts.len() > 0 {
        assert(0int * 0int + 0int * 0int == 0);
        assert(frame_accel(dts[0] as int) >= 0);
        assert(0 <= frame_accel(dts[0] as int) * frame_accel(dts[0] as int)) by (nonlinear_arith);
        lemma_coast_from_rest(dts.subrange(1, dts.len() as int));
    }
}

/// Coasting takes `ACCEL_RATE` off the speed, rounded up, for each millisecond,
/// and stops once that would leave nothing.
proof fn lemma_coast_slows(v: (int, int), dts: Seq<u32>)
    ensures
        total_ms(dts) >= 0,
        ACCEL_RATE * total_ms(dts) >= ceil_sqrt(norm_sq(v) as nat) ==> coast(v, dts) == (
        0int,
        0int,
        ),
        ACCEL_RATE * total_ms(dts) < ceil_sqrt(norm_sq(v) as nat) ==> ceil_sqrt(
            norm_sq(coast(v, dts)) as nat,
        ) + ACCEL_RATE * total_ms(dts) <= ceil_sqrt(norm_sq(v) as nat),
    decreases dts.len(),
{
    let n = norm_sq(v);
    lemma_component_bound(v);
    if dts.len() == 0 {
        if ceil_sqrt(n as nat) == 0 {
            lemma_ceil_sqrt_le(n as nat, 0);
            assert(v.0 * v.0 >= 0 && v.1 * v.1 >= 0) by (nonlinear_arith);
            assert(v.0 == 0) by (nonlinear_arith)
                requires
                    v.0 * v.0 == 0,
            ;
            assert(v.1 == 0) by (nonlinear_arith)
                requires
                    v.1 * v.1 == 0,
            ;
        }
    } else {
        let a = frame_accel(dts[0] as int);
        let rest = dts.subrange(1, dts.len() as int);
        let v1 = brake(v, a);
        assert(next_velocity(v, (0, 0), a) == v1);
        lemma_coast_slows(v1, rest);
        lemma_brake(v, a);
        lemma_ceil_sqrt_le(n as nat, a as nat);
        if n <= a * a {
            lemma_coast_from_rest(rest);
        } else {
            lemma_ceil_sqrt_le(0, 0);
        }
    }
}

/// With no key held, a velocity no faster than the largest speed comes to
/// exactly zero once the frames add up to `PLAYER_SPEED / ACCEL_RATE`
/// milliseconds or more.
pub proof fn lemma_coasting_stops(v: Velocity, dts: Seq<u32>)
    requires
        v.wf(),
        ACCEL_RATE * total_ms(dts) >= PLAYER_SPEED,
    ensures
        coast(v@, dts) == (0int, 0int),
{
    let n = norm_sq(v@);
    lemma_component_bound(v@);
    assert(n >= 0);
    assert(n <= (PLAYER_SPEED as nat) * (PLAYER_SPEED as nat));
    lemma_ceil_sqrt_le(n as nat, PLAYER_SPEED as nat);
    assert(ceil_sqrt(n as nat) <= PLAYER_SPEED);
    lemma_coast_slows(v@, dts);
}

} // verus!
