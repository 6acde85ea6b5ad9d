//! The player's position, its per-frame movement, the camera that follows it,
//! and the signal raised at the end of the level.
use vstd::prelude::*;

use crate::config::{CAMERA_MAX_X, MAX_X, MAX_Y, MIN_X, MIN_Y, PLAYER_SPEED, WIN_X};
use crate::flow::{apply, listen, GameFlow, GameState, WinEvents};
use crate::motion::{
    frame_accel, lemma_speed_never_exceeds_max, max_speed_sq, next_frame_velocity,
    next_velocity, norm_sq, HeldKeys, Velocity,
};

verus! {

/// `x` limited to `[lo, hi]`.
pub open spec fn clamp(x: int, lo: int, hi: int) -> int {
    if x < lo {
        lo
    } else if x > hi {
        hi
    } else {
        x
    }
}

/// Whether a centre lies inside the area the player may occupy.
pub open spec fn in_bounds(p: (int, int)) -> bool {
    MIN_X <= p.0 <= MAX_X && MIN_Y <= p.1 <= MAX_Y
}

/// The position after moving at `v` for `dt_ms` milliseconds, limited to the
/// player's area on each axis.
pub open spec fn next_position(p: (int, int), v: (int, int), dt_ms: int) -> (int, int) {
    (clamp(p.0 + v.0 * dt_ms, MIN_X as int, MAX_X as int), clamp(p.1 + v.1 * dt_ms, MIN_Y as int, MAX_Y as int))
}

/// The Win signal after a move that leaves the player at `x`, given whether
/// it was raised before.
pub open spec fn win_signal(raised: bool, x: int) -> bool {
    raised || x > WIN_X
}

/// Position and velocity of the player.
pub type Motion = ((int, int), (int, int));

/// One frame of movement: the velocity is updated first, the position moves by the new velocity.
pub open spec fn step(m: Motion, keys: HeldKeys, dt_ms: u32) -> Motion {
    let v = next_velocity(m.1, keys.dir(), frame_accel(dt_ms as int));
    (next_position(m.0, v, dt_ms as int), v)
}

/// The motion after the given frames, one pair of held keys and frame length each.
pub open spec fn run(m: Motion, frames: Seq<(HeldKeys, u32)>) -> Motion
    decreases frames.len(),
{
    if frames.len() == 0 {
        m
    } else {
        run(step(m, frames[0].0, frames[0].1), frames.subrange(1, frames.len() as int))
    }
}

/// The player: centre in micropixels and velocity.
#[derive(Clone, Copy, Debug, PartialEq, Eq)]
pub struct Player {
    pub x: i64,
    pub y: i64,
    pub velocity: Velocity,
}

impl Player {
    pub open spec fn position(self) -> (int, int) {
        (self.x as int, self.y as int)
    }

    pub open spec fn motion(self) -> Motion {
        (self.position(), self.velocity@)
    }

    /// Inside the area and no faster than the largest speed.
    pub open spec fn wf(self) -> bool {
        in_bounds(self.position()) && self.velocity.wf()
    }

    /// The player at the start of the level: at rest, standing on the bricks at `x = 0`.
    pub fn spawn() -> (r: Self)
        ensures
            r.x == 0,
            r.y == MIN_Y,
            r.velocity@ == (0int, 0int),
            r.wf(),
    {
        Player { x: 0, y: MIN_Y, velocity: Velocity::new() }
    }
}

fn clamp_i64(x: i64, lo: i64, hi: i64) -> (r: i64)
    requires
        lo <= hi,
    ensures
        r == clamp(x as int, lo as int, hi as int),
{
    if x < lo {
        lo
    } else if x > hi {
        hi
    } else {
        x
    }
}

/// Moves `c` by `v * dt_ms` and clamps it to `[lo, hi]`.
fn advance(c: i64, v: i64, dt_ms: u32, lo: i64, hi: i64) -> (r: i64)
    requires
        MIN_X <= lo <= c <= hi <= MAX_X,
        -PLAYER_SPEED <= v <= PLAYER_SPEED,
    ensures
        r == clamp(c + v * dt_ms, lo as int, hi as int),
{
    proof {
        assert(-PLAYER_SPEED * 0xffff_ffff <= v * dt_ms <= PLAYER_SPEED * 0xffff_ffff) by (nonlinear_arith)
            requires
                -PLAYER_SPEED <= v <= PLAYER_SPEED,
                0 <= dt_ms <= 0xffff_ffff,
        ;
    }
    let moved = c + v * (dt_ms as i64);
    clamp_i64(moved, lo, hi)
}

proof fn lemma_component_speed(v: (int, int))
    requires
        norm_sq(v) <= max_speed_sq(),
    ensures
        -PLAYER_SPEED <= v.0 <= PLAYER_SPEED,
        -PLAYER_SPEED <= v.1 <= PLAYER_SPEED,
{
    let (x, y, m) = (v.0, v.1, PLAYER_SPEED as int);
    assert(x * x + y * y <= m * m);
    assert(-m <= x <= m && -m <= y <= m) by (nonlinear_arith)
        requires
            x * x + y * y <= m * m,
            m > 0,
    ;
}

/// One frame of play: updates the velocity from the held keys, moves the
/// player within its area, and raises the Win signal when the player stands
/// right of `WIN_X`.
pub fn move_player(player: &mut Player, keys: HeldKeys, dt_ms: u32, win_event: &mut WinEvents)
    requires
        old(player).wf(),
    ensures
        final(player).wf(),
        final(player).motion() == step(old(player).motion(), keys, dt_ms),
        final(win_event).raised == win_signal(old(win_event).raised, final(player).x as int),
{
    let v = next_frame_velocity(player.velocity, keys, dt_ms);
    proof {
        lemma_component_speed(v@);
    }
    player.velocity = v;
    player.x = advance(player.x, v.x, dt_ms, MIN_X, MAX_X);
    player.y = advance(player.y, v.y, dt_ms, MIN_Y, MAX_Y);
    if player.x > WIN_X {
        win_event.send();
    }
}

/// The camera's horizontal position: the player's, kept where the view stays
/// inside the level.
pub fn camera_x(player_x: i64) -> (r: i64)
    ensures
        r == clamp(player_x as int, 0, CAMERA_MAX_X as int),
{
    clamp_i64(player_x, 0, CAMERA_MAX_X)
}

/// Whatever keys are held for however long, after every frame the player
/// stands inside its area and is no faster than the largest speed.
pub proof fn lemma_moves_stay_in_bounds(p: Player, frames: Seq<(HeldKeys, u32)>)
    requires
        p.wf(),
    ensures
        forall|k: int|
            0 <= k <= frames.len() ==> {
                let m = #[trigger] run(p.motion(), frames.take(k));
                in_bounds(m.0) && norm_sq(m.1) <= max_speed_sq()
            },
    decreases frames.len(),
{
    assert forall|k: int| 0 <= k <= frames.len() implies {
        let m = #[trigger] run(p.motion(), frames.take(k));
        in_bounds(m.0) && norm_sq(m.1) <= max_speed_sq()
    } by {
        if k > 0 {
            let (keys, dt) = frames[0];
            let v = next_velocity(p.velocity@, keys.dir(), frame_accel(dt as int));
            lemma_speed_never_exceeds_max(p.velocity, keys, dt);
            lemma_component_speed(v);
            let pos = next_position(p.position(), v, dt as int);
            let q = Player { x: pos.0 as i64, y: pos.1 as i64, velocity: Velocity { x: v.0 as i64, y: v.1 as i64 } };
            assert(q.motion() == step(p.motion(), keys, dt));
            let rest = frames.subrange(1, frames.len() as int);
            lemma_moves_stay_in_bounds(q, rest);
            assert(frames.take(k).subrange(1, k) =~= rest.take(k - 1));
            assert(run(p.motion(), frames.take(k)) == run(q.motion(), rest.take(k - 1)));
        } else {
            assert(frames.take(0).len() == 0);
        }
    }
}

/// In play, a frame's move raises the Win signal exactly when it leaves the
/// player right of `WIN_X`, and the game is in `Win` after the listener and
/// the next state update exactly then; otherwise play goes on.
pub proof fn lemma_win_on_crossing(p: Player, keys: HeldKeys, dt_ms: u32, flow: GameFlow)
    requires
        p.wf(),
        flow.current == GameState::Playing,
        flow.next.is_none(),
    ensures
        ({
            let x = step(p.motion(), keys, dt_ms).0.0;
            &&& win_signal(false, x) == (x > WIN_X)
            &&& apply(listen(flow, win_signal(false, x))).current == if x > WIN_X {
                GameState::Win
            } else {
                GameState::Playing
            }
        }),
{
}

} // verus!
