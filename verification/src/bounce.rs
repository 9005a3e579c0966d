//! The bounce handler: reflects each ball off the arena walls and the
//! paddles, keeps the hit streak and the sprite tier, and reports the
//! bounce sounds to play.

use vstd::prelude::*;

use crate::pong::{Ball, BallModel, Config, Paddle, Side, Sound};

verus! {

/// Magnitude of an integer.
pub open spec fn mag(v: int) -> int {
    if v >= 0 {
        v
    } else {
        -v
    }
}

/// A point is in a box when its coordinates are smaller or equal than the
/// top right corner and larger or equal than the bottom left one.
pub open spec fn point_in_rect_spec(x: int, y: int, left: int, bottom: int, right: int, top: int) -> bool {
    left <= x <= right && bottom <= y <= top
}

pub fn point_in_rect(x: i64, y: i64, left: i64, bottom: i64, right: i64, top: i64) -> (r: bool)
    ensures
        r == point_in_rect_spec(x as int, y as int, left as int, bottom as int, right as int, top as int),
{
    x >= left && x <= right && y >= bottom && y <= top
}

/// The ball sits at or past the top or bottom boundary and still moves
/// further out: only then is the vertical velocity inverted, so a ball
/// lingering in the boundary zone is not flipped again on the next tick.
pub open spec fn wall_bounce(b: BallModel, cfg: Config) -> bool {
    ||| b.y <= b.radius && b.velocity_y < 0
    ||| b.y >= cfg.arena_height - b.radius && b.velocity_y > 0
}

/// The wall response alone: the vertical velocity inverted when
/// [`wall_bounce`] holds, everything else untouched.
pub open spec fn wall_step(b: BallModel, cfg: Config) -> BallModel {
    if wall_bounce(b, cfg) {
        BallModel { velocity_y: -b.velocity_y, ..b }
    } else {
        b
    }
}

/// The ball's center lies within the paddle's rectangle dilated outward by
/// the ball's radius on all four sides (inclusive on every edge). The
/// paddle's position is its center, so half the extents are taken off to
/// reach the lower-left corner first.
pub open spec fn in_dilated_rect(b: BallModel, p: Paddle) -> bool {
    let left = p.x - p.width as int / 2;
    let bottom = p.y - p.height as int / 2;
    point_in_rect_spec(
        b.x,
        b.y,
        left - b.radius,
        bottom - b.radius,
        left + p.width + b.radius,
        bottom + p.height + b.radius,
    )
}

/// Moving toward the paddle's side: leftward into a Left paddle,
/// rightward into a Right paddle.
pub open spec fn moving_toward(b: BallModel, p: Paddle) -> bool {
    ||| p.side == Side::Left && b.velocity_x < 0
    ||| p.side == Side::Right && b.velocity_x > 0
}

/// A paddle hit responds only when the ball overlaps the dilated rectangle
/// and travels toward the paddle.
pub open spec fn hit_applies(b: BallModel, p: Paddle) -> bool {
    in_dilated_rect(b, p) && moving_toward(b, p)
}

/// Sign-preserving scaling of a velocity component by `num / den`,
/// truncating the magnitude.
pub open spec fn scale_spec(v: int, num: int, den: int) -> int {
    if v >= 0 {
        v * num / den
    } else {
        -((-v) * num / den)
    }
}

/// One paddle hit: the horizontal velocity is inverted and then scaled up
/// by the speedup factor, the hit streak grows by one, and every fourth
/// hit of the streak advances the sprite tier, capped at tier 4.
pub open spec fn apply_hit(b: BallModel, cfg: Config) -> BallModel {
    let hits = b.consecutive_hits + 1;
    let sprite = if hits % 4 == 3 && b.sprite_number < 4 {
        b.sprite_number + 1
    } else {
        b.sprite_number
    };
    BallModel {
        velocity_x: scale_spec(-b.velocity_x, cfg.speedup_num as int, cfg.speedup_den as int),
        consecutive_hits: hits,
        sprite_number: sprite,
        ..b
    }
}

/// The machine-size room one paddle hit needs: the horizontal velocity can
/// be negated, its scaled magnitude still fits `i64`, and the hit counter
/// is not at its ceiling.
pub open spec fn hit_fits(b: BallModel, cfg: Config) -> bool {
    &&& i64::MIN < b.velocity_x
    &&& mag(b.velocity_x) * cfg.speedup_num <= i64::MAX
    &&& b.consecutive_hits + 1 <= u64::MAX
}

/// Paddles are visited in order; each hit that applies feeds the updated
/// ball into the test against the next paddle.
pub open spec fn paddle_bounce(b: BallModel, paddles: Seq<Paddle>, cfg: Config) -> BallModel
    decreases paddles.len(),
{
    if paddles.len() == 0 {
        b
    } else {
        let b1 = if hit_applies(b, paddles[0]) {
            apply_hit(b, cfg)
        } else {
            b
        };
        paddle_bounce(b1, paddles.skip(1), cfg)
    }
}

/// Every intermediate state along the paddle pass has room for its hit.
pub open spec fn paddle_bounce_fits(b: BallModel, paddles: Seq<Paddle>, cfg: Config) -> bool
    decreases paddles.len(),
{
    if paddles.len() == 0 {
        true
    } else if hit_applies(b, paddles[0]) {
        hit_fits(b, cfg) && paddle_bounce_fits(apply_hit(b, cfg), paddles.skip(1), cfg)
    } else {
        paddle_bounce_fits(b, paddles.skip(1), cfg)
    }
}

/// How many paddle hits the pass triggers, which is also how many bounce
/// sounds it emits.
pub open spec fn paddle_hit_count(b: BallModel, paddles: Seq<Paddle>, cfg: Config) -> int
    decreases paddles.len(),
{
    if paddles.len() == 0 {
        0
    } else if hit_applies(b, paddles[0]) {
        1 + paddle_hit_count(apply_hit(b, cfg), paddles.skip(1), cfg)
    } else {
        paddle_hit_count(b, paddles.skip(1), cfg)
    }
}

/// One bounce-handler tick for one ball: the wall response, then the
/// paddle pass. Both can respond in the same tick.
pub open spec fn bounce_step(b: BallModel, paddles: Seq<Paddle>, cfg: Config) -> BallModel {
    paddle_bounce(wall_step(b, cfg), paddles, cfg)
}

/// The room one whole tick needs for one ball.
pub open spec fn bounce_step_fits(b: BallModel, paddles: Seq<Paddle>, cfg: Config) -> bool {
    paddle_bounce_fits(wall_step(b, cfg), paddles, cfg)
}

/// How many bounce sounds one tick emits for one ball: one for the wall,
/// one per paddle hit.
pub open spec fn ball_bounce_sounds(b: BallModel, paddles: Seq<Paddle>, cfg: Config) -> int {
    (if wall_bounce(b, cfg) {
        1int
    } else {
        0int
    }) + paddle_hit_count(wall_step(b, cfg), paddles, cfg)
}

fn scale_velocity(v: i64, cfg: &Config) -> (r: i64)
    requires
        cfg.wf(),
        i64::MIN < v,
        mag(v as int) * cfg.speedup_num <= i64::MAX,
    ensures
        r == scale_spec(v as int, cfg.speedup_num as int, cfg.speedup_den as int),
        mag(r as int) <= mag(v as int) * cfg.speedup_num,
{
    proof {
        assert(mag(v as int) * cfg.speedup_num / cfg.speedup_den as int <= mag(v as int)
            * cfg.speedup_num && 0 <= mag(v as int) * cfg.speedup_num / cfg.speedup_den as int)
            by (nonlinear_arith)
            requires
                1 <= cfg.speedup_den,
                0 <= mag(v as int) * cfg.speedup_num,
        ;
    }
    if v >= 0 {
        let prod: i64 = v * (cfg.speedup_num as i64);
        prod / (cfg.speedup_den as i64)
    } else {
        let m: i64 = -v;
        let prod: i64 = m * (cfg.speedup_num as i64);
        -(prod / (cfg.speedup_den as i64))
    }
}

/// One bounce-handler tick for one ball, pushing a [`Sound::Bounce`] per
/// wall bounce and per paddle hit.
pub fn bounce_ball(ball: &mut Ball, paddles: &Vec<Paddle>, cfg: &Config, sounds: &mut Vec<Sound>)
    requires
        cfg.wf(),
        old(ball).wf(),
        forall|i: int| 0 <= i < paddles@.len() ==> (#[trigger] paddles@[i]).wf(),
        bounce_step_fits(old(ball)@, paddles@, *cfg),
    ensures
        final(ball)@ == bounce_step(old(ball)@, paddles@, *cfg),
        final(ball).wf(),
        final(sounds)@.len() == old(sounds)@.len() + ball_bounce_sounds(old(ball)@, paddles@, *cfg),
        forall|i: int| 0 <= i < old(sounds)@.len() ==> final(sounds)@[i] == old(sounds)@[i],
        forall|i: int|
            old(sounds)@.len() <= i < final(sounds)@.len() ==> final(sounds)@[i] == Sound::Bounce,
{
    // Bounce at the top or the bottom of the arena; the direction check
    // keeps the ball from being flipped twice while it stays in the zone.
    if (ball.y <= ball.radius && ball.velocity_y < 0)
        || (ball.y >= cfg.arena_height - ball.radius && ball.velocity_y > 0) {
        ball.velocity_y = -ball.velocity_y;
        sounds.push(Sound::Bounce);
    }
    assert(ball@ == wall_step(old(ball)@, *cfg));

    let ghost all = paddles@;
    proof {
        assert(all.skip(0) =~= all);
    }
    let mut i: usize = 0;
    while i < paddles.len()
        invariant
            cfg.wf(),
            ball.wf(),
            all == paddles@,
            i <= all.len(),
            forall|k: int| 0 <= k < all.len() ==> (#[trigger] all[k]).wf(),
            ball.x == old(ball).x,
            ball.y == old(ball).y,
            ball.radius == old(ball).radius,
            paddle_bounce_fits(ball@, all.skip(i as int), *cfg),
            paddle_bounce(ball@, all.skip(i as int), *cfg) == bounce_step(old(ball)@, paddles@, *cfg),
            old(sounds)@.len() <= sounds@.len(),
            sounds@.len() + paddle_hit_count(ball@, all.skip(i as int), *cfg) == old(sounds)@.len()
                + ball_bounce_sounds(old(ball)@, paddles@, *cfg),
            forall|k: int| 0 <= k < old(sounds)@.len() ==> sounds@[k] == old(sounds)@[k],
            forall|k: int| old(sounds)@.len() <= k < sounds@.len() ==> sounds@[k] == Sound::Bounce,
        decreases all.len() - i,
    {
        let ghost rest = all.skip(i as int);
        assert(rest[0] == all[i as int]);
        let p = paddles[i];
        let paddle_x = p.x - p.width / 2;
        let paddle_y = p.y - p.height / 2;

        // The ball collides with the paddle when its center is within the
        // paddle's rectangle grown by the ball radius on every side.
        if point_in_rect(
            ball.x,
            ball.y,
            paddle_x - ball.radius,
            paddle_y - ball.radius,
            paddle_x + p.width + ball.radius,
            paddle_y + p.height + ball.radius,
        ) {
            if (matches!(p.side, Side::Left) && ball.velocity_x < 0)
                || (matches!(p.side, Side::Right) && ball.velocity_x > 0) {
                assert(hit_applies(ball@, all[i as int]));
                assert(hit_fits(ball@, *cfg));
                let ghost before = ball@;
                ball.velocity_x = -ball.velocity_x;
                ball.consecutive_hits = ball.consecutive_hits + 1;

                // Advance the sprite tier on every fourth hit of the
                // streak, never past tier 4.
                if ball.consecutive_hits % 4 == 3 && ball.sprite_number < 4 {
                    ball.sprite_number = ball.sprite_number + 1;
                }

                // The ball speeds up every time a paddle returns it.
                ball.velocity_x = scale_velocity(ball.velocity_x, cfg);
                sounds.push(Sound::Bounce);
                assert(ball@ == apply_hit(before, *cfg));
            }
        }
        proof {
            assert(all.skip(i as int).skip(1) =~= all.skip(i as int + 1));
        }
        i = i + 1;
    }
}

/// How many bounce sounds one tick emits over a whole set of balls.
pub open spec fn total_bounce_sounds(balls: Seq<Ball>, paddles: Seq<Paddle>, cfg: Config) -> int
    decreases balls.len(),
{
    if balls.len() == 0 {
        0
    } else {
        ball_bounce_sounds(balls[0]@, paddles, cfg) + total_bounce_sounds(
            balls.skip(1),
            paddles,
            cfg,
        )
    }
}

/// The per-tick bounce handler. The host engine owns the entities; it
/// hands their current state in and plays back the returned sounds.
pub struct BounceSystem;

impl BounceSystem {
    /// One tick: every ball takes one [`bounce_step`] against the shared
    /// paddle set, and one [`Sound::Bounce`] is returned per wall bounce
    /// and per paddle hit, in ball order.
    pub fn run(&mut self, balls: &mut Vec<Ball>, paddles: &Vec<Paddle>, cfg: &Config) -> (sounds:
        Vec<Sound>)
        requires
            cfg.wf(),
            forall|i: int| 0 <= i < old(balls)@.len() ==> (#[trigger] old(balls)@[i]).wf(),
            forall|i: int| 0 <= i < paddles@.len() ==> (#[trigger] paddles@[i]).wf(),
            forall|i: int|
                0 <= i < old(balls)@.len() ==> bounce_step_fits(
                    (#[trigger] old(balls)@[i])@,
                    paddles@,
                    *cfg,
                ),
        ensures
            final(balls)@.len() == old(balls)@.len(),
            forall|i: int|
                0 <= i < old(balls)@.len() ==> (#[trigger] final(balls)@[i])@ == bounce_step(
                    old(balls)@[i]@,
                    paddles@,
                    *cfg,
                ),
            forall|i: int| 0 <= i < final(balls)@.len() ==> (#[trigger] final(balls)@[i]).wf(),
            sounds@.len() == total_bounce_sounds(old(balls)@, paddles@, *cfg),
            forall|i: int| 0 <= i < sounds@.len() ==> sounds@[i] == Sound::Bounce,
    {
        let mut sounds: Vec<Sound> = Vec::new();
        let ghost orig = balls@;
        proof {
            assert(orig.skip(0) =~= orig);
        }
        let mut i: usize = 0;
        while i < balls.len()
            invariant
                cfg.wf(),
                orig == old(balls)@,
                balls@.len() == orig.len(),
                i <= orig.len(),
                forall|k: int| 0 <= k < orig.len() ==> (#[trigger] orig[k]).wf(),
                forall|k: int| 0 <= k < paddles@.len() ==> (#[trigger] paddles@[k]).wf(),
                forall|k: int|
                    0 <= k < orig.len() ==> bounce_step_fits((#[trigger] orig[k])@, paddles@, *cfg),
                forall|k: int| i <= k < orig.len() ==> balls@[k] == orig[k],
                forall|k: int|
                    0 <= k < i ==> (#[trigger] balls@[k])@ == bounce_step(orig[k]@, paddles@, *cfg),
                forall|k: int| 0 <= k < i ==> (#[trigger] balls@[k]).wf(),
                sounds@.len() + total_bounce_sounds(orig.skip(i as int), paddles@, *cfg)
                    == total_bounce_sounds(orig, paddles@, *cfg),
                forall|k: int| 0 <= k < sounds@.len() ==> sounds@[k] == Sound::Bounce,
            decreases orig.len() - i,
        {
            assert(orig.skip(i as int)[0] == orig[i as int]);
            let ghost sounds_before = sounds@;
            let mut b = balls[i];
            bounce_ball(&mut b, paddles, cfg, &mut sounds);
            balls.set(i, b);
            proof {
                assert(orig.skip(i as int).skip(1) =~= orig.skip(i as int + 1));
                assert forall|k: int| 0 <= k < sounds@.len() implies sounds@[k]
                    == Sound::Bounce by {
                    if k < sounds_before.len() {
                        assert(sounds@[k] == sounds_before[k]);
                    }
                }
            }
            i = i + 1;
        }
        sounds
    }
}

/// The paddle pass never moves the ball and never touches its vertical
/// velocity: hits only act on the horizontal velocity, the streak and the
/// sprite.
pub proof fn lemma_paddle_bounce_keeps_rest(b: BallModel, paddles: Seq<Paddle>, cfg: Config)
    ensures
        ({
            let after = paddle_bounce(b, paddles, cfg);
            &&& after.x == b.x
            &&& after.y == b.y
            &&& after.radius == b.radius
            &&& after.velocity_y == b.velocity_y
        }),
    decreases paddles.len(),
{
    if paddles.len() > 0 {
        let b1 = if hit_applies(b, paddles[0]) {
            apply_hit(b, cfg)
        } else {
            b
        };
        lemma_paddle_bounce_keeps_rest(b1, paddles.skip(1), cfg);
    }
}

/// A ball at or past the bottom boundary and still moving down leaves one
/// bounce-handler tick with its vertical velocity inverted, whatever the
/// paddles do to the rest of its state.
pub proof fn lemma_wall_bounce_inverts(b: BallModel, paddles: Seq<Paddle>, cfg: Config)
    requires
        b.y <= b.radius,
        b.velocity_y < 0,
    ensures
        bounce_step(b, paddles, cfg).velocity_y == -b.velocity_y,
        bounce_step(b, paddles, cfg).velocity_y > 0,
{
    lemma_paddle_bounce_keeps_rest(wall_step(b, cfg), paddles, cfg);
}

/// The direction guard keeps the inversion from repeating: a second tick
/// without an intervening vertical reversal leaves the vertical velocity
/// as the first tick set it, as long as the ball does not also sit in the
/// top boundary zone.
pub proof fn lemma_wall_bounce_stable(b: BallModel, paddles: Seq<Paddle>, cfg: Config)
    requires
        b.y <= b.radius,
        b.velocity_y < 0,
        b.y < cfg.arena_height - b.radius,
    ensures
        bounce_step(bounce_step(b, paddles, cfg), paddles, cfg).velocity_y == -b.velocity_y,
{
    let b1 = bounce_step(b, paddles, cfg);
    lemma_wall_bounce_inverts(b, paddles, cfg);
    lemma_paddle_bounce_keeps_rest(wall_step(b, cfg), paddles, cfg);
    assert(!wall_bounce(b1, cfg));
    lemma_paddle_bounce_keeps_rest(wall_step(b1, cfg), paddles, cfg);
}

/// One paddle hit: the streak grows by exactly one, and the horizontal
/// velocity is inverted and then scaled by the speedup factor.
pub proof fn lemma_paddle_hit_response(b: BallModel, p: Paddle, cfg: Config)
    requires
        hit_applies(b, p),
    ensures
        ({
            let after = bounce_step(b, seq![p], cfg);
            &&& after.consecutive_hits == b.consecutive_hits + 1
            &&& after.velocity_x == scale_spec(
                -b.velocity_x,
                cfg.speedup_num as int,
                cfg.speedup_den as int,
            )
        }),
{
    let b1 = wall_step(b, cfg);
    assert(hit_applies(b1, p));
    assert(seq![p].skip(1) =~= Seq::<Paddle>::empty());
    assert(paddle_bounce(apply_hit(b1, cfg), seq![p].skip(1), cfg) == apply_hit(b1, cfg));
}

/// The sprite tier moves up by exactly one when a hit lands the streak on
/// a multiple-of-four milestone (counter remainder 3) below the cap, and
/// otherwise stays put.
pub proof fn lemma_sprite_tier_step(b: BallModel, cfg: Config)
    ensures
        ({
            let after = apply_hit(b, cfg);
            &&& (after.consecutive_hits % 4 == 3 && b.sprite_number < 4 ==> after.sprite_number
                == b.sprite_number + 1)
            &&& (after.consecutive_hits % 4 != 3 || b.sprite_number >= 4 ==> after.sprite_number
                == b.sprite_number)
        }),
{
}

/// The sprite tier never exceeds 4, no matter how many hits a tick lands.
pub proof fn lemma_sprite_tier_capped(b: BallModel, paddles: Seq<Paddle>, cfg: Config)
    requires
        b.sprite_number <= 4,
    ensures
        bounce_step(b, paddles, cfg).sprite_number <= 4,
{
    lemma_paddle_sprite_capped(wall_step(b, cfg), paddles, cfg);
}

proof fn lemma_paddle_sprite_capped(b: BallModel, paddles: Seq<Paddle>, cfg: Config)
    requires
        b.sprite_number <= 4,
    ensures
        paddle_bounce(b, paddles, cfg).sprite_number <= 4,
    decreases paddles.len(),
{
    if paddles.len() > 0 {
        let b1 = if hit_applies(b, paddles[0]) {
            apply_hit(b, cfg)
        } else {
            b
        };
        lemma_paddle_sprite_capped(b1, paddles.skip(1), cfg);
    }
}

/// With a speedup factor of at least one, a paddle hit never slows the
/// ball down: the horizontal velocity's magnitude never shrinks while the
/// hit streak grows.
pub proof fn lemma_hit_never_slows(b: BallModel, cfg: Config)
    requires
        cfg.wf(),
    ensures
        mag(apply_hit(b, cfg).velocity_x) >= mag(b.velocity_x),
{
    let v = mag(-b.velocity_x);
    let num = cfg.speedup_num as int;
    let den = cfg.speedup_den as int;
    assert(v * den <= v * num) by (nonlinear_arith)
        requires
            0 <= v,
            den <= num,
    ;
    vstd::arithmetic::div_mod::lemma_div_is_ordered(v * den, v * num, den);
    vstd::arithmetic::div_mod::lemma_div_multiples_vanish(v, den);
    assert(v * den == den * v) by (nonlinear_arith);
    assert(v * num / den >= v);
}

/// A ball clear of every paddle's dilated rectangle and vertically in the
/// interior of the arena passes a bounce-handler tick unchanged.
pub proof fn lemma_bounce_idle(b: BallModel, paddles: Seq<Paddle>, cfg: Config)
    requires
        b.radius < b.y < cfg.arena_height - b.radius,
        forall|i: int| 0 <= i < paddles.len() ==> !in_dilated_rect(b, #[trigger] paddles[i]),
    ensures
        bounce_step(b, paddles, cfg) == b,
{
    assert(wall_step(b, cfg) == b);
    lemma_paddle_bounce_idle(b, paddles, cfg);
}

proof fn lemma_paddle_bounce_idle(b: BallModel, paddles: Seq<Paddle>, cfg: Config)
    requires
        forall|i: int| 0 <= i < paddles.len() ==> !in_dilated_rect(b, #[trigger] paddles[i]),
    ensures
        paddle_bounce(b, paddles, cfg) == b,
    decreases paddles.len(),
{
    if paddles.len() > 0 {
        assert(!hit_applies(b, paddles[0]));
        assert(forall|i: int|
            0 <= i < paddles.skip(1).len() ==> paddles.skip(1)[i] == paddles[i + 1]);
        lemma_paddle_bounce_idle(b, paddles.skip(1), cfg);
    }
}

} // verus!
