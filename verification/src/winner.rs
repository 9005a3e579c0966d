//! The win handler: detects a ball at or past a goal line, awards the
//! point, resets the ball and reports the score events to display.

use vstd::prelude::*;

use crate::pong::{Ball, BallModel, BoardModel, Config, ScoreBoard, Side};

verus! {

/// Who scored on this ball this tick: the right player when the ball is
/// within its radius of the left edge, the left player when it is within
/// its radius of the right edge, nobody otherwise.
pub open spec fn scored(b: BallModel, cfg: Config) -> Option<Side> {
    if b.x <= b.radius {
        Some(Side::Right)
    } else if b.x >= cfg.arena_width - b.radius {
        Some(Side::Left)
    } else {
        None
    }
}

/// A score is incremented but clamped at 999 so the display never
/// overflows its three digits.
pub open spec fn inc_score(s: int) -> int {
    if s < 999 {
        s + 1
    } else {
        999
    }
}

/// The ball after a goal: hit streak and sprite tier reset, the
/// horizontal velocity back at the base speed but inverted so the ball
/// launches away from the goal it just crossed, and the ball recentered
/// on the horizontal midpoint. Without a goal the ball is untouched.
pub open spec fn winner_ball(b: BallModel, cfg: Config) -> BallModel {
    if scored(b, cfg) is Some {
        BallModel {
            x: cfg.arena_width as int / 2,
            velocity_x: -cfg.ball_velocity_x,
            consecutive_hits: 0,
            sprite_number: 1,
            ..b
        }
    } else {
        b
    }
}

/// The scoreboard after one ball is judged.
pub open spec fn board_step(board: BoardModel, b: BallModel, cfg: Config) -> BoardModel {
    match scored(b, cfg) {
        Some(Side::Right) => BoardModel { score_right: inc_score(board.score_right), ..board },
        Some(Side::Left) => BoardModel { score_left: inc_score(board.score_left), ..board },
        None => board,
    }
}

/// What the engine is told after a goal: who scored, and the score pair
/// as it stands right after the point. The engine pushes the scorer's new
/// score into the matching on-screen text, plays the score sound, and may
/// print the pair.
#[derive(Clone, Copy, PartialEq, Eq, Structural, Debug)]
pub struct ScoreEvent {
    pub side: Side,
    pub score_left: u32,
    pub score_right: u32,
}

/// The mathematical value of a [`ScoreEvent`].
pub struct EventModel {
    pub side: Side,
    pub score_left: int,
    pub score_right: int,
}

impl View for ScoreEvent {
    type V = EventModel;

    open spec fn view(&self) -> EventModel {
        EventModel {
            side: self.side,
            score_left: self.score_left as int,
            score_right: self.score_right as int,
        }
    }
}

/// The event one ball produces, if it produces one.
pub open spec fn event_of(board: BoardModel, b: BallModel, cfg: Config) -> Option<EventModel> {
    match scored(b, cfg) {
        Some(side) => {
            let after = board_step(board, b, cfg);
            Some(EventModel { side, score_left: after.score_left, score_right: after.score_right })
        },
        None => None,
    }
}

/// An optional event, viewed.
pub open spec fn opt_event_model(ev: Option<ScoreEvent>) -> Option<EventModel> {
    match ev {
        Some(e) => Some(e@),
        None => None,
    }
}

/// Balls are judged in order; the scoreboard threads through, and each
/// goal appends its event.
pub open spec fn winner_fold(board: BoardModel, balls: Seq<Ball>, cfg: Config) -> (BoardModel, Seq<
    EventModel,
>)
    decreases balls.len(),
{
    if balls.len() == 0 {
        (board, Seq::empty())
    } else {
        let after = board_step(board, balls[0]@, cfg);
        let here = match event_of(board, balls[0]@, cfg) {
            Some(e) => seq![e],
            None => Seq::empty(),
        };
        let rest = winner_fold(after, balls.skip(1), cfg);
        (rest.0, here + rest.1)
    }
}

/// One win-handler tick for one ball: judge the ball, update the
/// scoreboard, reset the ball on a goal, and hand back the event.
pub fn score_ball(ball: &mut Ball, board: &mut ScoreBoard, cfg: &Config) -> (ev: Option<ScoreEvent>)
    requires
        cfg.wf(),
        old(ball).wf(),
    ensures
        final(ball)@ == winner_ball(old(ball)@, *cfg),
        final(ball).wf(),
        final(board)@ == board_step(old(board)@, old(ball)@, *cfg),
        opt_event_model(ev) == event_of(old(board)@, old(ball)@, *cfg),
{
    let side_opt: Option<Side> = if ball.x <= ball.radius {
        // The hit streak, the sprite and the velocity are reset, and the
        // right player's score goes up, topped at 999 to avoid overlap.
        ball.consecutive_hits = 0;
        ball.sprite_number = 1;
        ball.velocity_x = cfg.ball_velocity_x;
        board.score_right = if board.score_right < 999 {
            board.score_right + 1
        } else {
            999
        };
        Some(Side::Right)
    } else if ball.x >= cfg.arena_width - ball.radius {
        // The same reset, with the point going to the left player.
        ball.consecutive_hits = 0;
        ball.sprite_number = 1;
        ball.velocity_x = cfg.ball_velocity_x;
        board.score_left = if board.score_left < 999 {
            board.score_left + 1
        } else {
            999
        };
        Some(Side::Left)
    } else {
        None
    };

    match side_opt {
        Some(side) => {
            ball.velocity_x = -ball.velocity_x;  // Reverse direction
            ball.x = cfg.arena_width / 2;  // Reset position
            Some(ScoreEvent { side, score_left: board.score_left, score_right: board.score_right })
        },
        None => None,
    }
}

/// The per-tick win handler. The host engine owns the entities; it hands
/// their current state in and displays the returned score events.
pub struct WinnerSystem;

impl WinnerSystem {
    /// One tick: every ball is judged in order against the shared
    /// scoreboard, goals reset their ball, and the events come back in
    /// ball order.
    pub fn run(&mut self, balls: &mut Vec<Ball>, board: &mut ScoreBoard, cfg: &Config) -> (events:
        Vec<ScoreEvent>)
        requires
            cfg.wf(),
            forall|i: int| 0 <= i < old(balls)@.len() ==> (#[trigger] old(balls)@[i]).wf(),
        ensures
            final(balls)@.len() == old(balls)@.len(),
            forall|i: int|
                0 <= i < old(balls)@.len() ==> (#[trigger] final(balls)@[i])@ == winner_ball(
                    old(balls)@[i]@,
                    *cfg,
                ),
            forall|i: int| 0 <= i < final(balls)@.len() ==> (#[trigger] final(balls)@[i]).wf(),
            final(board)@ == winner_fold(old(board)@, old(balls)@, *cfg).0,
            events@.map_values(|e: ScoreEvent| e@) == winner_fold(old(board)@, old(balls)@, *cfg).1,
    {
        let mut events: Vec<ScoreEvent> = Vec::new();
        let ghost orig = balls@;
        let ghost full = winner_fold(old(board)@, orig, *cfg);
        proof {
            assert(orig.skip(0) =~= orig);
            assert(events@.map_values(|e: ScoreEvent| e@) =~= Seq::<EventModel>::empty());
        }
        let mut i: usize = 0;
        while i < balls.len()
            invariant
                cfg.wf(),
                orig == old(balls)@,
                balls@.len() == orig.len(),
                i <= orig.len(),
                full == winner_fold(old(board)@, orig, *cfg),
                forall|k: int| 0 <= k < orig.len() ==> (#[trigger] orig[k]).wf(),
                forall|k: int| i <= k < orig.len() ==> balls@[k] == orig[k],
                forall|k: int|
                    0 <= k < i ==> (#[trigger] balls@[k])@ == winner_ball(orig[k]@, *cfg),
                forall|k: int| 0 <= k < i ==> (#[trigger] balls@[k]).wf(),
                full.0 == winner_fold(board@, orig.skip(i as int), *cfg).0,
                full.1 == events@.map_values(|e: ScoreEvent| e@) + winner_fold(
                    board@,
                    orig.skip(i as int),
                    *cfg,
                ).1,
            decreases orig.len() - i,
        {
            assert(orig.skip(i as int)[0] == orig[i as int]);
            let ghost evs_before = events@;
            let ghost board_before = board@;
            let mut b = balls[i];
            let ev = score_ball(&mut b, board, cfg);
            balls.set(i, b);
            match ev {
                Some(e) => events.push(e),
                None => (),
            }
            proof {
                assert(orig.skip(i as int).skip(1) =~= orig.skip(i as int + 1));
                let f = |e: ScoreEvent| e@;
                let here = match event_of(board_before, orig[i as int]@, *cfg) {
                    Some(em) => seq![em],
                    None => Seq::<EventModel>::empty(),
                };
                assert(events@.map_values(f) =~= evs_before.map_values(f) + here);
                assert(full.1 == events@.map_values(f) + winner_fold(
                    board@,
                    orig.skip(i as int + 1),
                    *cfg,
                ).1);
            }
            i = i + 1;
        }
        events
    }
}

/// The score display clamp: a point for the right player whose score
/// already stands at 999 leaves it at 999.
pub proof fn lemma_score_clamped(board: BoardModel, b: BallModel, cfg: Config)
    requires
        board.score_right == 999,
        scored(b, cfg) == Some(Side::Right),
    ensures
        board_step(board, b, cfg).score_right == 999,
{
}

} // verus!
