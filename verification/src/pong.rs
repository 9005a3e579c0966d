//! Game entities and the configuration the handlers read.

use vstd::prelude::*;

verus! {

/// Largest magnitude allowed for a coordinate, an extent or the base
/// velocity. Keeping every geometric input within this bound lets the
/// handlers add and subtract a handful of them without overflowing `i64`.
pub const COORD_LIMIT: i64 = 0x7fff_ffff;

/// Which player a paddle belongs to.
#[derive(Clone, Copy, PartialEq, Eq, Structural, Debug)]
pub enum Side {
    Left,
    Right,
}

/// A ball together with the per-ball state the handlers read and write:
/// its transform (position), collision radius, velocity, hit streak and
/// the sprite index that displays the streak tier.
#[derive(Clone, Copy, PartialEq, Eq, Structural, Debug)]
pub struct Ball {
    pub x: i64,
    pub y: i64,
    pub radius: i64,
    pub velocity_x: i64,
    pub velocity_y: i64,
    pub consecutive_hits: u64,
    pub sprite_number: u64,
}

/// The mathematical value of a [`Ball`]: the same fields over unbounded
/// integers, so transition functions can be stated without overflow noise.
pub struct BallModel {
    pub x: int,
    pub y: int,
    pub radius: int,
    pub velocity_x: int,
    pub velocity_y: int,
    pub consecutive_hits: int,
    pub sprite_number: int,
}

impl View for Ball {
    type V = BallModel;

    open spec fn view(&self) -> BallModel {
        BallModel {
            x: self.x as int,
            y: self.y as int,
            radius: self.radius as int,
            velocity_x: self.velocity_x as int,
            velocity_y: self.velocity_y as int,
            consecutive_hits: self.consecutive_hits as int,
            sprite_number: self.sprite_number as int,
        }
    }
}

impl Ball {
    /// The geometric fields a handler does arithmetic on stay within
    /// [`COORD_LIMIT`]; the velocity components can be negated.
    pub open spec fn wf(self) -> bool {
        &&& 0 <= self.radius <= COORD_LIMIT
        &&& -COORD_LIMIT <= self.x <= COORD_LIMIT
        &&& -COORD_LIMIT <= self.y <= COORD_LIMIT
        &&& i64::MIN < self.velocity_x
        &&& i64::MIN < self.velocity_y
    }
}

/// A paddle: center position, extents and the side it defends.
/// The handlers only read paddles; movement is owned elsewhere.
#[derive(Clone, Copy, PartialEq, Eq, Structural, Debug)]
pub struct Paddle {
    pub x: i64,
    pub y: i64,
    pub width: i64,
    pub height: i64,
    pub side: Side,
}

impl Paddle {
    pub open spec fn wf(self) -> bool {
        &&& -COORD_LIMIT <= self.x <= COORD_LIMIT
        &&& -COORD_LIMIT <= self.y <= COORD_LIMIT
        &&& 0 <= self.width <= COORD_LIMIT
        &&& 0 <= self.height <= COORD_LIMIT
    }
}

/// The shared configuration both handlers consume: arena extents, the
/// base horizontal velocity a ball is reset to after a goal, and the
/// speedup factor `speedup_num / speedup_den` applied on every paddle hit.
#[derive(Clone, Copy, PartialEq, Eq, Structural, Debug)]
pub struct Config {
    pub arena_width: i64,
    pub arena_height: i64,
    pub ball_velocity_x: i64,
    pub speedup_num: u64,
    pub speedup_den: u64,
}

impl Config {
    /// The speedup factor is at least one, so a paddle hit never slows
    /// the ball down.
    pub open spec fn wf(self) -> bool {
        &&& 0 < self.arena_width <= COORD_LIMIT
        &&& 0 < self.arena_height <= COORD_LIMIT
        &&& -COORD_LIMIT <= self.ball_velocity_x <= COORD_LIMIT
        &&& 1 <= self.speedup_den <= self.speedup_num <= COORD_LIMIT
    }
}

/// The two players' scores, each clamped to the displayable range 0..=999.
#[derive(Clone, Copy, PartialEq, Eq, Structural, Debug)]
pub struct ScoreBoard {
    pub score_left: u32,
    pub score_right: u32,
}

/// The mathematical value of a [`ScoreBoard`].
pub struct BoardModel {
    pub score_left: int,
    pub score_right: int,
}

impl View for ScoreBoard {
    type V = BoardModel;

    open spec fn view(&self) -> BoardModel {
        BoardModel { score_left: self.score_left as int, score_right: self.score_right as int }
    }
}

/// A sound a handler asks the host engine to play, fire-and-forget.
#[derive(Clone, Copy, PartialEq, Eq, Structural, Debug)]
pub enum Sound {
    Bounce,
    Score,
}

} // verus!
