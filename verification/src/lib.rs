//! Collision response and scoring logic for a two-paddle ball game.
//!
//! The library holds the per-tick decision logic: a bounce handler that
//! reflects a ball off the arena walls and the paddles, and a win handler
//! that detects goals, updates the score and resets the ball. The host
//! engine (entity storage, rendering, audio output, UI text) stays outside;
//! it hands the handlers plain entity values and plays back the sound and
//! score events they return.

pub mod bounce;
pub mod pong;
pub mod winner;
