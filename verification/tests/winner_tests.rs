use pong::pong::{Ball, Config, ScoreBoard, Side};
use pong::winner::{ScoreEvent, WinnerSystem};

fn test_config() -> Config {
    Config {
        arena_width: 100,
        arena_height: 100,
        ball_velocity_x: -100,
        speedup_num: 105,
        speedup_den: 100,
    }
}

fn flying_ball() -> Ball {
    Ball {
        x: 50,
        y: 50,
        radius: 5,
        velocity_x: -100,
        velocity_y: 30,
        consecutive_hits: 4,
        sprite_number: 2,
    }
}

fn run_winner(balls: &mut Vec<Ball>, board: &mut ScoreBoard, cfg: &Config) -> Vec<ScoreEvent> {
    let mut sys = WinnerSystem;
    sys.run(balls, board, cfg)
}

#[test]
fn left_goal_scores_right_player_and_resets_ball() {
    // The end-to-end goal scenario: ball on the left edge, moving left.
    let cfg = test_config();
    let mut balls = vec![Ball { x: 0, velocity_x: -100, ..flying_ball() }];
    let mut board = ScoreBoard { score_left: 0, score_right: 0 };
    let events = run_winner(&mut balls, &mut board, &cfg);
    assert_eq!(board.score_right, 1);
    assert_eq!(board.score_left, 0);
    assert_eq!(balls[0].velocity_x, 100);
    assert_eq!(balls[0].x, 50);
    assert_eq!(balls[0].consecutive_hits, 0);
    assert_eq!(balls[0].sprite_number, 1);
    assert_eq!(
        events,
        vec![ScoreEvent { side: Side::Right, score_left: 0, score_right: 1 }]
    );
}

#[test]
fn right_goal_scores_left_player() {
    let cfg = test_config();
    let mut balls = vec![Ball { x: 97, velocity_x: 80, ..flying_ball() }];
    let mut board = ScoreBoard { score_left: 2, score_right: 7 };
    let events = run_winner(&mut balls, &mut board, &cfg);
    assert_eq!(board.score_left, 3);
    assert_eq!(board.score_right, 7);
    assert_eq!(balls[0].velocity_x, 100);
    assert_eq!(balls[0].x, 50);
    assert_eq!(
        events,
        vec![ScoreEvent { side: Side::Left, score_left: 3, score_right: 7 }]
    );
}

#[test]
fn goal_line_is_inclusive_within_radius() {
    let cfg = test_config();
    // x = radius counts on the left, x = width - radius on the right.
    let mut left = vec![Ball { x: 5, ..flying_ball() }];
    let mut board = ScoreBoard { score_left: 0, score_right: 0 };
    run_winner(&mut left, &mut board, &cfg);
    assert_eq!(board.score_right, 1);

    let mut right = vec![Ball { x: 95, ..flying_ball() }];
    run_winner(&mut right, &mut board, &cfg);
    assert_eq!(board.score_left, 1);
}

#[test]
fn interior_ball_scores_nobody() {
    let cfg = test_config();
    let before = flying_ball();
    let mut balls = vec![before];
    let mut board = ScoreBoard { score_left: 3, score_right: 4 };
    let events = run_winner(&mut balls, &mut board, &cfg);
    assert_eq!(balls[0], before);
    assert_eq!(board, ScoreBoard { score_left: 3, score_right: 4 });
    assert!(events.is_empty());
}

#[test]
fn score_is_clamped_at_999() {
    let cfg = test_config();
    let mut balls = vec![Ball { x: 0, ..flying_ball() }];
    let mut board = ScoreBoard { score_left: 0, score_right: 999 };
    let events = run_winner(&mut balls, &mut board, &cfg);
    assert_eq!(board.score_right, 999);
    assert_eq!(
        events,
        vec![ScoreEvent { side: Side::Right, score_left: 0, score_right: 999 }]
    );
}

#[test]
fn score_reaches_the_clamp_exactly() {
    let cfg = test_config();
    let mut balls = vec![Ball { x: 0, ..flying_ball() }];
    let mut board = ScoreBoard { score_left: 0, score_right: 998 };
    run_winner(&mut balls, &mut board, &cfg);
    assert_eq!(board.score_right, 999);
}

#[test]
fn no_balls_means_no_events() {
    let cfg = test_config();
    let mut balls: Vec<Ball> = Vec::new();
    let mut board = ScoreBoard { score_left: 5, score_right: 6 };
    let events = run_winner(&mut balls, &mut board, &cfg);
    assert!(events.is_empty());
    assert_eq!(board, ScoreBoard { score_left: 5, score_right: 6 });
}

#[test]
fn reset_velocity_launches_away_from_base_direction() {
    // The reset writes the base velocity and then inverts it, whichever
    // goal was crossed.
    let cfg = test_config();
    let mut balls = vec![Ball { x: 100, velocity_x: 80, ..flying_ball() }];
    let mut board = ScoreBoard { score_left: 0, score_right: 0 };
    run_winner(&mut balls, &mut board, &cfg);
    assert_eq!(balls[0].velocity_x, -cfg.ball_velocity_x);
    assert_eq!(balls[0].velocity_y, flying_ball().velocity_y);
}

#[test]
fn two_goals_in_one_tick_are_judged_in_order() {
    let cfg = test_config();
    let mut balls = vec![
        Ball { x: 0, ..flying_ball() },
        flying_ball(),
        Ball { x: 99, velocity_x: 60, ..flying_ball() },
    ];
    let mut board = ScoreBoard { score_left: 0, score_right: 0 };
    let events = run_winner(&mut balls, &mut board, &cfg);
    assert_eq!(board, ScoreBoard { score_left: 1, score_right: 1 });
    assert_eq!(
        events,
        vec![
            ScoreEvent { side: Side::Right, score_left: 0, score_right: 1 },
            ScoreEvent { side: Side::Left, score_left: 1, score_right: 1 },
        ]
    );
    assert_eq!(balls[1], flying_ball());
}
