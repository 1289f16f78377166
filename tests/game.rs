use bracket_lib::prelude::RandomNumberGenerator;
use flappy_dragon::draw::{Color, Draw, Line};
use flappy_dragon::obstacle::Obstacle;
use flappy_dragon::player::Player;
use flappy_dragon::session::{GameMode, Key, Session, FRAME_DURATION};

const STEP: u64 = 40_000;

fn session(seed: u64) -> Session {
    Session::new(RandomNumberGenerator::seeded(seed))
}

fn playing(player: Player, obstacles: Vec<Obstacle>) -> Session {
    let mut s = session(3);
    s.player = player;
    s.obstacles = obstacles;
    s.mode = GameMode::Playing;
    s
}

#[test]
fn size_is_floored_from_score_31() {
    let mut rng = RandomNumberGenerator::seeded(1);
    for score in [31, 32, 33, 100, i32::MAX] {
        assert_eq!(Obstacle::new(0, score, &mut rng).size, 2);
        assert_eq!(Obstacle::with_gap(0, 20, score).size, 2);
    }
}

#[test]
fn size_shrinks_with_score_below_31() {
    let mut rng = RandomNumberGenerator::seeded(2);
    for score in [-5, 0, 1, 15, 30] {
        assert_eq!(Obstacle::new(7, score, &mut rng).size, 33 - score);
        assert_eq!(Obstacle::with_gap(7, 20, score).size, 33 - score);
    }
    assert_eq!(Obstacle::new(7, 30, &mut rng).size, 3);
}

#[test]
fn gap_is_in_band() {
    let mut rng = RandomNumberGenerator::seeded(42);
    let mut seen_low = false;
    let mut seen_high = false;
    for _ in 0..2000 {
        let o = Obstacle::new(12, 0, &mut rng);
        assert_eq!(o.x, 12);
        assert!(o.gap_y >= 10 && o.gap_y < 40);
        seen_low |= o.gap_y == 10;
        seen_high |= o.gap_y == 39;
    }
    assert!(seen_low && seen_high);
}

#[test]
fn flap_sets_fixed_velocity() {
    for v in [-20, -2, 0, 8, 20] {
        let mut p = Player { x: 3, y: 17, velocity: v };
        p.flap();
        assert_eq!(p, Player { x: 3, y: 17, velocity: -20 });
        p.flap();
        assert_eq!(p.velocity, -20);
    }
}

#[test]
fn velocity_climbs_then_holds() {
    let mut p = Player::new(0, 25);
    assert_eq!(p.velocity, 0);
    for step in 1..=10 {
        p.advance();
        assert_eq!(p.velocity, 2 * step);
        assert_eq!(p.x, step);
    }
    for _ in 0..5 {
        p.advance();
        assert_eq!(p.velocity, 20);
    }
}

#[test]
fn advance_moves_by_truncated_velocity() {
    let mut p = Player { x: 0, y: 10, velocity: 8 };
    p.advance();
    assert_eq!(p, Player { x: 1, y: 11, velocity: 10 });
    let mut p = Player { x: 0, y: 10, velocity: 18 };
    p.advance();
    assert_eq!(p, Player { x: 1, y: 12, velocity: 20 });
    let mut p = Player { x: 0, y: 10, velocity: -20 };
    p.advance();
    assert_eq!(p, Player { x: 1, y: 9, velocity: -18 });
    let mut p = Player { x: 0, y: 10, velocity: -10 };
    p.advance();
    assert_eq!(p, Player { x: 1, y: 10, velocity: -8 });
}

#[test]
fn advance_clamps_at_top() {
    let mut p = Player { x: 4, y: 0, velocity: -20 };
    p.advance();
    assert_eq!(p, Player { x: 5, y: 0, velocity: -18 });
}

#[test]
fn hit_outside_band_only_when_aligned() {
    let o = Obstacle::with_gap(50, 20, 23); // size 10, band 15..=25
    let at = |x: i32, y: i32| o.hit(&Player { x, y, velocity: 0 });
    assert!(at(50, 14));
    assert!(!at(50, 15));
    assert!(!at(50, 20));
    assert!(!at(50, 25));
    assert!(at(50, 26));
    assert!(!at(49, 0));
    assert!(!at(51, 49));
}

#[test]
fn hit_with_odd_size() {
    let o = Obstacle::with_gap(0, 30, 0); // size 33, half 16
    assert!(o.hit(&Player { x: 0, y: 13, velocity: 0 }));
    assert!(!o.hit(&Player { x: 0, y: 14, velocity: 0 }));
    assert!(!o.hit(&Player { x: 0, y: 46, velocity: 0 }));
    assert!(o.hit(&Player { x: 0, y: 47, velocity: 0 }));
}

#[test]
fn render_draws_wall_above_and_below_gap() {
    let o = Obstacle::with_gap(90, 20, 0); // half 16: rows 0..4 and 36..50
    let cells = o.render(80);
    assert_eq!(cells.len(), 4 + 14);
    let rows: Vec<i32> = cells
        .iter()
        .map(|d| match d {
            Draw::Cell { x, y, fg, bg, glyph } => {
                assert_eq!((*x, *fg, *bg, *glyph), (10, Color::Red, Color::Black, 124));
                *y
            }
            other => panic!("unexpected {:?}", other),
        })
        .collect();
    let expected: Vec<i32> = (0..4).chain(36..50).collect();
    assert_eq!(rows, expected);
}

#[test]
fn render_with_gap_near_top() {
    let o = Obstacle::with_gap(5, 2, 0);
    let cells = o.render(5);
    assert_eq!(cells.len(), 32);
    assert_eq!(cells[0], Draw::Cell { x: 0, y: 18, fg: Color::Red, bg: Color::Black, glyph: 124 });
}

#[test]
fn new_session_is_at_menu() {
    let s = session(9);
    assert_eq!(s.mode, GameMode::Menu);
    assert_eq!(s.player, Player { x: 5, y: 25, velocity: 0 });
    assert_eq!(s.obstacles.len(), 1);
    assert_eq!(s.obstacles[0].x, 80);
    assert_eq!(s.obstacles[0].size, 33);
    assert_eq!((s.score, s.frame_time), (0, 0));
}

fn assert_restarted(s: &Session) {
    assert_eq!(s.mode, GameMode::Playing);
    assert_eq!(s.player, Player { x: 5, y: 25, velocity: 0 });
    assert_eq!(s.obstacles.len(), 1);
    assert_eq!(s.obstacles[0].x, 80);
    assert_eq!(s.obstacles[0].size, 33);
    assert!(s.obstacles[0].gap_y >= 10 && s.obstacles[0].gap_y < 40);
    assert_eq!((s.score, s.frame_time), (0, 0));
}

#[test]
fn menu_start_restarts() {
    let mut s = session(4);
    let f = s.tick(0, Some(Key::Start));
    assert!(!f.quit);
    assert_restarted(&s);
}

#[test]
fn ended_start_restarts() {
    let mut s = playing(
        Player { x: 300, y: 51, velocity: 20 },
        vec![Obstacle::with_gap(330, 20, 12), Obstacle::with_gap(360, 20, 12)],
    );
    s.mode = GameMode::Ended;
    s.score = 12;
    s.frame_time = 1_000;
    let f = s.tick(STEP, Some(Key::Start));
    assert!(!f.quit);
    assert_restarted(&s);
}

#[test]
fn restart_method_resets_everything() {
    let mut s = playing(Player { x: 90, y: 3, velocity: -8 }, vec![Obstacle::with_gap(100, 20, 4)]);
    s.score = 4;
    s.frame_time = 20_000;
    s.restart();
    assert_restarted(&s);
}

#[test]
fn menu_draws_and_quits() {
    let mut s = session(5);
    let f = s.tick(STEP, Some(Key::Quit));
    assert!(f.quit);
    assert_eq!(s.mode, GameMode::Menu);
    assert_eq!(
        f.draws,
        vec![
            Draw::Clear,
            Draw::Centered { y: 5, line: Line::Title },
            Draw::Centered { y: 8, line: Line::PlayOption },
            Draw::Centered { y: 9, line: Line::QuitOption },
        ]
    );
}

#[test]
fn menu_ignores_other_keys() {
    let mut s = session(6);
    for key in [None, Some(Key::Flap)] {
        let f = s.tick(STEP, key);
        assert!(!f.quit);
        assert_eq!(s.mode, GameMode::Menu);
        assert_eq!(s.player, Player { x: 5, y: 25, velocity: 0 });
        assert_eq!(s.frame_time, 0);
    }
}

#[test]
fn dead_screen_shows_score() {
    let mut s = playing(Player { x: 10, y: 52, velocity: 20 }, vec![Obstacle::with_gap(20, 20, 7)]);
    s.mode = GameMode::Ended;
    s.score = 7;
    let f = s.tick(STEP, None);
    assert!(!f.quit);
    assert_eq!(s.mode, GameMode::Ended);
    assert_eq!(s.player.x, 10);
    assert_eq!(
        f.draws,
        vec![
            Draw::Clear,
            Draw::Centered { y: 5, line: Line::Dead },
            Draw::Centered { y: 6, line: Line::Earned(7) },
            Draw::Centered { y: 8, line: Line::PlayAgain },
            Draw::Centered { y: 9, line: Line::QuitOption },
        ]
    );
    let f = s.tick(0, Some(Key::Quit));
    assert!(f.quit);
}

#[test]
fn passing_an_obstacle_scores_and_spawns() {
    let mut s = playing(Player { x: 79, y: 25, velocity: 0 }, vec![Obstacle::with_gap(80, 25, 0)]);
    s.tick(STEP, None);
    assert_eq!(s.player.x, 80);
    assert_eq!(s.score, 0);
    assert_eq!(s.obstacles.len(), 1);
    assert_eq!(s.mode, GameMode::Playing);
    s.tick(STEP, None);
    assert_eq!(s.player.x, 81);
    assert_eq!(s.score, 1);
    assert_eq!(s.obstacles.len(), 1);
    assert_eq!(s.obstacles[0].x, 161);
    assert_eq!(s.obstacles[0].size, 32);
    assert_eq!(s.mode, GameMode::Playing);
}

#[test]
fn far_obstacle_spawns_nothing() {
    let mut s = playing(Player { x: 30, y: 25, velocity: 0 }, vec![Obstacle::with_gap(100, 25, 0)]);
    s.tick(0, None);
    assert_eq!(s.obstacles.len(), 1);
    assert_eq!(s.mode, GameMode::Playing);
}

#[test]
fn near_obstacle_spawns_ahead() {
    let mut s = playing(Player { x: 40, y: 25, velocity: 0 }, vec![Obstacle::with_gap(100, 25, 0)]);
    s.tick(0, None);
    assert_eq!(s.obstacles.len(), 2);
    assert_eq!(s.obstacles[0], Obstacle::with_gap(100, 25, 0));
    assert_eq!(s.obstacles[1].x, 120);
    assert_eq!(s.obstacles[1].size, 33);
}

#[test]
fn lookahead_threshold_is_strict() {
    let mut s = playing(Player { x: 0, y: 25, velocity: 0 }, vec![Obstacle::with_gap(64, 25, 0)]);
    s.tick(0, None);
    assert_eq!(s.obstacles.len(), 1);
    let mut s = playing(Player { x: 0, y: 25, velocity: 0 }, vec![Obstacle::with_gap(63, 25, 0)]);
    s.tick(0, None);
    assert_eq!(s.obstacles.len(), 2);
}

#[test]
fn lookahead_checks_slots_positionally() {
    let o = |x| Obstacle::with_gap(x, 25, 0);
    let mut s = playing(Player { x: 0, y: 25, velocity: 0 }, vec![o(10), o(50)]);
    s.tick(0, None);
    assert_eq!(s.obstacles.len(), 3);
    assert_eq!(s.obstacles[2].x, 80);
    let mut s = playing(Player { x: 0, y: 25, velocity: 0 }, vec![o(10), o(70), o(75)]);
    s.tick(0, None);
    assert_eq!(s.obstacles.len(), 3);
    let mut s = playing(Player { x: 0, y: 25, velocity: 0 }, vec![o(10), o(70), o(30)]);
    s.tick(0, None);
    assert_eq!(s.obstacles.len(), 4);
    let mut s = playing(Player { x: 0, y: 25, velocity: 0 }, vec![o(10), o(20), o(30), o(40)]);
    s.tick(0, None);
    assert_eq!(s.obstacles.len(), 4);
}

#[test]
fn aligned_obstacle_skips_lookahead() {
    let mut s = playing(Player { x: 80, y: 25, velocity: 0 }, vec![Obstacle::with_gap(80, 25, 0)]);
    s.tick(0, None);
    assert_eq!(s.obstacles.len(), 1);
    assert_eq!(s.mode, GameMode::Playing);
}

#[test]
fn falling_off_screen_ends_game() {
    let mut s = playing(Player { x: 10, y: 50, velocity: 20 }, vec![Obstacle::with_gap(60, 25, 0)]);
    s.tick(STEP, None);
    assert_eq!(s.player.y, 52);
    assert_eq!(s.mode, GameMode::Ended);
}

#[test]
fn falling_off_screen_ends_game_without_obstacles() {
    let mut s = playing(Player { x: 10, y: 50, velocity: 20 }, vec![]);
    s.tick(STEP, None);
    assert_eq!(s.mode, GameMode::Ended);
}

#[test]
fn collision_ends_game() {
    let mut s = playing(Player { x: 9, y: 5, velocity: 0 }, vec![Obstacle::with_gap(10, 30, 0)]);
    s.tick(STEP, None);
    assert_eq!(s.player.x, 10);
    assert_eq!(s.mode, GameMode::Ended);
}

#[test]
fn physics_waits_for_frame_duration() {
    let mut s = playing(Player { x: 5, y: 25, velocity: 0 }, vec![Obstacle::with_gap(80, 25, 0)]);
    s.tick(20_000, None);
    assert_eq!(s.frame_time, 20_000);
    assert_eq!(s.player.x, 5);
    s.tick(FRAME_DURATION - 20_000, None);
    assert_eq!(s.frame_time, FRAME_DURATION);
    assert_eq!(s.player.x, 5);
    s.tick(1, None);
    assert_eq!(s.frame_time, 0);
    assert_eq!(s.player, Player { x: 6, y: 25, velocity: 2 });
}

#[test]
fn flap_applies_after_physics_step() {
    let mut s = playing(Player { x: 5, y: 25, velocity: 10 }, vec![Obstacle::with_gap(80, 25, 0)]);
    s.tick(STEP, Some(Key::Flap));
    assert_eq!(s.player, Player { x: 6, y: 26, velocity: -20 });
    s.tick(STEP, None);
    assert_eq!(s.player, Player { x: 7, y: 25, velocity: -18 });
}

#[test]
fn play_frame_draws_player_hud_and_walls() {
    let mut s = playing(Player { x: 70, y: 20, velocity: 0 }, vec![Obstacle::with_gap(100, 25, 0)]);
    s.score = 3;
    let f = s.tick(0, None);
    assert_eq!(f.draws.len(), 4 + 9 + 9);
    assert_eq!(f.draws[0], Draw::ClearTo(Color::Navy));
    assert_eq!(
        f.draws[1],
        Draw::Cell { x: 0, y: 20, fg: Color::Yellow, bg: Color::Black, glyph: 64 }
    );
    assert_eq!(f.draws[2], Draw::Text { x: 0, y: 0, line: Line::FlapHint });
    assert_eq!(f.draws[3], Draw::Text { x: 0, y: 1, line: Line::Score(3) });
    assert_eq!(f.draws[4], Draw::Cell { x: 30, y: 0, fg: Color::Red, bg: Color::Black, glyph: 124 });
    assert!(!f.quit);
}

#[test]
fn room_to_play_reports_counter_limits() {
    let s = session(8);
    assert!(s.room_to_play());
    let mut t = session(8);
    t.player.x = i32::MAX - 80;
    assert!(!t.room_to_play());
    let mut u = session(8);
    u.score = i32::MAX;
    assert!(!u.room_to_play());
}
