use snake::game::{place_food, FrameInput, Game};
use snake::grid::{Direction, Position, ARENA_HEIGHT, ARENA_WIDTH};
use snake::timer::TickTimer;

fn pos(x: i32, y: i32) -> Position {
    Position { x, y }
}

fn no_keys() -> FrameInput {
    FrameInput::none()
}

fn in_arena(p: Position) -> bool {
    0 <= p.x && p.x < ARENA_WIDTH && 0 <= p.y && p.y < ARENA_HEIGHT
}

#[test]
fn opposite_twice_is_identity() {
    let dirs = [Direction::Left, Direction::Up, Direction::Right, Direction::Down];
    for d in dirs {
        assert_eq!(d.opposite().opposite(), d);
    }
    assert_eq!(Direction::Left.opposite(), Direction::Right);
    assert_eq!(Direction::Up.opposite(), Direction::Down);
}

#[test]
fn rejected_reversal_keeps_heading() {
    let mut g = Game::new();
    assert_eq!(g.direction, Direction::Up);
    let input = FrameInput { left: false, down: true, up: false, right: false };
    g.frame(input, 0);
    assert_eq!(g.direction, Direction::Up);
}

#[test]
fn legal_turn_is_latched_between_ticks() {
    let mut g = Game::new();
    let input = FrameInput { left: true, down: false, up: false, right: false };
    g.frame(input, 0);
    assert_eq!(g.direction, Direction::Left);
    // The move itself has not committed: the timer has not elapsed.
    assert_eq!(g.segments, vec![pos(3, 3), pos(3, 2)]);
}

#[test]
fn latch_checks_against_the_pending_heading() {
    // The reversal check runs per frame against the latest latched heading,
    // so two quarter turns between ticks add up to a reversal.
    let mut g = Game::new();
    g.frame(FrameInput { left: true, down: false, up: false, right: false }, 0);
    assert_eq!(g.direction, Direction::Left);
    g.frame(FrameInput { left: false, down: true, up: false, right: false }, 0);
    assert_eq!(g.direction, Direction::Down);
}

#[test]
fn input_priority_left_wins_over_down() {
    let mut g = Game::new();
    let input = FrameInput { left: true, down: true, up: false, right: false };
    g.frame(input, 0);
    assert_eq!(g.direction, Direction::Left);
}

#[test]
fn first_committed_tick_moves_up() {
    let mut g = Game::new();
    let ev = g.frame(no_keys(), 250);
    assert!(!ev.game_over);
    assert!(!ev.growth);
    assert_eq!(g.segments, vec![pos(3, 4), pos(3, 3)]);
    assert_eq!(g.last_tail, Some(pos(3, 2)));
    assert_eq!(g.score, 0);
}

#[test]
fn movement_commits_only_when_timer_elapses() {
    let mut g = Game::new();
    g.frame(no_keys(), 100);
    assert_eq!(g.segments[0], pos(3, 3));
    g.frame(no_keys(), 100);
    assert_eq!(g.segments[0], pos(3, 3));
    g.frame(no_keys(), 100);
    // 300 ms accumulated: the move commits and 50 ms carry over.
    assert_eq!(g.segments[0], pos(3, 4));
    g.frame(no_keys(), 100);
    assert_eq!(g.segments[0], pos(3, 4));
    g.frame(no_keys(), 100);
    assert_eq!(g.segments[0], pos(3, 5));
}

#[test]
fn growth_adds_one_point_and_one_segment() {
    let mut g = Game::new();
    g.foods.push(pos(3, 4));
    let ev = g.frame(no_keys(), 250);
    assert!(ev.growth);
    assert!(!ev.game_over);
    assert_eq!(g.score, 1);
    assert_eq!(g.segments, vec![pos(3, 4), pos(3, 3), pos(3, 2)]);
    assert!(g.foods.is_empty());
}

#[test]
fn two_foods_on_one_cell_raise_one_growth_event() {
    let mut g = Game::new();
    g.foods.push(pos(3, 4));
    g.foods.push(pos(3, 4));
    let ev = g.frame(no_keys(), 250);
    assert!(ev.growth);
    assert_eq!(g.score, 1);
    assert_eq!(g.segments.len(), 3);
    assert!(g.foods.is_empty());
}

#[test]
fn leaving_the_arena_raises_game_over_and_resets() {
    // One scenario per arena edge.
    let cases = [
        (vec![pos(0, 5), pos(1, 5)], Direction::Left),
        (vec![pos(ARENA_WIDTH - 1, 5), pos(ARENA_WIDTH - 2, 5)], Direction::Right),
        (vec![pos(5, 0), pos(5, 1)], Direction::Down),
        (vec![pos(5, ARENA_HEIGHT - 1), pos(5, ARENA_HEIGHT - 2)], Direction::Up),
    ];
    for (segments, direction) in cases {
        let mut g = Game::new();
        g.segments = segments;
        g.direction = direction;
        let ev = g.frame(no_keys(), 250);
        assert!(ev.game_over);
        // The next frame starts from the spawn state.
        assert_eq!(g.segments, vec![pos(3, 3), pos(3, 2)]);
        assert_eq!(g.direction, Direction::Up);
        assert_eq!(g.score, 0);
        assert!(g.foods.is_empty());
    }
}

#[test]
fn self_collision_raises_game_over() {
    let mut g = Game::new();
    // A hook-shaped snake whose head faces its own body.
    g.segments = vec![pos(5, 5), pos(5, 4), pos(6, 4), pos(6, 5), pos(6, 6)];
    g.direction = Direction::Up;
    g.score = 3;
    let input = FrameInput { left: false, down: false, up: false, right: true };
    let ev = g.frame(input, 250);
    assert!(ev.game_over);
    assert_eq!(g.segments, vec![pos(3, 3), pos(3, 2)]);
    assert_eq!(g.score, 0);
}

#[test]
fn head_beside_body_passes_without_game_over() {
    let mut g = Game::new();
    g.segments = vec![pos(5, 5), pos(5, 4), pos(6, 4), pos(6, 5), pos(6, 6)];
    g.direction = Direction::Up;
    g.score = 3;
    let ev = g.frame(no_keys(), 250);
    assert!(!ev.game_over);
    assert_eq!(g.segments, vec![pos(5, 6), pos(5, 5), pos(5, 4), pos(6, 4), pos(6, 5)]);
}

#[test]
fn pre_move_snapshot_counts_the_vacating_tail_cell() {
    // The self-collision check runs against the pre-move snapshot, so a
    // head that moves onto the cell the tail is vacating still ends the
    // run.
    let mut g = Game::new();
    g.direction = Direction::Down;
    let ev = g.frame(no_keys(), 250);
    assert!(ev.game_over);
    assert_eq!(g.segments, vec![pos(3, 3), pos(3, 2)]);
}

#[test]
fn game_over_raises_exactly_one_event_per_tick() {
    let mut g = Game::new();
    g.segments = vec![pos(0, 5), pos(1, 5)];
    g.direction = Direction::Left;
    let ev = g.frame(no_keys(), 250);
    // The event is a single flag for the tick, and the out-of-bounds head
    // cannot also count as a self-collision.
    assert!(ev.game_over);
    assert!(!ev.growth);
}

#[test]
fn placed_food_is_never_on_a_segment() {
    let segments = vec![pos(3, 3), pos(3, 2), pos(4, 2), pos(4, 3), pos(4, 4)];
    for _ in 0..200 {
        let p = place_food(&segments).expect("free cells exist");
        assert!(in_arena(p));
        assert!(!segments.contains(&p));
    }
}

#[test]
fn full_arena_leaves_no_cell_for_food() {
    let mut segments = Vec::new();
    for x in 0..ARENA_WIDTH {
        for y in 0..ARENA_HEIGHT {
            segments.push(pos(x, y));
        }
    }
    assert_eq!(place_food(&segments), None);
}

#[test]
fn food_spawns_are_not_guarded_by_existing_food() {
    // Nothing checks for a still-uneaten food item before spawning the
    // next one, so two can be live at once.
    let mut g = Game::new();
    g.food_spawner(1000);
    g.food_spawner(1000);
    assert_eq!(g.foods.len(), 2);
    for f in &g.foods {
        assert!(in_arena(*f));
        assert!(!g.segments.contains(f));
    }
}

#[test]
fn generated_positions_are_in_bounds() {
    for _ in 0..200 {
        assert!(in_arena(Position::generate()));
    }
}

#[test]
fn food_spawns_on_its_own_timer() {
    let mut g = Game::new();
    for _ in 0..3 {
        g.frame(no_keys(), 250);
        assert!(g.foods.is_empty());
    }
    g.frame(no_keys(), 250);
    assert_eq!(g.foods.len(), 1);
    assert!(in_arena(g.foods[0]));
    assert!(!g.segments.contains(&g.foods[0]));
}

#[test]
fn length_never_decreases_without_game_over() {
    let mut g = Game::new();
    let inputs = [
        FrameInput { left: true, down: false, up: false, right: false },
        FrameInput { left: false, down: true, up: false, right: false },
        FrameInput { left: false, down: false, up: true, right: false },
        FrameInput { left: false, down: false, up: false, right: true },
        no_keys(),
    ];
    let mut len = g.segments.len();
    for i in 0..500 {
        let ev = g.frame(inputs[(i * 7 + 3) % 5], 125);
        if ev.game_over {
            assert_eq!(g.segments.len(), 2);
        } else {
            assert!(g.segments.len() >= len);
        }
        len = g.segments.len();
    }
}

#[test]
fn score_text_is_the_decimal_string() {
    let mut g = Game::new();
    assert_eq!(g.score_text(), "0");
    g.score = 7;
    assert_eq!(g.score_text(), "7");
    g.score = 42;
    assert_eq!(g.score_text(), "42");
    g.score = 1000;
    assert_eq!(g.score_text(), "1000");
    g.score = u32::MAX;
    assert_eq!(g.score_text(), "4294967295");
}

#[test]
fn timer_fires_on_the_period_and_keeps_the_remainder() {
    let mut t = TickTimer::new(250);
    t.tick(249);
    assert!(!t.fired);
    assert_eq!(t.elapsed_ms, 249);
    t.tick(1);
    assert!(t.fired);
    assert_eq!(t.elapsed_ms, 0);
    t.tick(600);
    assert!(t.fired);
    assert_eq!(t.elapsed_ms, 100);
    t.tick(100);
    assert!(!t.fired);
    assert_eq!(t.elapsed_ms, 200);
}
