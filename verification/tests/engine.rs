use tetris_core::board::BOARD_WIDTH;
use tetris_core::game::Game;
use tetris_core::game::format_duration;
use tetris_core::kind::BlockType;
use tetris_core::piece::ActivePiece;

fn fresh(now: u64) -> Game {
    Game::new_with(BlockType::T, BlockType::L, now)
}

fn count_settled(g: &Game) -> usize {
    let mut n: usize = 0;
    for row in g.board.rows.iter() {
        for cell in row.iter() {
            if cell.is_some() {
                n += 1;
            }
        }
    }
    n
}

fn fill_row_except(g: &mut Game, y: usize, holes: &[usize]) {
    for x in 0..BOARD_WIDTH {
        if !holes.contains(&x) {
            g.board.rows[y][x] = Some(BlockType::J);
        }
    }
}

fn states_equal(a: &Game, b: &Game) -> bool {
    a.board.rows == b.board.rows && a.current == b.current && a.next == b.next && a.score == b.score
        && a.level == b.level && a.lines_cleared == b.lines_cleared && a.paused == b.paused
        && a.game_over == b.game_over && a.start_ms == b.start_ms
        && a.last_drop_ms == b.last_drop_ms && a.gravity_interval_ms == b.gravity_interval_ms
}

fn snapshot(g: &Game) -> Game {
    Game {
        board: tetris_core::board::Board { rows: g.board.rows.clone() },
        current: g.current,
        next: g.next,
        score: g.score,
        level: g.level,
        lines_cleared: g.lines_cleared,
        paused: g.paused,
        game_over: g.game_over,
        start_ms: g.start_ms,
        last_drop_ms: g.last_drop_ms,
        gravity_interval_ms: g.gravity_interval_ms,
    }
}

#[test]
fn new_game_starts_empty_at_level_one() {
    let g = fresh(5);
    assert_eq!(g.score, 0);
    assert_eq!(g.level, 1);
    assert_eq!(g.lines_cleared, 0);
    assert!(!g.paused);
    assert!(!g.game_over);
    assert_eq!(g.gravity_interval_ms, 700);
    assert_eq!(g.start_ms, 5);
    assert_eq!(g.last_drop_ms, 5);
    assert_eq!(count_settled(&g), 0);
    assert_eq!(g.current, ActivePiece::new(BlockType::T));
    assert_eq!(g.next, BlockType::L);
}

#[test]
fn new_game_with_random_kinds_starts_at_spawn() {
    let g = Game::new(0);
    assert_eq!(g.score, 0);
    assert_eq!(g.level, 1);
    assert_eq!(g.current.rotation, 0);
    assert_eq!(g.current.x, 3);
    assert_eq!(g.current.y, -1);
    assert_eq!(count_settled(&g), 0);
}

#[test]
fn interval_per_level() {
    assert_eq!(Game::interval_for_level(1), 700);
    assert_eq!(Game::interval_for_level(2), 650);
    assert_eq!(Game::interval_for_level(13), 100);
    assert_eq!(Game::interval_for_level(14), 60);
    assert_eq!(Game::interval_for_level(100), 60);
}

#[test]
fn moves_shift_the_piece_and_respect_walls() {
    let mut g = fresh(0);
    g.move_left();
    assert_eq!(g.current.x, 2);
    g.move_right();
    g.move_right();
    assert_eq!(g.current.x, 4);
    // walk to the left wall: T occupies box columns 0..=2
    for _ in 0..10 {
        g.move_left();
    }
    assert_eq!(g.current.x, 0);
}

#[test]
fn soft_drop_scores_one_point_per_row() {
    let mut g = fresh(0);
    g.move_down_with(BlockType::I, 10);
    assert_eq!(g.score, 1);
    assert_eq!(g.current.y, 0);
    g.move_down_with(BlockType::I, 20);
    assert_eq!(g.score, 2);
    assert_eq!(g.current.y, 1);
    // the gravity timer is untouched by a successful soft drop
    assert_eq!(g.last_drop_ms, 0);
}

#[test]
fn soft_drop_into_collision_locks_and_spawns_fresh_piece() {
    let mut g = fresh(0);
    g.current.y = 17;  // T cells reach row 19; one more row collides with the floor
    g.move_down_with(BlockType::S, 40);
    assert_eq!(g.current.y, 18);
    let settled_before = count_settled(&g);
    assert_eq!(settled_before, 0);
    g.move_down_with(BlockType::S, 50);
    // blocked: the piece locks, the stored next kind spawns at the top
    assert_eq!(count_settled(&g), 4);
    assert_eq!(g.current.kind, BlockType::L);
    assert_eq!(g.current.rotation, 0);
    assert_eq!(g.current.x, 3);
    assert_eq!(g.current.y, -1);
    assert_eq!(g.next, BlockType::S);
    assert_eq!(g.last_drop_ms, 50);
    // the blocked drop itself scores nothing
    assert_eq!(g.score, 1);
}

#[test]
fn hard_drop_locks_at_the_bottom_without_scoring() {
    let mut g = fresh(0);
    g.hard_drop_with(BlockType::Z, 30);
    assert_eq!(g.score, 0);
    assert_eq!(count_settled(&g), 4);
    // T at spawn falls to rest on the floor: box rows 0 and 1 settle in rows 18 and 19
    assert_eq!(g.board.rows[18][4], Some(BlockType::T));
    assert_eq!(g.board.rows[19][3], Some(BlockType::T));
    assert_eq!(g.board.rows[19][4], Some(BlockType::T));
    assert_eq!(g.board.rows[19][5], Some(BlockType::T));
    assert_eq!(g.current.kind, BlockType::L);
    assert_eq!(g.current.y, -1);
    assert_eq!(g.next, BlockType::Z);
    assert_eq!(g.last_drop_ms, 30);
}

#[test]
fn single_line_clear_at_level_one_scores_100() {
    let mut g = Game::new_with(BlockType::I, BlockType::L, 0);
    fill_row_except(&mut g, 19, &[3, 4, 5, 6]);
    g.current.y = 18;  // horizontal I cells land exactly in row 19
    g.lock_piece_with(BlockType::S, 60);
    assert_eq!(g.lines_cleared, 1);
    assert_eq!(g.score, 100);
    assert_eq!(g.level, 1);
    assert_eq!(count_settled(&g), 0);
}

#[test]
fn double_and_triple_line_scores() {
    // two rows: 300 points at level 1
    let mut g = Game::new_with(BlockType::O, BlockType::L, 0);
    fill_row_except(&mut g, 18, &[4, 5]);
    fill_row_except(&mut g, 19, &[4, 5]);
    g.current.y = 18;
    g.current.x = 3;  // O occupies box columns 1 and 2: board columns 4 and 5
    g.lock_piece_with(BlockType::S, 0);
    assert_eq!(g.lines_cleared, 2);
    assert_eq!(g.score, 300);
    // three rows: 500 points at level 1
    let mut g3 = Game::new_with(BlockType::I, BlockType::L, 0);
    g3.current.rotation = 1;  // vertical I: box column 2, rows 0..4
    g3.current.x = 0;
    g3.current.y = 16;
    fill_row_except(&mut g3, 17, &[2]);
    fill_row_except(&mut g3, 18, &[2]);
    fill_row_except(&mut g3, 19, &[2]);
    g3.lock_piece_with(BlockType::S, 0);
    assert_eq!(g3.lines_cleared, 3);
    assert_eq!(g3.score, 500);
    // row 16 keeps the one leftover I cell
    assert_eq!(count_settled(&g3), 1);
    assert_eq!(g3.board.rows[19][2], Some(BlockType::I));
}

#[test]
fn four_line_clear_at_level_one_scores_800() {
    let mut g = Game::new_with(BlockType::I, BlockType::L, 0);
    g.current.rotation = 1;  // vertical I: box column 2, rows 0..4
    g.current.x = 0;
    g.current.y = 16;
    for y in 16..20 {
        fill_row_except(&mut g, y, &[2]);
    }
    g.lock_piece_with(BlockType::S, 0);
    assert_eq!(g.lines_cleared, 4);
    assert_eq!(g.score, 800);
    assert_eq!(count_settled(&g), 0);
}

#[test]
fn tenth_line_raises_the_level_and_speeds_gravity() {
    let mut g = Game::new_with(BlockType::I, BlockType::L, 0);
    g.lines_cleared = 9;
    fill_row_except(&mut g, 19, &[3, 4, 5, 6]);
    g.current.y = 18;
    g.lock_piece_with(BlockType::S, 0);
    assert_eq!(g.lines_cleared, 10);
    assert_eq!(g.level, 2);
    assert_eq!(g.gravity_interval_ms, 650);
    // the award still uses the level before the clear
    assert_eq!(g.score, 100);
}

#[test]
fn blocked_spawn_sets_game_over_and_freezes_play() {
    let mut g = fresh(0);
    // settle cells across the spawn rows so the next piece cannot enter
    fill_row_except(&mut g, 0, &[]);
    fill_row_except(&mut g, 1, &[]);
    g.spawn_next_with(BlockType::I);
    assert!(g.game_over);
    let before = snapshot(&g);
    g.move_left();
    assert!(states_equal(&g, &before));
    g.move_right();
    assert!(states_equal(&g, &before));
    g.move_down_with(BlockType::S, 99);
    assert!(states_equal(&g, &before));
    g.hard_drop_with(BlockType::S, 99);
    assert!(states_equal(&g, &before));
    g.rotate_cw();
    assert!(states_equal(&g, &before));
    g.rotate_ccw();
    assert!(states_equal(&g, &before));
    g.step_with(BlockType::S, 100_000);
    assert!(states_equal(&g, &before));
}

#[test]
fn reset_from_game_over_restores_the_initial_state() {
    let mut g = fresh(0);
    fill_row_except(&mut g, 0, &[]);
    fill_row_except(&mut g, 1, &[]);
    g.score = 1234;
    g.lines_cleared = 31;
    g.level = 4;
    g.gravity_interval_ms = 550;
    g.spawn_next_with(BlockType::I);
    assert!(g.game_over);
    g.reset_with(BlockType::Z, BlockType::S, 777);
    assert_eq!(g.score, 0);
    assert_eq!(g.level, 1);
    assert_eq!(g.lines_cleared, 0);
    assert!(!g.game_over);
    assert!(!g.paused);
    assert_eq!(count_settled(&g), 0);
    assert_eq!(g.current, ActivePiece::new(BlockType::Z));
    assert_eq!(g.next, BlockType::S);
    assert_eq!(g.start_ms, 777);
    assert_eq!(g.gravity_interval_ms, 700);
}

#[test]
fn reset_with_random_kinds_restores_counters() {
    let mut g = fresh(0);
    g.score = 50;
    g.reset(11);
    assert_eq!(g.score, 0);
    assert_eq!(g.level, 1);
    assert_eq!(g.lines_cleared, 0);
    assert_eq!(g.current.rotation, 0);
    assert_eq!(g.current.x, 3);
    assert_eq!(g.current.y, -1);
}

#[test]
fn pause_freezes_everything_but_unpause_and_reset() {
    let mut g = fresh(0);
    g.toggle_pause();
    assert!(g.paused);
    let before = snapshot(&g);
    g.move_left();
    assert!(states_equal(&g, &before));
    g.step_with(BlockType::S, 100_000);
    assert!(states_equal(&g, &before));
    g.hard_drop_with(BlockType::S, 99);
    assert!(states_equal(&g, &before));
    g.toggle_pause();
    assert!(!g.paused);
    g.move_left();
    assert_eq!(g.current.x, 2);
}

#[test]
fn gravity_waits_for_the_interval_then_drops() {
    let mut g = fresh(0);
    g.step_with(BlockType::S, 699);
    assert_eq!(g.current.y, -1);
    assert_eq!(g.last_drop_ms, 0);
    g.step_with(BlockType::S, 700);
    assert_eq!(g.current.y, 0);
    assert_eq!(g.last_drop_ms, 700);
    g.step_with(BlockType::S, 800);
    assert_eq!(g.current.y, 0);
    g.step_with(BlockType::S, 1400);
    assert_eq!(g.current.y, 1);
    // a gravity drop scores nothing
    assert_eq!(g.score, 0);
}

#[test]
fn gravity_into_collision_locks_the_piece() {
    let mut g = fresh(0);
    g.current.y = 18;
    g.step_with(BlockType::S, 700);
    assert_eq!(count_settled(&g), 4);
    assert_eq!(g.current.kind, BlockType::L);
    assert_eq!(g.next, BlockType::S);
}

#[test]
fn rotation_is_committed_only_when_a_trial_offset_fits() {
    // free rotation in open space
    let mut g = fresh(0);
    g.current.y = 5;
    g.rotate_cw();
    assert_eq!(g.current.rotation, 1);
    g.rotate_ccw();
    assert_eq!(g.current.rotation, 0);
    // a vertical I against the right wall kicks one cell left
    let mut gi = Game::new_with(BlockType::I, BlockType::L, 0);
    gi.current.rotation = 1;
    gi.current.x = 7;
    gi.current.y = 5;
    gi.rotate_cw();
    assert_eq!(gi.current.rotation, 0);
    assert_eq!(gi.current.x, 6);
    assert_eq!(gi.current.y, 5);
}

#[test]
fn rotation_with_every_offset_blocked_is_rejected() {
    let mut g = Game::new_with(BlockType::I, BlockType::L, 0);
    // horizontal I in a one-row slot: every rotation trial collides
    g.current.y = 18;  // cells in row 19
    for y in 15..19 {
        fill_row_except(&mut g, y, &[3, 4, 5, 6]);
    }
    fill_row_except(&mut g, 14, &[]);
    g.rotate_cw();
    assert_eq!(g.current.rotation, 0);
    assert_eq!(g.current.x, 3);
    assert_eq!(g.current.y, 18);
}

#[test]
fn lock_above_the_visible_rows_drops_those_cells() {
    let mut g = Game::new_with(BlockType::I, BlockType::L, 0);
    g.current.rotation = 1;  // vertical I, box rows 0..4
    g.current.y = -2;  // cells at rows -2..2: two on the board
    g.lock_piece_with(BlockType::S, 0);
    assert_eq!(count_settled(&g), 2);
    assert_eq!(g.board.rows[0][5], Some(BlockType::I));
    assert_eq!(g.board.rows[1][5], Some(BlockType::I));
}

#[test]
fn elapsed_counts_from_the_start_time() {
    let g = fresh(500);
    assert_eq!(g.elapsed_ms(500), 0);
    assert_eq!(g.elapsed_ms(1700), 1200);
    assert_eq!(g.elapsed_ms(100), 0);
}

#[test]
fn durations_format_as_two_digit_minutes_and_seconds() {
    assert_eq!(format_duration(0), "00:00");
    assert_eq!(format_duration(9), "00:09");
    assert_eq!(format_duration(59), "00:59");
    assert_eq!(format_duration(60), "01:00");
    assert_eq!(format_duration(61), "01:01");
    assert_eq!(format_duration(600), "10:00");
    assert_eq!(format_duration(3661), "61:01");
    assert_eq!(format_duration(7509), "125:09");
}
