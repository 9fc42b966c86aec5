use tetris_core::board::Board;
use tetris_core::board::BOARD_HEIGHT;
use tetris_core::board::BOARD_WIDTH;
use tetris_core::kind::BlockType;
use tetris_core::piece::ActivePiece;
use tetris_core::piece::Tetromino;

fn empty_board() -> Board {
    Board::new()
}

fn count_settled(b: &Board) -> usize {
    let mut n: usize = 0;
    for row in b.rows.iter() {
        for cell in row.iter() {
            if cell.is_some() {
                n += 1;
            }
        }
    }
    n
}

fn fill_row_except(b: &mut Board, y: usize, holes: &[usize]) {
    for x in 0..BOARD_WIDTH {
        if !holes.contains(&x) {
            b.rows[y][x] = Some(BlockType::J);
        }
    }
}

#[test]
fn all_lists_seven_distinct_kinds() {
    let all = BlockType::all();
    assert_eq!(all.len(), 7);
    for i in 0..7 {
        for j in 0..7 {
            if i != j {
                assert_ne!(all[i], all[j]);
            }
        }
    }
}

#[test]
fn from_index_matches_all() {
    let all = BlockType::all();
    for i in 0..7u8 {
        assert_eq!(BlockType::from_index(i), all[i as usize]);
    }
}

#[test]
fn colors_are_the_classical_ones() {
    assert_eq!(BlockType::I.color(), (0, 255, 255));
    assert_eq!(BlockType::O.color(), (255, 255, 0));
    assert_eq!(BlockType::T.color(), (255, 0, 255));
    assert_eq!(BlockType::S.color(), (0, 255, 0));
    assert_eq!(BlockType::Z.color(), (255, 0, 0));
    assert_eq!(BlockType::J.color(), (0, 0, 255));
    assert_eq!(BlockType::L.color(), (255, 165, 0));
}

#[test]
fn rotation_counts_per_kind() {
    assert_eq!(Tetromino::new(BlockType::I).rotations.len(), 2);
    assert_eq!(Tetromino::new(BlockType::O).rotations.len(), 1);
    assert_eq!(Tetromino::new(BlockType::T).rotations.len(), 4);
    assert_eq!(Tetromino::new(BlockType::S).rotations.len(), 2);
    assert_eq!(Tetromino::new(BlockType::Z).rotations.len(), 2);
    assert_eq!(Tetromino::new(BlockType::J).rotations.len(), 4);
    assert_eq!(Tetromino::new(BlockType::L).rotations.len(), 4);
}

#[test]
fn every_rotation_has_four_cells_in_the_box() {
    for kind in BlockType::all() {
        let t = Tetromino::new(kind);
        for rot in t.rotations.iter() {
            assert_eq!(rot.len(), 4);
            for &(x, y) in rot.iter() {
                assert!((0..4).contains(&x));
                assert!((0..4).contains(&y));
            }
            for i in 0..4 {
                for j in 0..4 {
                    if i != j {
                        assert_ne!(rot[i], rot[j]);
                    }
                }
            }
        }
    }
}

#[test]
fn spawned_piece_sits_near_top_center() {
    for kind in BlockType::all() {
        let p = ActivePiece::new(kind);
        assert_eq!(p.rotation, 0);
        assert_eq!(p.x, 3);
        assert_eq!(p.y, -1);
    }
}

#[test]
fn cells_of_spawned_i_piece() {
    let p = ActivePiece::new(BlockType::I);
    let cells = p.cells();
    assert_eq!(cells, vec![(3, 0), (4, 0), (5, 0), (6, 0)]);
}

#[test]
fn rotate_cw_twice_then_ccw_twice_restores_rotation() {
    for kind in BlockType::all() {
        for start in 0..Tetromino::new(kind).rotations.len() {
            let mut p = ActivePiece::new(kind);
            p.rotation = start;
            p.rotate_cw();
            p.rotate_cw();
            p.rotate_ccw();
            p.rotate_ccw();
            assert_eq!(p.rotation, start);
        }
    }
}

#[test]
fn rotate_wraps_at_both_ends() {
    let mut p = ActivePiece::new(BlockType::T);
    p.rotate_ccw();
    assert_eq!(p.rotation, 3);
    p.rotate_cw();
    assert_eq!(p.rotation, 0);
    let mut o = ActivePiece::new(BlockType::O);
    o.rotate_cw();
    assert_eq!(o.rotation, 0);
}

#[test]
fn collision_against_walls_floor_and_settled_cells() {
    let mut b = empty_board();
    let p = ActivePiece::new(BlockType::O);
    assert!(!b.check_collision(&p, 0, 0));
    // left wall: O occupies box columns 1 and 2, so x = -2 touches column -1
    let mut left = p;
    left.x = -1;
    assert!(!b.check_collision(&left, 0, 0));
    assert!(b.check_collision(&left, -1, 0));
    // right wall
    let mut right = p;
    right.x = 7;
    assert!(!b.check_collision(&right, 0, 0));
    assert!(b.check_collision(&right, 1, 0));
    // floor: O occupies box rows 0 and 1
    let mut low = p;
    low.y = 18;
    assert!(!b.check_collision(&low, 0, 0));
    assert!(b.check_collision(&low, 0, 1));
    // settled cell
    b.rows[10][4] = Some(BlockType::I);
    let mut above = p;
    above.x = 3;
    above.y = 8;
    assert!(!b.check_collision(&above, 0, 0));
    assert!(b.check_collision(&above, 0, 1));
}

#[test]
fn cells_above_the_board_only_collide_with_side_walls() {
    let mut b = empty_board();
    // settle the whole top row; a piece above it must not collide
    fill_row_except(&mut b, 0, &[]);
    let mut p = ActivePiece::new(BlockType::I);
    p.rotation = 1; // vertical, box column 2
    p.y = -4;
    assert!(!b.check_collision(&p, 0, 0));
    p.x = -3;
    assert!(b.check_collision(&p, -1, 0));
}

#[test]
fn lock_writes_exactly_the_on_board_cells() {
    let mut b = empty_board();
    let p = ActivePiece::new(BlockType::T);
    let cells = p.cells();
    b.lock(BlockType::T, &cells);
    // T at spawn: (4, -1) is above the board and is dropped; the other
    // three cells land in row 0
    assert_eq!(count_settled(&b), 3);
    assert_eq!(b.rows[0][3], Some(BlockType::T));
    assert_eq!(b.rows[0][4], Some(BlockType::T));
    assert_eq!(b.rows[0][5], Some(BlockType::T));
}

#[test]
fn locking_a_piece_fully_on_board_adds_four_cells() {
    for kind in BlockType::all() {
        let mut b = empty_board();
        let mut p = ActivePiece::new(kind);
        p.y = 5;
        assert!(!b.check_collision(&p, 0, 0));
        let before = count_settled(&b);
        let cells = p.cells();
        b.lock(kind, &cells);
        assert_eq!(count_settled(&b), before + 4);
    }
}

#[test]
fn clear_on_a_board_with_no_full_row_changes_nothing() {
    let mut b = empty_board();
    b.rows[19][0] = Some(BlockType::Z);
    b.rows[3][7] = Some(BlockType::S);
    let before = b.rows.clone();
    let removed = b.clear_full_lines();
    assert_eq!(removed, 0);
    assert_eq!(b.rows, before);
}

#[test]
fn clear_removes_full_rows_and_keeps_the_rest_in_order() {
    let mut b = empty_board();
    // full rows at 17 and 19, markers at 16 and 18
    fill_row_except(&mut b, 17, &[]);
    fill_row_except(&mut b, 19, &[]);
    b.rows[16][2] = Some(BlockType::S);
    b.rows[18][5] = Some(BlockType::Z);
    let before = count_settled(&b);
    let removed = b.clear_full_lines();
    assert_eq!(removed, 2);
    // the two marker rows shift to the bottom, order preserved
    assert_eq!(b.rows[18][2], Some(BlockType::S));
    assert_eq!(b.rows[19][5], Some(BlockType::Z));
    assert_eq!(count_settled(&b), before - 2 * BOARD_WIDTH);
    // the top rows are refilled empty
    for y in 0..2 {
        for x in 0..BOARD_WIDTH {
            assert_eq!(b.rows[y][x], None);
        }
    }
}

#[test]
fn clear_takes_up_to_four_rows_in_one_pass() {
    let mut b = empty_board();
    for y in (BOARD_HEIGHT - 4)..BOARD_HEIGHT {
        fill_row_except(&mut b, y, &[]);
    }
    let removed = b.clear_full_lines();
    assert_eq!(removed, 4);
    assert_eq!(count_settled(&b), 0);
}
