//! End-to-end tests of the falling-block engine through its public API.

use firetris::board::{HEIGHT, WIDTH};
use firetris::piece::shape_of_index;
use firetris::{Command, Firetris, FiretrisController, Piece, PieceType};

const ALL_SHAPES: [PieceType; 7] = [
    PieceType::T,
    PieceType::Straight,
    PieceType::L,
    PieceType::RevL,
    PieceType::Block,
    PieceType::S,
    PieceType::Z,
];

fn empty_controller() -> FiretrisController {
    FiretrisController::new(Firetris::new())
}

/// Occupies every cell of `row` except the columns in `gaps`.
fn fill_row_except(board: &mut Firetris, row: usize, gaps: &[usize]) {
    for c in 0..WIDTH {
        if !gaps.contains(&c) {
            board.cells[row][c] = Some(9);
        }
    }
}

fn occupied_cells(board: &Firetris) -> usize {
    let mut n = 0;
    for r in 0..HEIGHT {
        for c in 0..WIDTH {
            if board.cells[r][c].is_some() {
                n += 1;
            }
        }
    }
    n
}

#[test]
fn board_starts_empty() {
    let board = Firetris::new();
    assert_eq!(board.score, 0);
    assert_eq!(board.level, 1);
    assert!(board.active_piece.is_none());
    assert!(board.stored_piece.is_none());
    assert_eq!(board.cells.len(), HEIGHT);
    for row in &board.cells {
        assert_eq!(row.len(), WIDTH);
        assert!(row.iter().all(|cell| cell.is_none()));
    }
}

#[test]
fn transforms_move_one_step() {
    let p = Piece::from(&PieceType::T);
    assert_eq!(p.position, (4, 0));
    assert_eq!(p.drop().position, (4, 1));
    assert_eq!(p.left().position, (3, 0));
    assert_eq!(p.right().position, (5, 0));
    assert_eq!(p.drop().blocks, p.blocks);
    assert_eq!(p.left().color, p.color);
}

#[test]
fn rotate_turns_each_offset() {
    let p = Piece::from(&PieceType::T);
    let r = p.rotate();
    assert_eq!(r.position, p.position);
    assert_eq!(r.color, p.color);
    for k in 0..4 {
        let (x, y) = p.blocks[k];
        assert_eq!(r.blocks[k], (y, -x));
    }
}

#[test]
fn rotation_four_times_is_identity() {
    for shape in ALL_SHAPES {
        let p = Piece::from(&shape);
        let r = p.rotate().rotate().rotate().rotate();
        assert_eq!(r.blocks, p.blocks);
        assert_eq!(r.position, p.position);
        assert_eq!(r.color, p.color);
    }
}

#[test]
fn collision_rejects_out_of_bounds_for_every_shape() {
    let ctl = empty_controller();
    for shape in ALL_SHAPES {
        let p = Piece::from(&shape);
        // Far past the left wall, the right wall, the floor, and the top.
        assert!(ctl.collision(&Piece { position: (-3, 5), ..p }));
        assert!(ctl.collision(&Piece { position: (WIDTH as i8 + 2, 5), ..p }));
        assert!(ctl.collision(&Piece { position: (4, HEIGHT as i8 + 2), ..p }));
        assert!(ctl.collision(&Piece { position: (4, -4), ..p }));
    }
}

#[test]
fn collision_detects_occupied_cells() {
    let mut ctl = empty_controller();
    let p = Piece::from(&PieceType::T);
    assert!(!ctl.collision(&p));
    // The T piece at (4, 0) covers (3, 0), (4, 0), (5, 0) and (4, 1).
    ctl.firetris.cells[1][4] = Some(9);
    assert!(ctl.collision(&p));
    // A cell the piece does not cover changes nothing.
    ctl.firetris.cells[1][4] = None;
    ctl.firetris.cells[2][4] = Some(9);
    assert!(!ctl.collision(&p));
}

#[test]
fn settle_writes_the_four_blocks() {
    let mut board = Firetris::new();
    let p = Piece::from(&PieceType::T);
    board.active_piece = Some(p);
    board.settle();
    assert_eq!(board.cells[0][3], Some(p.color));
    assert_eq!(board.cells[0][4], Some(p.color));
    assert_eq!(board.cells[0][5], Some(p.color));
    assert_eq!(board.cells[1][4], Some(p.color));
    assert_eq!(occupied_cells(&board), 4);
    assert_eq!(board.score, 0);
}

#[test]
fn settle_never_conflates_existing_occupants() {
    let mut board = Firetris::new();
    board.cells[31][0] = Some(8);
    board.cells[30][9] = Some(7);
    let p = Piece::from(&PieceType::Block);
    board.active_piece = Some(p);
    board.settle();
    assert_eq!(board.cells[31][0], Some(8));
    assert_eq!(board.cells[30][9], Some(7));
    assert_eq!(occupied_cells(&board), 6);
}

#[test]
fn clearing_zero_full_rows_changes_nothing() {
    let mut board = Firetris::new();
    fill_row_except(&mut board, 31, &[0]);
    fill_row_except(&mut board, 30, &[9]);
    board.score = 17;
    let before = board.cells.clone();
    board.check_filled_lines();
    assert_eq!(board.cells, before);
    assert_eq!(board.score, 17);
}

#[test]
fn scoring_table_for_one_to_four_rows() {
    let expected: [(usize, usize); 4] = [(1, 50), (2, 120), (3, 180), (4, 250)];
    for (rows, delta) in expected {
        let mut board = Firetris::new();
        for i in 0..rows {
            fill_row_except(&mut board, 31 - i, &[]);
        }
        board.check_filled_lines();
        assert_eq!(board.score, delta);
        assert_eq!(occupied_cells(&board), 0);
    }
}

#[test]
fn scoring_fallback_adds_the_count_itself() {
    let mut board = Firetris::new();
    for i in 0..5 {
        fill_row_except(&mut board, 31 - i, &[]);
    }
    board.check_filled_lines();
    assert_eq!(board.score, 5);
}

#[test]
fn clearing_an_entirely_full_board_empties_it() {
    let mut board = Firetris::new();
    for r in 0..HEIGHT {
        fill_row_except(&mut board, r, &[]);
    }
    board.check_filled_lines();
    // 32 rows cleared at once: outside the 1..=4 table, the count itself is
    // the fallback score.
    assert_eq!(board.score, HEIGHT);
    assert_eq!(occupied_cells(&board), 0);
}

#[test]
fn rotate_command_commits_a_legal_rotation() {
    let mut ctl = empty_controller();
    ctl.handle_command_with_shape(Command::Spawn, PieceType::T);
    ctl.handle_command_with_shape(Command::SoftDrop, PieceType::T);
    let before = ctl.firetris.active_piece.as_ref().unwrap().clone();
    ctl.handle_command_with_shape(Command::Rotate, PieceType::T);
    let after = ctl.firetris.active_piece.as_ref().unwrap().clone();
    assert_eq!(after.position, before.position);
    for k in 0..4 {
        let (x, y) = before.blocks[k];
        assert_eq!(after.blocks[k], (y, -x));
    }
}

#[test]
fn clearing_one_row_shifts_rows_above_down() {
    let mut board = Firetris::new();
    // A marker above the full row, and one below it.
    fill_row_except(&mut board, 20, &[]);
    board.cells[5][2] = Some(3);
    board.cells[25][7] = Some(4);
    board.check_filled_lines();
    assert_eq!(board.score, 50);
    // Row 0 is entirely empty.
    assert!(board.cells[0].iter().all(|cell| cell.is_none()));
    // The marker above row 20 moved one row lower; the one below stayed.
    assert_eq!(board.cells[6][2], Some(3));
    assert_eq!(board.cells[5][2], None);
    assert_eq!(board.cells[25][7], Some(4));
    assert_eq!(occupied_cells(&board), 2);
}

#[test]
fn clear_row_alone_moves_no_other_row() {
    let mut board = Firetris::new();
    board.cells[10][1] = Some(2);
    board.cells[12][3] = Some(5);
    board.clear_row(11);
    assert_eq!(board.cells[11][1], Some(2));
    assert_eq!(board.cells[12][3], Some(5));
    assert!(board.cells[0].iter().all(|cell| cell.is_none()));
    assert_eq!(board.score, 0);
}

#[test]
fn hard_drop_matches_repeated_soft_drops() {
    for shape in ALL_SHAPES {
        let mut by_hard = empty_controller();
        by_hard.handle_command_with_shape(Command::Spawn, shape);
        by_hard.handle_command_with_shape(Command::HardDrop, shape);
        let hard_pos = by_hard.firetris.active_piece.as_ref().unwrap().position;

        let mut by_soft = empty_controller();
        by_soft.handle_command_with_shape(Command::Spawn, shape);
        loop {
            let before = by_soft.firetris.active_piece.as_ref().unwrap().position;
            by_soft.handle_command_with_shape(Command::SoftDrop, shape);
            let after = by_soft.firetris.active_piece.as_ref().unwrap().position;
            if before == after {
                break;
            }
        }
        let soft_pos = by_soft.firetris.active_piece.as_ref().unwrap().position;
        assert_eq!(hard_pos, soft_pos);
    }
}

#[test]
fn spawn_then_twenty_moves_left_pins_at_the_wall() {
    let mut ctl = empty_controller();
    ctl.handle_command_with_shape(Command::Spawn, PieceType::T);
    let spawned = ctl.firetris.active_piece.as_ref().unwrap().clone();
    assert_eq!(spawned.position, (4, 0));
    assert_eq!(spawned.blocks, Piece::from(&PieceType::T).blocks);
    for _ in 0..20 {
        ctl.handle_command_with_shape(Command::MoveLeft, PieceType::T);
    }
    let pinned = ctl.firetris.active_piece.as_ref().unwrap().clone();
    // The T piece reaches column 1, where its leftmost block sits in column 0.
    assert_eq!(pinned.position, (1, 0));
    assert!(ctl.collision(&pinned.left()));
    assert!(!ctl.collision(&pinned));
}

#[test]
fn settling_into_a_gap_clears_the_row_for_fifty_points() {
    let mut board = Firetris::new();
    fill_row_except(&mut board, 31, &[4]);
    // The T piece at (4, 30): its lower block lands exactly in the gap.
    let mut piece = Piece::from(&PieceType::T);
    piece.position = (4, 30);
    board.active_piece = Some(piece);
    board.settle();
    assert_eq!(board.score, 50);
    // The cleared row is gone; the piece's upper three blocks slid down.
    assert_eq!(board.cells[31][3], Some(piece.color));
    assert_eq!(board.cells[31][4], Some(piece.color));
    assert_eq!(board.cells[31][5], Some(piece.color));
    assert_eq!(occupied_cells(&board), 3);
}

#[test]
fn gravity_settles_on_the_floor_and_spawns_the_next_shape() {
    let mut ctl = empty_controller();
    ctl.handle_command_with_shape(Command::Spawn, PieceType::Block);
    let first = ctl.firetris.active_piece.as_ref().unwrap().clone();
    let mut ticks = 0;
    loop {
        let score_before = ctl.firetris.score;
        let cells_before = occupied_cells(&ctl.firetris);
        ctl.gravity_tick_with_shape(PieceType::Straight);
        ticks += 1;
        assert!(ticks < 100, "the piece never settled");
        if occupied_cells(&ctl.firetris) != cells_before {
            // Settlement happened with no row cleared.
            assert_eq!(ctl.firetris.score, score_before);
            break;
        }
    }
    let respawned = ctl.firetris.active_piece.as_ref().unwrap().clone();
    let expected = Piece::from(&PieceType::Straight);
    assert_eq!(respawned.position, expected.position);
    assert_eq!(respawned.blocks, expected.blocks);
    assert_ne!(respawned.color, first.color);
    // The Block piece rests on the floor: four occupied cells remain.
    assert_eq!(occupied_cells(&ctl.firetris), 4);
    assert_eq!(ctl.firetris.cells[31][4], Some(first.color));
    assert_eq!(ctl.firetris.cells[31][5], Some(first.color));
    assert_eq!(ctl.firetris.cells[30][4], Some(first.color));
    assert_eq!(ctl.firetris.cells[30][5], Some(first.color));
}

#[test]
fn shape_table_is_a_bijection_on_the_seven_indices() {
    let mut shapes = Vec::new();
    for idx in 0..7u8 {
        shapes.push(shape_of_index(idx));
    }
    assert_eq!(
        shapes,
        vec![
            PieceType::T,
            PieceType::Straight,
            PieceType::L,
            PieceType::RevL,
            PieceType::Block,
            PieceType::S,
            PieceType::Z,
        ]
    );
    for a in 0..7 {
        for b in 0..a {
            assert_ne!(shapes[a], shapes[b]);
        }
    }
}

#[test]
fn random_spawn_produces_a_catalog_piece() {
    let mut ctl = empty_controller();
    ctl.handle_command(Command::Spawn);
    let piece = ctl.firetris.active_piece.as_ref().unwrap().clone();
    let matches_catalog = ALL_SHAPES.iter().any(|shape| {
        let p = Piece::from(shape);
        p.color == piece.color && p.blocks == piece.blocks && p.position == piece.position
    });
    assert!(matches_catalog);
}

#[test]
fn spawn_onto_an_occupied_spawn_cell_ends_the_game() {
    let mut ctl = empty_controller();
    fill_row_except(&mut ctl.firetris, 0, &[]);
    ctl.handle_command_with_shape(Command::Spawn, PieceType::T);
    assert!(ctl.game_over);
    assert!(ctl.firetris.active_piece.is_none());
    // A finished game ignores every further command.
    ctl.handle_command_with_shape(Command::Spawn, PieceType::T);
    assert!(ctl.game_over);
    assert!(ctl.firetris.active_piece.is_none());
}

#[test]
fn commands_without_an_active_piece_do_nothing() {
    let mut ctl = empty_controller();
    let score = ctl.firetris.score;
    ctl.handle_command_with_shape(Command::MoveLeft, PieceType::T);
    ctl.handle_command_with_shape(Command::Rotate, PieceType::T);
    ctl.handle_command_with_shape(Command::HardDrop, PieceType::T);
    ctl.gravity_tick_with_shape(PieceType::T);
    assert!(ctl.firetris.active_piece.is_none());
    assert_eq!(ctl.firetris.score, score);
    assert_eq!(occupied_cells(&ctl.firetris), 0);
}

#[test]
fn rejected_moves_leave_the_piece_in_place() {
    let mut ctl = empty_controller();
    ctl.handle_command_with_shape(Command::Spawn, PieceType::Straight);
    // Wall on both sides of the spawn row blocks sideways movement.
    ctl.firetris.cells[0][2] = Some(9);
    ctl.firetris.cells[0][7] = Some(9);
    let before = ctl.firetris.active_piece.as_ref().unwrap().clone();
    ctl.handle_command_with_shape(Command::MoveLeft, PieceType::T);
    ctl.handle_command_with_shape(Command::MoveRight, PieceType::T);
    let after = ctl.firetris.active_piece.as_ref().unwrap().clone();
    assert_eq!(before.position, after.position);
    assert_eq!(before.blocks, after.blocks);
}
