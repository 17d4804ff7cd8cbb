use tetris::block::{new_chunk, Block, Kind, I, J, L, O, S, T, Z};
use tetris::board::Board;
use tetris::game::Game;
use tetris::input::Input;

fn all_kinds() -> Vec<Block> {
    vec![I::new(), J::new(), L::new(), O::new(), S::new(), Z::new(), T::new()]
}

fn color(k: Kind) -> u8 {
    match k {
        Kind::I => 1,
        Kind::J => 2,
        Kind::L => 3,
        Kind::O => 4,
        Kind::S => 5,
        Kind::Z => 6,
        Kind::T => 7,
    }
}

fn count_mask(m: &[[u8; 4]; 4]) -> usize {
    m.iter().flatten().filter(|v| **v != 0).count()
}

fn count_board(b: &Board) -> usize {
    b.board_map.iter().flatten().filter(|v| **v != 0).count()
}

fn same_block(a: &Block, b: &Block) -> bool {
    a.kind == b.kind && a.x == b.x && a.y == b.y && a.current_state == b.current_state && a.shape == b.shape
}

#[test]
fn every_orientation_has_four_cells() {
    for b in all_kinds() {
        let first = count_mask(&b.states[0]);
        assert_eq!(first, 4);
        for s in 0..4 {
            assert_eq!(count_mask(&b.states[s]), first);
        }
    }
}

#[test]
fn new_pieces_start_at_spawn_with_their_color() {
    for b in all_kinds() {
        assert_eq!(b.x, 5);
        assert_eq!(b.y, 0);
        assert_eq!(b.current_state, 0);
        assert_eq!(b.shape, b.states[0]);
        for s in 0..4 {
            for row in b.states[s].iter() {
                for v in row.iter() {
                    assert!(*v == 0 || *v == color(b.kind));
                }
            }
        }
    }
}

#[test]
fn o_piece_has_one_mask_and_i_s_z_repeat() {
    let o = O::new();
    assert!(o.states.iter().all(|m| *m == o.states[0]));
    for b in [I::new(), S::new(), Z::new()] {
        assert_ne!(b.states[0], b.states[1]);
    }
    assert_eq!(S::new().states[0], S::new().states[2]);
    assert_eq!(Z::new().states[0], Z::new().states[2]);
}

#[test]
fn test_position_rejects_right_and_bottom_overflow() {
    let board = Board::new();
    let i = I::new();
    assert!(i.test_position(&board, 0, 6, 0));
    assert!(!i.test_position(&board, 0, 7, 0));
    assert!(i.test_position(&board, 1, 7, 16));
    assert!(!i.test_position(&board, 1, 7, 17));
    let o = O::new();
    assert!(o.test_position(&board, 0, 8, 18));
    assert!(!o.test_position(&board, 0, 9, 18));
    assert!(!o.test_position(&board, 0, 8, 19));
    for b in all_kinds() {
        for s in 0..4u8 {
            assert!(!b.test_position(&board, s, 10, 0));
            assert!(!b.test_position(&board, s, 0, 20));
        }
    }
}

#[test]
fn test_position_rejects_occupied_cells() {
    let mut board = Board::new();
    board.set_position(6, 1, 3);
    let t = T::new();
    // T orientation 0 occupies (1,0), (0,1), (1,1), (2,1) relative to its anchor.
    assert!(!t.test_position(&board, 0, 5, 0));
    assert!(t.test_position(&board, 0, 0, 0));
    assert_eq!(board.get_position(6, 1), 3);
}

#[test]
fn surrounded_piece_cannot_move_or_turn() {
    for start in [I::new(), J::new(), L::new(), S::new(), Z::new(), T::new()] {
        let mut piece = start;
        piece.x = 3;
        piece.y = 5;
        let mut board = Board::new();
        for y in 0..20usize {
            for x in 0..10usize {
                let r = y as i32 - 5;
                let c = x as i32 - 3;
                let covered = (0..4).contains(&r) && (0..4).contains(&c) && piece.shape[r as usize][c as usize] != 0;
                if !covered {
                    board.set_position(x, y, 1);
                }
            }
        }
        let before = piece;
        assert!(!piece.move_position(&board, 2, 5));
        assert!(!piece.move_position(&board, 4, 5));
        assert!(!piece.move_position(&board, 3, 6));
        piece.rotate_right(&board);
        assert!(same_block(&piece, &before));
        piece.rotate_left(&board);
        assert!(same_block(&piece, &before));
    }
}

#[test]
fn every_bag_holds_each_kind_once() {
    for _ in 0..1000 {
        let bag = new_chunk();
        let mut seen = [0u8; 8];
        for b in bag.iter() {
            seen[color(b.kind) as usize] += 1;
            assert_eq!(b.x, 5);
            assert_eq!(b.y, 0);
            assert_eq!(b.current_state, 0);
        }
        assert_eq!(&seen[1..], &[1u8; 7]);
    }
}

#[test]
fn placing_copies_exactly_the_piece_cells() {
    let mut board = Board::new();
    board.set_position(0, 19, 2);
    let mut t = T::new();
    t.x = 3;
    t.y = 10;
    let before = count_board(&board);
    let old = board.board_map;
    board.place_block(&t);
    assert_eq!(count_board(&board), before + 4);
    for y in 0..20usize {
        for x in 0..10usize {
            let r = y as i32 - 10;
            let c = x as i32 - 3;
            let inside = (0..4).contains(&r) && (0..4).contains(&c);
            if inside && t.shape[r as usize][c as usize] != 0 {
                assert_eq!(board.board_map[y][x], 7);
            } else {
                assert_eq!(board.board_map[y][x], old[y][x]);
            }
        }
    }
}

#[test]
fn o_piece_falls_to_the_floor_and_locks() {
    let mut game = Game::new();
    game.chunk[0] = O::new();
    let next_kind = game.chunk[1].kind;
    for step in 1..=18u8 {
        game.handle_falling();
        assert_eq!(game.chunk[0].y, step - 1);
        game.handle_falling();
        assert_eq!(game.chunk[0].y, step);
        assert_eq!(game.current_block, 0);
    }
    assert_eq!(game.chunk[0].x, 5);
    assert_eq!(game.chunk[0].y, 18);
    game.handle_falling();
    game.handle_falling();
    assert_eq!(game.board.board_map[18][5], 4);
    assert_eq!(game.board.board_map[18][6], 4);
    assert_eq!(game.board.board_map[19][5], 4);
    assert_eq!(game.board.board_map[19][6], 4);
    assert_eq!(count_board(&game.board), 4);
    assert_eq!(game.current_block, 1);
    assert_eq!(game.chunk[1].kind, next_kind);
    assert_eq!(game.chunk[1].x, 5);
    assert_eq!(game.chunk[1].y, 0);
    assert!(!game.game_over);
}

#[test]
fn a_full_row_is_cleared_and_rows_above_sink() {
    let mut board = Board::new();
    for x in 0..10usize {
        board.set_position(x, 19, 1);
    }
    board.set_position(2, 18, 5);
    board.set_position(7, 3, 6);
    let cleared = board.clear_completed_rows();
    assert_eq!(cleared, 1);
    assert_eq!(board.board_map[19][2], 5);
    assert_eq!(board.board_map[4][7], 6);
    assert_eq!(board.board_map[0], [0u8; 10]);
    assert_eq!(count_board(&board), 2);
}

#[test]
fn clearing_removes_several_rows_at_once() {
    let mut board = Board::new();
    for x in 0..10usize {
        board.set_position(x, 19, 1);
        board.set_position(x, 17, 2);
    }
    board.set_position(4, 18, 3);
    board.set_position(1, 16, 4);
    assert_eq!(board.clear_completed_rows(), 2);
    assert_eq!(board.board_map[19][4], 3);
    assert_eq!(board.board_map[18][1], 4);
    assert_eq!(count_board(&board), 2);
    let mut empty = Board::new();
    assert_eq!(empty.clear_completed_rows(), 0);
    assert_eq!(count_board(&empty), 0);
}

#[test]
fn locking_a_piece_that_completes_a_row_counts_it() {
    let mut game = Game::new();
    game.chunk[0] = O::new();
    for x in 0..10usize {
        if x != 5 && x != 6 {
            game.board.set_position(x, 19, 1);
        }
    }
    game.handle_input(Input::Drop);
    assert_eq!(game.lines, 1);
    assert_eq!(game.score, 1);
    assert_eq!(game.board.board_map[19][5], 4);
    assert_eq!(game.board.board_map[19][6], 4);
    assert_eq!(count_board(&game.board), 2);
    assert_eq!(game.current_block, 1);
    assert_eq!(game.counter, 0);
}

#[test]
fn commands_move_and_turn_the_active_piece() {
    let mut game = Game::new();
    game.chunk[0] = T::new();
    game.handle_input(Input::Left);
    assert_eq!(game.chunk[0].x, 4);
    game.handle_input(Input::Right);
    game.handle_input(Input::Right);
    assert_eq!(game.chunk[0].x, 6);
    game.handle_input(Input::Clockwise);
    assert_eq!(game.chunk[0].current_state, 1);
    assert_eq!(game.chunk[0].shape, game.chunk[0].states[1]);
    game.handle_input(Input::Counterclockwise);
    game.handle_input(Input::Counterclockwise);
    assert_eq!(game.chunk[0].current_state, 3);
    for _ in 0..10 {
        game.handle_input(Input::Right);
    }
    // T orientation 3 occupies columns 0 and 1 of its box.
    assert_eq!(game.chunk[0].x, 8);
    for _ in 0..10 {
        game.handle_input(Input::Left);
    }
    assert_eq!(game.chunk[0].x, 0);
}

#[test]
fn turning_against_the_wall_is_refused() {
    let mut game = Game::new();
    let mut i = I::new();
    i.current_state = 1;
    i.shape = i.states[1];
    i.x = 7;
    game.chunk[0] = i;
    game.handle_input(Input::Clockwise);
    assert_eq!(game.chunk[0].current_state, 1);
    assert_eq!(game.chunk[0].x, 7);
}

#[test]
fn hard_drop_lands_and_spawns_next() {
    let mut game = Game::new();
    game.chunk[0] = I::new();
    game.handle_input(Input::Drop);
    // I orientation 0 occupies row 1 of its box, so it lands with its box at row 18.
    for x in 5..9usize {
        assert_eq!(game.board.board_map[19][x], 1);
    }
    assert_eq!(count_board(&game.board), 4);
    assert_eq!(game.current_block, 1);
    assert_eq!(game.chunk[1].y, 0);
}

#[test]
fn a_blocked_spawn_ends_the_game() {
    let mut game = Game::new();
    game.chunk[0] = O::new();
    game.chunk[1] = T::new();
    for y in 0..20usize {
        for x in 1..10usize {
            let piece_cell = (y == 0 || y == 1) && (x == 5 || x == 6);
            if !piece_cell {
                game.board.set_position(x, y, 2);
            }
        }
    }
    assert!(game.update());
    game.handle_input(Input::Drop);
    assert!(game.game_over);
    assert!(!game.update());
    let board = game.board.board_map;
    let current = game.current_block;
    game.handle_falling();
    game.handle_falling();
    game.handle_input(Input::Left);
    game.handle_input(Input::Drop);
    game.place_current_block();
    assert_eq!(game.board.board_map, board);
    assert_eq!(game.current_block, current);
}

#[test]
fn a_new_game_starts_clean() {
    let mut game = Game::new();
    assert_eq!(count_board(&game.board), 0);
    assert_eq!(game.board.width, 10);
    assert_eq!(game.board.height, 20);
    assert_eq!(game.current_block, 0);
    assert_eq!(game.lines, 0);
    assert_eq!(game.score, 0);
    assert!(!game.game_over);
    assert!(game.update());
    game.handle_falling();
    assert_eq!(game.counter, 1);
    assert_eq!(game.chunk[0].y, 0);
    game.handle_falling();
    assert_eq!(game.counter, 0);
    assert_eq!(game.chunk[0].y, 1);
}

#[test]
fn bags_come_in_varied_orders() {
    let first: Vec<Kind> = new_chunk().iter().map(|b| b.kind).collect();
    let mut differs = false;
    for _ in 0..1000 {
        let next: Vec<Kind> = new_chunk().iter().map(|b| b.kind).collect();
        if next != first {
            differs = true;
        }
    }
    assert!(differs);
}
