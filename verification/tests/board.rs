use chess_replay::board::Board;
use chess_replay::piece::Piece;
use chess_replay::types::{Colour, PieceType};

#[test]
fn test_equality() {
    let a = Board::default();
    let b = Board::default();

    assert_eq!(a, b);
}

#[test]
fn test_find_piece() {
    let start_board = Board::default();

    assert_eq!(start_board.find_piece_by_pos(0, 0).unwrap(), 0);
    assert_eq!(start_board.find_piece_by_pos(7, 0).unwrap(), 1);
    assert!(start_board.find_piece_by_pos(3, 3).is_none());
}

#[test]
fn test_tiles_between() {
    let q_to_q = Board::get_tiles_between([3, 0], [3, 7]).unwrap();

    let expected_result = vec![[3, 1], [3, 2], [3, 3], [3, 4], [3, 5], [3, 6]];

    assert_eq!(q_to_q, expected_result);

    let highly_spesific_case = Board::get_tiles_between([3, 0], [7, 0]).unwrap();
    let expected_result = vec![[4, 0], [5, 0], [6, 0]];

    assert_eq!(highly_spesific_case, expected_result);

    let negative_test = Board::get_tiles_between([7, 0], [3, 0]).unwrap();
    let expected_result = vec![[6, 0], [5, 0], [4, 0]];

    assert_eq!(negative_test, expected_result);
}

#[test]
fn test_intervention() {
    let initial_board = Board::default();
    let r_to_r = Board::get_tiles_between([0, 0], [7, 0]).unwrap();
    let interventions = initial_board.get_intervening_pieces(&r_to_r);

    assert_eq!(interventions.len(), 6);

    let mut empty_board = Board::_blank();

    empty_board.pieces.push(Piece::new([7, 0], PieceType::Rook(Colour::White)));
    empty_board.pieces.push(Piece::new([5, 0], PieceType::Bishop(Colour::Black)));
    empty_board.pieces.push(Piece::new([3, 4], PieceType::Rook(Colour::White)));

    let wrong_rook = Board::get_tiles_between([7, 0], [3, 0]).unwrap();
    let correct_rook = Board::get_tiles_between([3, 4], [3, 0]).unwrap();

    let i1 = empty_board.get_intervening_pieces(&wrong_rook);
    assert_eq!(i1.len(), 1);

    let i2 = empty_board.get_intervening_pieces(&correct_rook);
    assert_eq!(i2.len(), 0);
}

#[test]
fn equality_ignores_the_order_of_the_pieces() {
    let mut a = Board::_blank();
    a.pieces.push(Piece::new([0, 0], PieceType::Rook(Colour::White)));
    a.pieces.push(Piece::new([4, 7], PieceType::King(Colour::Black)));
    let mut b = Board::_blank();
    b.pieces.push(Piece::new([4, 7], PieceType::King(Colour::Black)));
    b.pieces.push(Piece::new([0, 0], PieceType::Rook(Colour::White)));

    assert_eq!(a, b);
}

#[test]
fn equality_tells_boards_apart() {
    let start = Board::default();

    let mut fewer = Board::default();
    fewer.pieces.remove(3);
    assert_ne!(start, fewer);
    assert_ne!(fewer, start);

    let mut moved = Board::default();
    moved.pieces[16].pos = [0, 2];
    assert_ne!(start, moved);

    let mut other_kind = Board::default();
    other_kind.pieces[0].piece_type = PieceType::Queen(Colour::White);
    assert_ne!(start, other_kind);

    let mut twice = Board::_blank();
    twice.pieces.push(Piece::new([0, 0], PieceType::Rook(Colour::White)));
    twice.pieces.push(Piece::new([0, 0], PieceType::Rook(Colour::White)));
    twice.pieces.push(Piece::new([1, 0], PieceType::Knight(Colour::White)));
    let mut other_twice = Board::_blank();
    other_twice.pieces.push(Piece::new([0, 0], PieceType::Rook(Colour::White)));
    other_twice.pieces.push(Piece::new([1, 0], PieceType::Knight(Colour::White)));
    other_twice.pieces.push(Piece::new([1, 0], PieceType::Knight(Colour::White)));
    assert_ne!(twice, other_twice);
}

#[test]
fn a_new_board_holds_the_thirty_two_pieces_in_order() {
    let board = Board::default();

    assert_eq!(board.pieces.len(), 32);
    assert_eq!(board.pieces[0], Piece::new([0, 0], PieceType::Rook(Colour::White)));
    assert_eq!(board.pieces[3], Piece::new([7, 7], PieceType::Rook(Colour::Black)));
    assert_eq!(board.pieces[4], Piece::new([1, 0], PieceType::Knight(Colour::White)));
    assert_eq!(board.pieces[11], Piece::new([5, 7], PieceType::Bishop(Colour::Black)));
    assert_eq!(board.pieces[12], Piece::new([3, 0], PieceType::Queen(Colour::White)));
    assert_eq!(board.pieces[13], Piece::new([3, 7], PieceType::Queen(Colour::Black)));
    assert_eq!(board.pieces[14], Piece::new([4, 0], PieceType::King(Colour::White)));
    assert_eq!(board.pieces[15], Piece::new([4, 7], PieceType::King(Colour::Black)));
    for i in 0..8 {
        assert_eq!(
            board.pieces[16 + 2 * i],
            Piece::new([i as i8, 1], PieceType::Pawn(Colour::White))
        );
        assert_eq!(
            board.pieces[17 + 2 * i],
            Piece::new([i as i8, 6], PieceType::Pawn(Colour::Black))
        );
    }
    for x in 0..8 {
        for y in 0..8 {
            let expected = y == 0 || y == 1 || y == 6 || y == 7;
            assert_eq!(board.find_piece_by_pos(x, y).is_some(), expected);
        }
    }
}

#[test]
fn a_blank_board_is_empty() {
    let board = Board::_blank();

    assert_eq!(board.pieces.len(), 0);
    assert!(board.find_piece_by_pos(0, 0).is_none());
}

#[test]
fn a_piece_alone_on_its_square_is_found_until_it_is_removed() {
    for x in 0..8 {
        for y in 0..8 {
            let mut board = Board::_blank();
            board.pieces.push(Piece::new([7 - x, 7 - y], PieceType::Pawn(Colour::Black)));
            if (x, y) != (7 - x, 7 - y) {
                assert!(board.find_piece_by_pos(x, y).is_none());
            }
            board.pieces.push(Piece::new([x, y], PieceType::Queen(Colour::White)));
            assert_eq!(board.find_piece_by_pos(x, y), Some(1));
            board.pieces.remove(1);
            assert_eq!(board.find_piece_by_pos(x, y), None);
        }
    }
}

#[test]
fn of_two_pieces_on_one_square_the_first_is_found() {
    let mut board = Board::_blank();
    board.pieces.push(Piece::new([2, 2], PieceType::Pawn(Colour::Black)));
    board.pieces.push(Piece::new([3, 3], PieceType::Pawn(Colour::Black)));
    board.pieces.push(Piece::new([3, 3], PieceType::Queen(Colour::White)));

    assert_eq!(board.find_piece_by_pos(3, 3), Some(1));
}

#[test]
fn tiles_between_run_from_the_first_square_to_the_second() {
    assert_eq!(Board::get_tiles_between([0, 0], [3, 3]), Some(vec![[1, 1], [2, 2]]));
    assert_eq!(Board::get_tiles_between([3, 3], [0, 0]), Some(vec![[2, 2], [1, 1]]));
    assert_eq!(Board::get_tiles_between([0, 7], [3, 4]), Some(vec![[1, 6], [2, 5]]));
    assert_eq!(Board::get_tiles_between([3, 4], [0, 7]), Some(vec![[2, 5], [1, 6]]));
    assert_eq!(Board::get_tiles_between([5, 2], [5, 6]), Some(vec![[5, 3], [5, 4], [5, 5]]));
    assert_eq!(Board::get_tiles_between([5, 6], [5, 2]), Some(vec![[5, 5], [5, 4], [5, 3]]));
}

#[test]
fn tiles_between_neighbours_and_between_a_square_and_itself_are_none() {
    assert_eq!(Board::get_tiles_between([4, 4], [4, 4]), Some(vec![]));
    assert_eq!(Board::get_tiles_between([4, 4], [4, 5]), Some(vec![]));
    assert_eq!(Board::get_tiles_between([4, 4], [5, 5]), Some(vec![]));
    assert_eq!(Board::get_tiles_between([4, 4], [3, 4]), Some(vec![]));
}

#[test]
fn there_are_no_tiles_between_squares_that_are_not_in_line() {
    assert_eq!(Board::get_tiles_between([0, 0], [1, 3]), None);
    assert_eq!(Board::get_tiles_between([1, 3], [0, 0]), None);
    assert_eq!(Board::get_tiles_between([1, 0], [2, 2]), None);
    assert_eq!(Board::get_tiles_between([7, 7], [0, 1]), None);
}

#[test]
fn tiles_between_come_back_reversed() {
    for ax in 0..8 {
        for ay in 0..8 {
            for bx in 0..8 {
                for by in 0..8 {
                    let there = Board::get_tiles_between([ax, ay], [bx, by]);
                    let back = Board::get_tiles_between([bx, by], [ax, ay]);
                    match (there, back) {
                        (Some(t), Some(mut b)) => {
                            b.reverse();
                            assert_eq!(t, b);
                        }
                        (None, None) => {}
                        _ => panic!("one way only"),
                    }
                }
            }
        }
    }
}

#[test]
fn tiles_between_are_found_far_off_the_board() {
    let far = Board::get_tiles_between([-128, 127], [127, -128]).unwrap();

    assert_eq!(far.len(), 254);
    assert_eq!(far[0], [-127, 126]);
    assert_eq!(far[253], [126, -127]);
    assert_eq!(Board::get_tiles_between([-128, -128], [127, 126]), None);
}

#[test]
fn intervening_pieces_keep_the_order_of_the_squares() {
    let board = Board::default();
    let between = Board::get_tiles_between([0, 3], [0, 7]).unwrap();
    assert_eq!(board.get_intervening_pieces(&between), vec![[0, 6]]);

    let squares = vec![[4, 7], [4, 4], [4, 0], [9, 9], [4, 1]];
    assert_eq!(board.get_intervening_pieces(&squares), vec![[4, 7], [4, 0], [4, 1]]);
}

#[test]
fn only_sliding_pieces_are_blocked() {
    let board = Board::default();

    assert!(board.check_for_collisions([0, 0], [0, 5], PieceType::Rook(Colour::White)));
    assert!(board.check_for_collisions([3, 0], [3, 5], PieceType::Queen(Colour::White)));
    assert!(board.check_for_collisions([2, 0], [5, 3], PieceType::Bishop(Colour::White)));
    assert!(!board.check_for_collisions([0, 0], [0, 5], PieceType::Pawn(Colour::White)));
    assert!(!board.check_for_collisions([0, 0], [0, 5], PieceType::King(Colour::White)));
    assert!(!board.check_for_collisions([0, 0], [0, 5], PieceType::Knight(Colour::White)));
}

#[test]
fn a_sliding_piece_is_blocked_by_what_stands_strictly_between() {
    let mut board = Board::_blank();
    board.pieces.push(Piece::new([0, 0], PieceType::Rook(Colour::White)));
    board.pieces.push(Piece::new([0, 5], PieceType::Pawn(Colour::Black)));
    let rook = PieceType::Rook(Colour::White);

    assert!(!board.check_for_collisions([0, 0], [0, 5], rook));
    assert!(!board.check_for_collisions([0, 0], [0, 1], rook));
    assert!(!board.check_for_collisions([0, 0], [0, 0], rook));
    assert!(board.check_for_collisions([0, 0], [0, 6], rook));
    assert!(board.check_for_collisions([0, 7], [0, 1], rook));
    assert!(!board.check_for_collisions([0, 0], [7, 0], rook));
    assert!(!board.check_for_collisions([0, 4], [0, 5], rook));
}

#[test]
fn nothing_is_blocked_between_squares_that_are_not_in_line() {
    let board = Board::default();

    assert!(!board.check_for_collisions([0, 0], [1, 3], PieceType::Queen(Colour::White)));
    assert!(!board.check_for_collisions([0, 0], [5, 7], PieceType::Rook(Colour::White)));
}

#[test]
fn the_grid_shows_each_square_rank_by_rank() {
    let board = Board::default();
    let cells = board.grid();

    assert_eq!(cells.len(), 64);
    assert_eq!(cells[0], Some(PieceType::Rook(Colour::White)));
    assert_eq!(cells[1], Some(PieceType::Knight(Colour::White)));
    assert_eq!(cells[3], Some(PieceType::Queen(Colour::White)));
    assert_eq!(cells[4], Some(PieceType::King(Colour::White)));
    assert_eq!(cells[7], Some(PieceType::Rook(Colour::White)));
    for k in 8..16 {
        assert_eq!(cells[k], Some(PieceType::Pawn(Colour::White)));
    }
    for k in 16..48 {
        assert_eq!(cells[k], None);
    }
    for k in 48..56 {
        assert_eq!(cells[k], Some(PieceType::Pawn(Colour::Black)));
    }
    assert_eq!(cells[59], Some(PieceType::Queen(Colour::Black)));
    assert_eq!(cells[60], Some(PieceType::King(Colour::Black)));
    assert_eq!(cells[63], Some(PieceType::Rook(Colour::Black)));
}
