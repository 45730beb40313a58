use chess_replay::piece::Piece;
use chess_replay::types::{Capture, Castle, Colour, PieceType};

#[test]
fn a_pawn_advances_one_square_and_two_from_its_start() {
    let white = Piece::new([4, 1], PieceType::Pawn(Colour::White));
    assert_eq!(white.get_move_tiles(Castle::No), vec![[4, 2], [4, 3]]);
    let white = Piece::new([4, 2], PieceType::Pawn(Colour::White));
    assert_eq!(white.get_move_tiles(Castle::No), vec![[4, 3]]);
    let black = Piece::new([3, 6], PieceType::Pawn(Colour::Black));
    assert_eq!(black.get_move_tiles(Castle::No), vec![[3, 5], [3, 4]]);
    let black = Piece::new([3, 5], PieceType::Pawn(Colour::Black));
    assert_eq!(black.get_move_tiles(Castle::No), vec![[3, 4]]);
    let white_on_sixth = Piece::new([0, 6], PieceType::Pawn(Colour::White));
    assert_eq!(white_on_sixth.get_move_tiles(Castle::No), vec![[0, 7]]);
    let black_on_first = Piece::new([0, 1], PieceType::Pawn(Colour::Black));
    assert_eq!(black_on_first.get_move_tiles(Castle::No), vec![[0, 0]]);
}

#[test]
fn a_pawn_takes_diagonally_forward() {
    let white = Piece::new([4, 3], PieceType::Pawn(Colour::White));
    assert_eq!(white.get_capture_tiles(Castle::No), vec![[5, 4], [3, 4]]);
    let black = Piece::new([4, 3], PieceType::Pawn(Colour::Black));
    assert_eq!(black.get_capture_tiles(Castle::No), vec![[5, 2], [3, 2]]);
    let edge = Piece::new([0, 1], PieceType::Pawn(Colour::White));
    assert_eq!(edge.get_capture_tiles(Castle::No), vec![[1, 2], [-1, 2]]);
}

#[test]
fn a_king_goes_to_the_eight_squares_round_it() {
    let king = Piece::new([4, 0], PieceType::King(Colour::White));

    assert_eq!(
        king.get_move_tiles(Castle::No),
        vec![[4, 1], [5, 1], [5, 0], [5, -1], [4, -1], [3, -1], [3, 0], [3, 1]]
    );
    assert_eq!(king.get_capture_tiles(Castle::No), king.get_move_tiles(Castle::No));
}

#[test]
fn a_castling_king_has_one_square() {
    let king = Piece::new([4, 0], PieceType::King(Colour::White));
    assert_eq!(king.get_move_tiles(Castle::Short([7, 0])), vec![[6, 0]]);
    assert_eq!(king.get_move_tiles(Castle::Long([0, 0])), vec![[2, 0]]);
    assert_eq!(king.get_capture_tiles(Castle::Short([7, 0])), vec![[6, 0]]);

    let king = Piece::new([4, 7], PieceType::King(Colour::Black));
    assert_eq!(king.get_move_tiles(Castle::Short([7, 7])), vec![[6, 7]]);
    assert_eq!(king.get_move_tiles(Castle::Long([0, 7])), vec![[2, 7]]);
}

#[test]
fn castling_changes_the_squares_of_a_king_only() {
    let knight = Piece::new([1, 0], PieceType::Knight(Colour::White));
    assert_eq!(knight.get_move_tiles(Castle::Short([7, 0])), knight.get_move_tiles(Castle::No));
    let rook = Piece::new([7, 0], PieceType::Rook(Colour::White));
    assert_eq!(rook.get_move_tiles(Castle::Long([0, 0])), rook.get_move_tiles(Castle::No));
}

#[test]
fn a_knight_jumps_to_eight_squares() {
    let knight = Piece::new([1, 0], PieceType::Knight(Colour::White));

    assert_eq!(
        knight.get_move_tiles(Castle::No),
        vec![[2, 2], [0, 2], [3, 1], [3, -1], [-1, 1], [-1, -1], [2, -2], [0, -2]]
    );
    assert_eq!(knight.get_capture_tiles(Castle::No), knight.get_move_tiles(Castle::No));
}

#[test]
fn a_bishop_goes_along_both_diagonals() {
    let bishop = Piece::new([2, 0], PieceType::Bishop(Colour::White));
    let tiles = bishop.get_move_tiles(Castle::No);

    assert_eq!(tiles.len(), 32);
    assert_eq!(tiles[0], [-6, -8]);
    assert_eq!(tiles[1], [-6, 8]);
    assert_eq!(tiles[2], [-5, -7]);
    assert_eq!(tiles[16], [2, 0]);
    assert_eq!(tiles[17], [2, 0]);
    assert_eq!(tiles[30], [9, 7]);
    assert_eq!(tiles[31], [9, -7]);
    assert!(tiles.contains(&[7, 5]));
    assert!(tiles.contains(&[0, 2]));
    assert!(!tiles.contains(&[2, 3]));
    assert!(!tiles.contains(&[10, 8]));
    assert_eq!(bishop.get_capture_tiles(Castle::No), tiles);
}

#[test]
fn a_rook_goes_along_its_file_and_its_rank() {
    let rook = Piece::new([0, 0], PieceType::Rook(Colour::White));
    let tiles = rook.get_move_tiles(Castle::No);

    assert_eq!(tiles.len(), 32);
    assert_eq!(tiles[0], [0, -8]);
    assert_eq!(tiles[1], [-8, 0]);
    assert_eq!(tiles[30], [0, 7]);
    assert_eq!(tiles[31], [7, 0]);
    assert!(tiles.contains(&[0, 5]));
    assert!(tiles.contains(&[5, 0]));
    assert!(!tiles.contains(&[1, 1]));
    assert!(!tiles.contains(&[0, 8]));
}

#[test]
fn a_queen_goes_as_a_bishop_and_as_a_rook() {
    let queen = Piece::new([3, 0], PieceType::Queen(Colour::White));
    let tiles = queen.get_move_tiles(Castle::No);

    assert_eq!(tiles.len(), 64);
    assert_eq!(tiles[0], [-5, -8]);
    assert_eq!(tiles[1], [-5, 8]);
    assert_eq!(tiles[2], [3, -8]);
    assert_eq!(tiles[3], [-5, 0]);
    assert_eq!(tiles[60], [10, 7]);
    assert_eq!(tiles[61], [10, -7]);
    assert_eq!(tiles[62], [3, 7]);
    assert_eq!(tiles[63], [10, 0]);
    let bishop = Piece::new([3, 0], PieceType::Bishop(Colour::White)).get_move_tiles(Castle::No);
    let rook = Piece::new([3, 0], PieceType::Rook(Colour::White)).get_move_tiles(Castle::No);
    for t in bishop.iter().chain(rook.iter()) {
        assert!(tiles.contains(t));
    }
    for t in tiles.iter() {
        assert!(bishop.contains(t) || rook.contains(t));
    }
}

#[test]
fn tiles_are_given_at_the_limit_of_what_a_square_holds() {
    let rook = Piece::new([119, -120], PieceType::Rook(Colour::Black));
    let tiles = rook.get_move_tiles(Castle::No);

    assert_eq!(tiles[0], [119, -128]);
    assert_eq!(tiles[31], [126, -120]);
    let bishop = Piece::new([-120, 119], PieceType::Bishop(Colour::Black));
    let tiles = bishop.get_move_tiles(Castle::No);
    assert_eq!(tiles[0], [-128, 111]);
    assert_eq!(tiles[1], [-128, 127]);
}

#[test]
fn reaching_a_square_is_being_among_the_tiles() {
    let kinds = [
        PieceType::Pawn(Colour::White),
        PieceType::Pawn(Colour::Black),
        PieceType::King(Colour::White),
        PieceType::Queen(Colour::Black),
        PieceType::Bishop(Colour::White),
        PieceType::Knight(Colour::Black),
        PieceType::Rook(Colour::White),
    ];
    let castles = [Castle::No, Castle::Short([7, 0]), Castle::Long([0, 7])];
    for kind in kinds {
        for castle in castles {
            for x in 0..8 {
                for y in 0..8 {
                    let piece = Piece::new([x, y], kind);
                    let moves = piece.get_move_tiles(castle);
                    let captures = piece.get_capture_tiles(castle);
                    for tx in -10..18 {
                        for ty in -10..18 {
                            assert_eq!(
                                piece.reaches([tx, ty], castle, Capture::No),
                                moves.contains(&[tx, ty])
                            );
                            assert_eq!(
                                piece.reaches([tx, ty], castle, Capture::Yes),
                                captures.contains(&[tx, ty])
                            );
                        }
                    }
                }
            }
        }
    }
}

#[test]
fn reaching_is_answered_for_pieces_far_off_the_board() {
    let rook = Piece::new([127, -128], PieceType::Rook(Colour::White));
    assert!(rook.reaches([127, -121], Castle::No, Capture::No));
    assert!(!rook.reaches([127, -120], Castle::No, Capture::No));
    assert!(rook.reaches([119, -128], Castle::No, Capture::Yes));
    assert!(!rook.reaches([-128, 127], Castle::No, Capture::No));

    let bishop = Piece::new([-128, 127], PieceType::Bishop(Colour::Black));
    assert!(bishop.reaches([-121, 120], Castle::No, Capture::No));
    assert!(!bishop.reaches([127, -128], Castle::No, Capture::No));
}
