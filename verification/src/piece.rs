//! A piece on its square, and the squares that its kind lets it go to.
//!
//! Squares are written `[file, rank]`. In contracts a square is the pair of
//! its two coordinates as mathematical integers, a tile.

use vstd::prelude::*;
use vstd::std_specs::cmp::PartialEqSpecImpl;
use crate::types::{Capture, Castle, Colour, PieceType};

verus! {

/// The square `square` as a pair of integers: file, then rank.
pub open spec fn tile(square: [i8; 2]) -> (int, int) {
    (square[0] as int, square[1] as int)
}

/// The squares `squares` as pairs of integers, in the same order.
pub open spec fn tiles(squares: Seq<[i8; 2]>) -> Seq<(int, int)> {
    Seq::new(squares.len(), |k: int| tile(squares[k]))
}

/// Whether both coordinates of `t` can be held in a square.
pub open spec fn fits(t: (int, int)) -> bool {
    i8::MIN <= t.0 <= i8::MAX && i8::MIN <= t.1 <= i8::MAX
}

/// Whether every one of `ts` can be held in a square.
pub open spec fn all_fit(ts: Seq<(int, int)>) -> bool {
    forall|k: int| 0 <= k < ts.len() ==> fits(#[trigger] ts[k])
}

/// Whether `t` is one of the sixty-four squares of the board.
pub open spec fn on_board(t: (int, int)) -> bool {
    0 <= t.0 <= 7 && 0 <= t.1 <= 7
}

/// The tile that lies `i` steps from `(x, y)` on one of the two diagonals
/// through it; `k` picks the diagonal.
pub open spec fn diagonal_tile(x: int, y: int, i: int, k: int) -> (int, int) {
    if k == 0 {
        (x + i, y + i)
    } else {
        (x + i, y - i)
    }
}

/// The tile that lies `i` steps from `(x, y)` on its file or on its rank; `k`
/// picks which.
pub open spec fn straight_tile(x: int, y: int, i: int, k: int) -> (int, int) {
    if k == 0 {
        (x, y + i)
    } else {
        (x + i, y)
    }
}

/// Whether a step of `(dx, dy)` leads to a tile that a bishop's rule gives.
pub open spec fn diagonal_step(dx: int, dy: int) -> bool {
    -8 <= dx < 8 && (dy == dx || dy == -dx)
}

/// Whether a step of `(dx, dy)` leads to a tile that a rook's rule gives.
pub open spec fn straight_step(dx: int, dy: int) -> bool {
    (dx == 0 && -8 <= dy < 8) || (dy == 0 && -8 <= dx < 8)
}

/// Whether a step of `(dx, dy)` leads to a tile next to the start.
pub open spec fn king_step(dx: int, dy: int) -> bool {
    -1 <= dx <= 1 && -1 <= dy <= 1 && !(dx == 0 && dy == 0)
}

/// Whether a step of `(dx, dy)` is a knight's jump.
pub open spec fn knight_step(dx: int, dy: int) -> bool {
    ((dx == 1 || dx == -1) && (dy == 2 || dy == -2)) || ((dx == 2 || dx == -2) && (dy == 1 || dy
        == -1))
}

/// A bishop's rule gives exactly the tiles that a diagonal step leads to.
pub proof fn lemma_bishop_reach(x: int, y: int, t: (int, int))
    ensures
        Piece::spec_bishop_tiles(x, y).contains(t) <==> diagonal_step(t.0 - x, t.1 - y),
{
    let ts = Piece::spec_bishop_tiles(x, y);
    let dx = t.0 - x;
    if diagonal_step(dx, t.1 - y) {
        let k = if t.1 - y == dx {
            2 * (dx + 8)
        } else {
            2 * (dx + 8) + 1
        };
        assert(ts[k] == t);
    }
}

/// A rook's rule gives exactly the tiles that a straight step leads to.
pub proof fn lemma_rook_reach(x: int, y: int, t: (int, int))
    ensures
        Piece::spec_rook_tiles(x, y).contains(t) <==> straight_step(t.0 - x, t.1 - y),
{
    let ts = Piece::spec_rook_tiles(x, y);
    let dx = t.0 - x;
    let dy = t.1 - y;
    if straight_step(dx, dy) {
        let k = if dx == 0 {
            2 * (dy + 8)
        } else {
            2 * (dx + 8) + 1
        };
        assert(ts[k] == t);
    }
}

/// A queen's rule gives exactly the tiles that a diagonal or a straight step
/// leads to.
pub proof fn lemma_queen_reach(x: int, y: int, t: (int, int))
    ensures
        Piece::spec_queen_tiles(x, y).contains(t) <==> (diagonal_step(t.0 - x, t.1 - y)
            || straight_step(t.0 - x, t.1 - y)),
{
    let ts = Piece::spec_queen_tiles(x, y);
    let dx = t.0 - x;
    let dy = t.1 - y;
    if diagonal_step(dx, dy) {
        let k = if dy == dx {
            4 * (dx + 8)
        } else {
            4 * (dx + 8) + 1
        };
        assert(ts[k] == t);
    } else if straight_step(dx, dy) {
        let k = if dx == 0 {
            4 * (dy + 8) + 2
        } else {
            4 * (dx + 8) + 3
        };
        assert(ts[k] == t);
    }
}

/// A king that does not castle reaches exactly the tiles next to it.
pub proof fn lemma_king_reach(x: int, y: int, t: (int, int))
    ensures
        Piece::spec_king_tiles(x, y, Castle::No).contains(t) <==> king_step(t.0 - x, t.1 - y),
{
    let ts = Piece::spec_king_tiles(x, y, Castle::No);
    assert(ts[0] == (x, y + 1) && ts[1] == (x + 1, y + 1) && ts[2] == (x + 1, y) && ts[3] == (
        x + 1,
        y - 1,
    ));
    assert(ts[4] == (x, y - 1) && ts[5] == (x - 1, y - 1) && ts[6] == (x - 1, y) && ts[7] == (
        x - 1,
        y + 1,
    ));
}

/// A knight reaches exactly the tiles a knight's jump away.
pub proof fn lemma_knight_reach(x: int, y: int, t: (int, int))
    ensures
        Piece::spec_knight_tiles(x, y).contains(t) <==> knight_step(t.0 - x, t.1 - y),
{
    let ts = Piece::spec_knight_tiles(x, y);
    assert(ts[0] == (x + 1, y + 2) && ts[1] == (x - 1, y + 2) && ts[2] == (x + 2, y + 1) && ts[3]
        == (x + 2, y - 1));
    assert(ts[4] == (x - 2, y + 1) && ts[5] == (x - 2, y - 1) && ts[6] == (x + 1, y - 2) && ts[7]
        == (x - 1, y - 2));
}

/// Every square that the rule of its kind gives a piece on the board can be
/// held in a square, whatever is said of castling.
pub proof fn lemma_on_board_fits(piece: Piece, castle: Castle)
    requires
        on_board(piece.at()),
    ensures
        all_fit(piece.spec_move_tiles(castle)),
        all_fit(piece.spec_capture_tiles(castle)),
{
}

/// A piece: the square it stands on, and its kind and side.
#[derive(Clone, Copy, Debug, Eq)]
pub struct Piece {
    pub pos: [i8; 2],
    pub piece_type: PieceType,
}

impl PartialEq for Piece {
    /// Two pieces are the same piece if they stand on the same square and are
    /// of the same kind and side.
    fn eq(&self, other: &Self) -> (same: bool) {
        self.pos[0] == other.pos[0] && self.pos[1] == other.pos[1] && self.piece_type
            == other.piece_type
    }
}

impl PartialEqSpecImpl for Piece {
    open spec fn obeys_eq_spec() -> bool {
        true
    }

    open spec fn eq_spec(&self, other: &Self) -> bool {
        self.at() == other.at() && self.piece_type == other.piece_type
    }
}

/// Pieces on the same square, of the same kind and side, are equal.
pub proof fn lemma_same_piece(a: Piece, b: Piece)
    ensures
        a == b <==> (a.at() == b.at() && a.piece_type == b.piece_type),
{
    assert(a.pos =~= b.pos <==> a.at() == b.at());
}

impl Piece {
    /// The square of the piece as a pair of integers.
    pub open spec fn at(self) -> (int, int) {
        tile(self.pos)
    }

    /// The squares a pawn of the side `colour` on `(x, y)` may advance to: one
    /// step forward, and a second from the rank on which it starts.
    pub open spec fn spec_pawn_pushes(x: int, y: int, colour: Colour) -> Seq<(int, int)> {
        match colour {
            Colour::White => if y == 1 {
                seq![(x, y + 1), (x, y + 2)]
            } else {
                seq![(x, y + 1)]
            },
            Colour::Black => if y == 6 {
                seq![(x, y - 1), (x, y - 2)]
            } else {
                seq![(x, y - 1)]
            },
        }
    }

    /// The two squares diagonally in front of a pawn of the side `colour` on
    /// `(x, y)`, on which it takes.
    pub open spec fn spec_pawn_captures(x: int, y: int, colour: Colour) -> Seq<(int, int)> {
        match colour {
            Colour::White => seq![(x + 1, y + 1), (x - 1, y + 1)],
            Colour::Black => seq![(x + 1, y - 1), (x - 1, y - 1)],
        }
    }

    /// The squares a king on `(x, y)` may go to. While castling it has one
    /// square only: file 6 or file 2 on the rank of the rook that takes part.
    pub open spec fn spec_king_tiles(x: int, y: int, castle: Castle) -> Seq<(int, int)> {
        match castle {
            Castle::No => seq![
                (x, y + 1),
                (x + 1, y + 1),
                (x + 1, y),
                (x + 1, y - 1),
                (x, y - 1),
                (x - 1, y - 1),
                (x - 1, y),
                (x - 1, y + 1),
            ],
            Castle::Short(rook) => seq![(6, rook[1] as int)],
            Castle::Long(rook) => seq![(2, rook[1] as int)],
        }
    }

    /// The eight squares a knight on `(x, y)` may jump to.
    pub open spec fn spec_knight_tiles(x: int, y: int) -> Seq<(int, int)> {
        seq![
            (x + 1, y + 2),
            (x - 1, y + 2),
            (x + 2, y + 1),
            (x + 2, y - 1),
            (x - 2, y + 1),
            (x - 2, y - 1),
            (x + 1, y - 2),
            (x - 1, y - 2),
        ]
    }

    /// The squares on the two diagonals through `(x, y)`, from eight steps
    /// back to seven steps on, the piece's own square among them.
    pub open spec fn spec_bishop_tiles(x: int, y: int) -> Seq<(int, int)> {
        Seq::new(32, |k: int| diagonal_tile(x, y, k / 2 - 8, k % 2))
    }

    /// The squares on the file and on the rank through `(x, y)`, from eight
    /// steps back to seven steps on, the piece's own square among them.
    pub open spec fn spec_rook_tiles(x: int, y: int) -> Seq<(int, int)> {
        Seq::new(32, |k: int| straight_tile(x, y, k / 2 - 8, k % 2))
    }

    /// The squares of a bishop and of a rook on `(x, y)` together.
    pub open spec fn spec_queen_tiles(x: int, y: int) -> Seq<(int, int)> {
        Seq::new(
            64,
            |k: int|
                if k % 4 < 2 {
                    diagonal_tile(x, y, k / 4 - 8, k % 4)
                } else {
                    straight_tile(x, y, k / 4 - 8, k % 4 - 2)
                },
        )
    }

    /// Every square the piece could move to by the rule of its kind alone:
    /// pieces in the way, pieces on the square and the edge of the board are
    /// not looked at.
    pub open spec fn spec_move_tiles(self, castle: Castle) -> Seq<(int, int)> {
        let (x, y) = self.at();
        match self.piece_type {
            PieceType::Pawn(colour) => Piece::spec_pawn_pushes(x, y, colour),
            PieceType::King(_) => Piece::spec_king_tiles(x, y, castle),
            PieceType::Queen(_) => Piece::spec_queen_tiles(x, y),
            PieceType::Bishop(_) => Piece::spec_bishop_tiles(x, y),
            PieceType::Knight(_) => Piece::spec_knight_tiles(x, y),
            PieceType::Rook(_) => Piece::spec_rook_tiles(x, y),
        }
    }

    /// Every square the piece could take on by the rule of its kind alone: a
    /// pawn takes diagonally, every other kind takes as it moves.
    pub open spec fn spec_capture_tiles(self, castle: Castle) -> Seq<(int, int)> {
        let (x, y) = self.at();
        match self.piece_type {
            PieceType::Pawn(colour) => Piece::spec_pawn_captures(x, y, colour),
            _ => self.spec_move_tiles(castle),
        }
    }

    /// The squares among which a move's destination is looked for: those the
    /// piece takes on if the move takes, those it moves to if not.
    pub open spec fn spec_reach(self, castle: Castle, capture: Capture) -> Seq<(int, int)> {
        match capture {
            Capture::Yes => self.spec_capture_tiles(castle),
            Capture::No => self.spec_move_tiles(castle),
        }
    }

    /// A piece of the kind and side `piece_type` on the square `pos`.
    pub fn new(pos: [i8; 2], piece_type: PieceType) -> (piece: Piece)
        ensures
            piece.pos == pos,
            piece.piece_type == piece_type,
    {
        Piece { pos, piece_type }
    }

    /// Every square the piece could move to by the rule of its kind alone, in
    /// the order in which the rule gives them. The squares may lie off the
    /// board; they must be such that a square can hold them.
    pub fn get_move_tiles(&self, castle: Castle) -> (squares: Vec<[i8; 2]>)
        requires
            all_fit(self.spec_move_tiles(castle)),
        ensures
            tiles(squares@) == self.spec_move_tiles(castle),
            squares@.len() == self.spec_move_tiles(castle).len(),
    {
        let x = self.pos[0];
        let y = self.pos[1];
        let ghost want = self.spec_move_tiles(castle);
        let mut temp: Vec<[i8; 2]> = Vec::new();
        match self.piece_type {
            PieceType::Pawn(Colour::White) => {
                assert(fits(want[0]));
                temp.push([x, y + 1]);
                if y == 1 {
                    assert(fits(want[1]));
                    temp.push([x, y + 2]);
                }
            },
            PieceType::Pawn(Colour::Black) => {
                assert(fits(want[0]));
                temp.push([x, y - 1]);
                if y == 6 {
                    assert(fits(want[1]));
                    temp.push([x, y - 2]);
                }
            },
            PieceType::King(_) => match castle {
                Castle::No => {
                    assert(fits(want[1]) && fits(want[5]));
                    temp.push([x, y + 1]);
                    temp.push([x + 1, y + 1]);
                    temp.push([x + 1, y]);
                    temp.push([x + 1, y - 1]);
                    temp.push([x, y - 1]);
                    temp.push([x - 1, y - 1]);
                    temp.push([x - 1, y]);
                    temp.push([x - 1, y + 1]);
                },
                Castle::Short(rook) => {
                    temp.push([6, rook[1]]);
                },
                Castle::Long(rook) => {
                    temp.push([2, rook[1]]);
                },
            },
            PieceType::Queen(_) => {
                let mut i: i8 = -8;
                while i < 8
                    invariant
                        -8 <= i <= 8,
                        want == Piece::spec_queen_tiles(x as int, y as int),
                        all_fit(want),
                        temp@.len() == 4 * (i + 8),
                        forall|k: int| 0 <= k < temp@.len() ==> tile(#[trigger] temp@[k]) == want[k],
                    decreases 8 - i,
                {
                    assert(fits(want[4 * (i + 8)]) && fits(want[4 * (i + 8) + 1]));
                    temp.push([x + i, y + i]);
                    temp.push([x + i, y - i]);
                    temp.push([x, y + i]);
                    temp.push([x + i, y]);
                    i += 1;
                }
            },
            PieceType::Bishop(_) => {
                let mut i: i8 = -8;
                while i < 8
                    invariant
                        -8 <= i <= 8,
                        want == Piece::spec_bishop_tiles(x as int, y as int),
                        all_fit(want),
                        temp@.len() == 2 * (i + 8),
                        forall|k: int| 0 <= k < temp@.len() ==> tile(#[trigger] temp@[k]) == want[k],
                    decreases 8 - i,
                {
                    assert(fits(want[2 * (i + 8)]) && fits(want[2 * (i + 8) + 1]));
                    temp.push([x + i, y + i]);
                    temp.push([x + i, y - i]);
                    i += 1;
                }
            },
            PieceType::Knight(_) => {
                assert(fits(want[0]) && fits(want[2]) && fits(want[5]) && fits(want[7]));
                temp.push([x + 1, y + 2]);
                temp.push([x - 1, y + 2]);
                temp.push([x + 2, y + 1]);
                temp.push([x + 2, y - 1]);
                temp.push([x - 2, y + 1]);
                temp.push([x - 2, y - 1]);
                temp.push([x + 1, y - 2]);
                temp.push([x - 1, y - 2]);
            },
            PieceType::Rook(_) => {
                let mut i: i8 = -8;
                while i < 8
                    invariant
                        -8 <= i <= 8,
                        want == Piece::spec_rook_tiles(x as int, y as int),
                        all_fit(want),
                        temp@.len() == 2 * (i + 8),
                        forall|k: int| 0 <= k < temp@.len() ==> tile(#[trigger] temp@[k]) == want[k],
                    decreases 8 - i,
                {
                    assert(fits(want[2 * (i + 8)]) && fits(want[2 * (i + 8) + 1]));
                    temp.push([x, y + i]);
                    temp.push([x + i, y]);
                    i += 1;
                }
            },
        }
        assert(tiles(temp@) =~= want);
        temp
    }

    /// Every square the piece could take on by the rule of its kind alone, in
    /// the order in which the rule gives them.
    pub fn get_capture_tiles(&self, castle: Castle) -> (squares: Vec<[i8; 2]>)
        requires
            all_fit(self.spec_capture_tiles(castle)),
        ensures
            tiles(squares@) == self.spec_capture_tiles(castle),
            squares@.len() == self.spec_capture_tiles(castle).len(),
    {
        let x = self.pos[0];
        let y = self.pos[1];
        let ghost want = self.spec_capture_tiles(castle);
        match self.piece_type {
            PieceType::Pawn(Colour::White) => {
                assert(fits(want[0]) && fits(want[1]));
                let squares = vec![[x + 1, y + 1], [x - 1, y + 1]];
                assert(tiles(squares@) =~= want);
                squares
            },
            PieceType::Pawn(Colour::Black) => {
                assert(fits(want[0]) && fits(want[1]));
                let squares = vec![[x + 1, y - 1], [x - 1, y - 1]];
                assert(tiles(squares@) =~= want);
                squares
            },
            _ => self.get_move_tiles(castle),
        }
    }

    /// Whether `to` is among the squares that the rule of the piece's kind
    /// gives for a move with the markers `castle` and `capture`. Unlike the
    /// two lists of squares, this is answered for a piece on any square.
    pub fn reaches(&self, to: [i8; 2], castle: Castle, capture: Capture) -> (reached: bool)
        ensures
            reached == self.spec_reach(castle, capture).contains(tile(to)),
    {
        let x = self.pos[0];
        let y = self.pos[1];
        let dx: i16 = to[0] as i16 - x as i16;
        let dy: i16 = to[1] as i16 - y as i16;
        let ghost t = tile(to);
        let ghost ts = self.spec_reach(castle, capture);
        match self.piece_type {
            PieceType::Pawn(colour) => {
                let forward: i16 = match colour {
                    Colour::White => 1,
                    Colour::Black => -1,
                };
                let start: i8 = match colour {
                    Colour::White => 1,
                    Colour::Black => 6,
                };
                match capture {
                    Capture::Yes => {
                        assert(ts[0] == (x + 1, y + forward) && ts[1] == (x - 1, y + forward));
                        dy == forward && (dx == 1 || dx == -1)
                    },
                    Capture::No => {
                        assert(ts[0] == (x as int, y + forward));
                        assert(y == start ==> ts[1] == (x as int, y + 2 * forward));
                        dx == 0 && (dy == forward || (y == start && dy == 2 * forward))
                    },
                }
            },
            PieceType::King(_) => match castle {
                Castle::No => {
                    proof {
                        lemma_king_reach(x as int, y as int, t);
                    }
                    -1 <= dx && dx <= 1 && -1 <= dy && dy <= 1 && !(dx == 0 && dy == 0)
                },
                Castle::Short(rook) => {
                    assert(ts[0] == (6int, rook[1] as int));
                    to[0] == 6 && to[1] == rook[1]
                },
                Castle::Long(rook) => {
                    assert(ts[0] == (2int, rook[1] as int));
                    to[0] == 2 && to[1] == rook[1]
                },
            },
            PieceType::Queen(_) => {
                proof {
                    lemma_queen_reach(x as int, y as int, t);
                }
                Piece::steps_diagonally(dx, dy) || Piece::steps_straight(dx, dy)
            },
            PieceType::Bishop(_) => {
                proof {
                    lemma_bishop_reach(x as int, y as int, t);
                }
                Piece::steps_diagonally(dx, dy)
            },
            PieceType::Knight(_) => {
                proof {
                    lemma_knight_reach(x as int, y as int, t);
                }
                ((dx == 1 || dx == -1) && (dy == 2 || dy == -2)) || ((dx == 2 || dx == -2) && (dy
                    == 1 || dy == -1))
            },
            PieceType::Rook(_) => {
                proof {
                    lemma_rook_reach(x as int, y as int, t);
                }
                Piece::steps_straight(dx, dy)
            },
        }
    }

    fn steps_diagonally(dx: i16, dy: i16) -> (diagonal: bool)
        requires
            -255 <= dx <= 255,
            -255 <= dy <= 255,
        ensures
            diagonal == diagonal_step(dx as int, dy as int),
    {
        -8 <= dx && dx < 8 && (dy == dx || dy == -dx)
    }

    fn steps_straight(dx: i16, dy: i16) -> (straight: bool)
        ensures
            straight == straight_step(dx as int, dy as int),
    {
        (dx == 0 && -8 <= dy && dy < 8) || (dy == 0 && -8 <= dx && dx < 8)
    }
}

} // verus!
