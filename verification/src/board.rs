//! The board: the pieces that are on it, in the order in which they came,
//! and the questions about squares that finding a move's piece asks.

use vstd::prelude::*;
use vstd::std_specs::cmp::PartialEqSpecImpl;
use crate::piece::{lemma_same_piece, on_board, tile, tiles, Piece};
use crate::types::{Colour, PieceType};

verus! {

/// Whether a piece of `pieces` stands on the tile `t`.
pub open spec fn occupied(pieces: Seq<Piece>, t: (int, int)) -> bool {
    exists|i: int| 0 <= i < pieces.len() && #[trigger] pieces[i].at() == t
}

/// The tiles on which `pieces` stand, in the same order.
pub open spec fn positions(pieces: Seq<Piece>) -> Seq<(int, int)> {
    pieces.map_values(|p: Piece| p.at())
}

/// The index of the first of `pieces` that stands on the tile `t`.
pub open spec fn spec_find(pieces: Seq<Piece>, t: (int, int)) -> Option<int> {
    positions(pieces).index_of_first(t)
}

/// Whether no two of `pieces` stand on one square.
pub open spec fn no_overlap(pieces: Seq<Piece>) -> bool {
    forall|i: int, j: int|
        0 <= i < j < pieces.len() ==> #[trigger] pieces[i].at() != #[trigger] pieces[j].at()
}

/// What `spec_find` returns, said without it: the index it gives is that of a
/// piece on the tile with none on the tile before it, and it gives none only
/// where the tile is empty.
pub proof fn lemma_find(pieces: Seq<Piece>, t: (int, int))
    ensures
        match spec_find(pieces, t) {
            Some(i) => {
                &&& 0 <= i < pieces.len()
                &&& pieces[i].at() == t
                &&& forall|j: int| 0 <= j < i ==> pieces[j].at() != t
            },
            None => !occupied(pieces, t),
        },
        spec_find(pieces, t) is Some <==> occupied(pieces, t),
{
    let ps = positions(pieces);
    ps.index_of_first_ensures(t);
    match spec_find(pieces, t) {
        Some(i) => {
            assert(pieces[i].at() == ps[i]);
            assert forall|j: int| 0 <= j < i implies pieces[j].at() != t by {
                assert(ps[j] != t);
            }
        },
        None => {
            if occupied(pieces, t) {
                let i = choose|i: int| 0 <= i < pieces.len() && #[trigger] pieces[i].at() == t;
                assert(ps[i] == t);
            }
        },
    }
}

/// The first square on which something stands is found at its index: if a
/// piece stands on `t` at `i` and none before `i` does, `spec_find` gives `i`.
pub proof fn lemma_find_is(pieces: Seq<Piece>, t: (int, int), i: int)
    requires
        0 <= i < pieces.len(),
        pieces[i].at() == t,
        forall|j: int| 0 <= j < i ==> pieces[j].at() != t,
    ensures
        spec_find(pieces, t) == Some(i),
{
    lemma_find(pieces, t);
}

/// Where one piece alone stands on a square, it is what is found there, and
/// once it is taken off the board nothing is found there.
pub proof fn lemma_find_sole_piece(pieces: Seq<Piece>, i: int)
    requires
        0 <= i < pieces.len(),
        forall|j: int| 0 <= j < pieces.len() && j != i ==> pieces[j].at() != pieces[i].at(),
    ensures
        spec_find(pieces, pieces[i].at()) == Some(i),
        spec_find(pieces.remove(i), pieces[i].at()) is None,
{
    let t = pieces[i].at();
    lemma_find_is(pieces, t, i);
    lemma_find(pieces.remove(i), t);
}

/// A piece put on an empty square is found there, behind all that were on the
/// board before it.
pub proof fn lemma_find_placed(pieces: Seq<Piece>, piece: Piece)
    requires
        !occupied(pieces, piece.at()),
    ensures
        spec_find(pieces.push(piece), piece.at()) == Some(pieces.len() as int),
{
    let after = pieces.push(piece);
    assert forall|j: int| 0 <= j < pieces.len() implies after[j].at() != piece.at() by {
        assert(pieces[j].at() != piece.at());
    }
    lemma_find_is(after, piece.at(), pieces.len() as int);
}

/// Taking a piece off the board leaves empty what was empty, and leaves no
/// two pieces on one square where there were none before.
pub proof fn lemma_remove_in_order(pieces: Seq<Piece>, i: int)
    requires
        0 <= i < pieces.len(),
    ensures
        forall|t: (int, int)| !occupied(pieces, t) ==> !occupied(pieces.remove(i), t),
        no_overlap(pieces) ==> no_overlap(pieces.remove(i)),
        no_overlap(pieces) ==> !occupied(pieces.remove(i), pieces[i].at()),
{
    let rest = pieces.remove(i);
    assert forall|t: (int, int)| occupied(rest, t) implies occupied(pieces, t) by {
        let j = choose|j: int| 0 <= j < rest.len() && #[trigger] rest[j].at() == t;
        if j < i {
            assert(pieces[j].at() == t);
        } else {
            assert(pieces[j + 1].at() == t);
        }
    }
    if no_overlap(pieces) {
        assert forall|j: int, k: int| 0 <= j < k < rest.len() implies #[trigger] rest[j].at()
            != #[trigger] rest[k].at() by {
            let from_j = if j < i {
                j
            } else {
                j + 1
            };
            let from_k = if k < i {
                k
            } else {
                k + 1
            };
            assert(pieces[from_j].at() != pieces[from_k].at());
        }
        if occupied(rest, pieces[i].at()) {
            let j = choose|j: int| 0 <= j < rest.len() && #[trigger] rest[j].at() == pieces[i].at();
            let from_j = if j < i {
                j
            } else {
                j + 1
            };
            if from_j < i {
                assert(pieces[from_j].at() != pieces[i].at());
            } else {
                assert(pieces[i].at() != pieces[from_j].at());
            }
        }
    }
}

/// Putting a piece on an empty square leaves no two pieces on one square
/// where there were none before.
pub proof fn lemma_push_in_order(pieces: Seq<Piece>, piece: Piece)
    requires
        no_overlap(pieces),
        !occupied(pieces, piece.at()),
    ensures
        no_overlap(pieces.push(piece)),
{
    let more = pieces.push(piece);
    assert forall|j: int, k: int| 0 <= j < k < more.len() implies #[trigger] more[j].at()
        != #[trigger] more[k].at() by {
        if k < pieces.len() {
            assert(pieces[j].at() != pieces[k].at());
        } else {
            assert(pieces[j].at() != piece.at());
        }
    }
}

/// At the start of a game every piece stands on the board, and no two stand
/// on one square.
pub proof fn lemma_initial_in_order()
    ensures
        no_overlap(spec_initial()),
        forall|i: int| 0 <= i < 32 ==> on_board(#[trigger] spec_initial()[i].at()),
{
    let s = spec_initial();
    assert forall|i: int| 0 <= i < 32 implies on_board(#[trigger] s[i].at()) by {
        lemma_initial_piece(i);
    }
    assert forall|i: int, j: int| 0 <= i < j < s.len() implies #[trigger] s[i].at()
        != #[trigger] s[j].at() by {
        lemma_initial_piece(i);
        lemma_initial_piece(j);
    }
}

/// The piece at index `i` of a new board: one of the sixteen of the back
/// ranks, or one of the sixteen pawns after them.
proof fn lemma_initial_piece(i: int)
    requires
        0 <= i < 32,
    ensures
        i < 16 ==> spec_initial()[i] == spec_officers()[i],
        i >= 16 ==> spec_initial()[i] == spec_pawn(i - 16),
{
}

/// How far `from` has come after `k` steps towards `to` along one axis.
pub open spec fn toward(from: int, to: int, k: int) -> int {
    if to > from {
        from + k
    } else if to < from {
        from - k
    } else {
        from
    }
}

/// The number of steps from `a` to `b`, if the two lie on one rank, one file
/// or one diagonal.
pub open spec fn spec_span(a: (int, int), b: (int, int)) -> Option<nat> {
    let dx = vstd::math::abs(b.0 - a.0);
    let dy = vstd::math::abs(b.1 - a.1);
    if dx == 0 {
        Some(dy)
    } else if dy == 0 || dx == dy {
        Some(dx)
    } else {
        None
    }
}

/// The tiles strictly between `a` and `b`, from the one next to `a` to the
/// one next to `b`, if the two lie on one rank, one file or one diagonal.
pub open spec fn spec_tiles_between(a: (int, int), b: (int, int)) -> Option<Seq<(int, int)>> {
    match spec_span(a, b) {
        Some(n) => Some(
            Seq::new(
                if n > 0 {
                    (n - 1) as nat
                } else {
                    0
                },
                |k: int| (toward(a.0, b.0, k + 1), toward(a.1, b.1, k + 1)),
            ),
        ),
        None => None,
    }
}

/// Whether `a` and `b` lie on one rank, one file or one diagonal.
pub open spec fn in_line(a: (int, int), b: (int, int)) -> bool {
    a.0 == b.0 || a.1 == b.1 || vstd::math::abs(b.0 - a.0) == vstd::math::abs(b.1 - a.1)
}

/// There are tiles between two tiles exactly where the two lie in one line,
/// and from `b` to `a` they are those from `a` to `b` in reverse order.
pub proof fn lemma_tiles_between_reversed(a: (int, int), b: (int, int))
    ensures
        spec_tiles_between(a, b) is Some <==> in_line(a, b),
        spec_tiles_between(b, a) is Some <==> in_line(a, b),
        in_line(a, b) ==> spec_tiles_between(b, a).unwrap() == spec_tiles_between(
            a,
            b,
        ).unwrap().reverse(),
{
    if in_line(a, b) {
        let there = spec_tiles_between(a, b).unwrap();
        let back = spec_tiles_between(b, a).unwrap();
        assert(back =~= there.reverse());
    }
}

/// What stands on the tile `t`: the kind and side of the first of `pieces`
/// that stands there.
pub open spec fn spec_occupant(pieces: Seq<Piece>, t: (int, int)) -> Option<PieceType> {
    match spec_find(pieces, t) {
        Some(i) => Some(pieces[i].piece_type),
        None => None,
    }
}

/// The test that a square passes when a piece of `pieces` stands on it.
pub open spec fn stands_on(pieces: Seq<Piece>) -> spec_fn([i8; 2]) -> bool {
    |square: [i8; 2]| occupied(pieces, tile(square))
}

/// Whether a piece of `pieces` stands on one of the tiles `ts`.
pub open spec fn any_occupied(pieces: Seq<Piece>, ts: Seq<(int, int)>) -> bool {
    exists|k: int| 0 <= k < ts.len() && occupied(pieces, #[trigger] ts[k])
}

/// Whether a piece of the kind `kind` is kept from going from `a` to `b` by a
/// piece of `pieces` in between. Only a queen, a bishop or a rook can be, and
/// only by a piece that stands on a tile strictly between the two.
pub open spec fn spec_blocked(
    pieces: Seq<Piece>,
    a: (int, int),
    b: (int, int),
    kind: PieceType,
) -> bool {
    kind.spec_slides() && match spec_tiles_between(a, b) {
        Some(between) => any_occupied(pieces, between),
        None => false,
    }
}

/// The sixteen pieces of the two back ranks at the start of a game, in the
/// order in which a new board holds them.
pub open spec fn spec_officers() -> Seq<Piece> {
    seq![
        Piece { pos: [0i8, 0i8], piece_type: PieceType::Rook(Colour::White) },
        Piece { pos: [7i8, 0i8], piece_type: PieceType::Rook(Colour::White) },
        Piece { pos: [0i8, 7i8], piece_type: PieceType::Rook(Colour::Black) },
        Piece { pos: [7i8, 7i8], piece_type: PieceType::Rook(Colour::Black) },
        Piece { pos: [1i8, 0i8], piece_type: PieceType::Knight(Colour::White) },
        Piece { pos: [6i8, 0i8], piece_type: PieceType::Knight(Colour::White) },
        Piece { pos: [1i8, 7i8], piece_type: PieceType::Knight(Colour::Black) },
        Piece { pos: [6i8, 7i8], piece_type: PieceType::Knight(Colour::Black) },
        Piece { pos: [2i8, 0i8], piece_type: PieceType::Bishop(Colour::White) },
        Piece { pos: [5i8, 0i8], piece_type: PieceType::Bishop(Colour::White) },
        Piece { pos: [2i8, 7i8], piece_type: PieceType::Bishop(Colour::Black) },
        Piece { pos: [5i8, 7i8], piece_type: PieceType::Bishop(Colour::Black) },
        Piece { pos: [3i8, 0i8], piece_type: PieceType::Queen(Colour::White) },
        Piece { pos: [3i8, 7i8], piece_type: PieceType::Queen(Colour::Black) },
        Piece { pos: [4i8, 0i8], piece_type: PieceType::King(Colour::White) },
        Piece { pos: [4i8, 7i8], piece_type: PieceType::King(Colour::Black) },
    ]
}

/// The pawn that a new board holds `k` places after its back-rank pieces:
/// White's and Black's pawns take turns, file by file.
pub open spec fn spec_pawn(k: int) -> Piece {
    if k % 2 == 0 {
        Piece { pos: [(k / 2) as i8, 1i8], piece_type: PieceType::Pawn(Colour::White) }
    } else {
        Piece { pos: [(k / 2) as i8, 6i8], piece_type: PieceType::Pawn(Colour::Black) }
    }
}

/// The thirty-two pieces at the start of a game, in the order in which a new
/// board holds them.
pub open spec fn spec_initial() -> Seq<Piece> {
    spec_officers() + Seq::new(16, |k: int| spec_pawn(k))
}

/// The board: its pieces, in the order in which they were put there.
#[derive(Clone, Debug)]
pub struct Board {
    pub pieces: Vec<Piece>,
}

impl View for Board {
    type V = Seq<Piece>;

    open spec fn view(&self) -> Seq<Piece> {
        self.pieces@
    }
}

impl Default for Board {
    /// The board at the start of a game.
    fn default() -> (board: Board)
        ensures
            board@ == spec_initial(),
            board.wf(),
    {
        let mut pieces: Vec<Piece> = Vec::new();
        pieces.push(Piece::new([0, 0], PieceType::Rook(Colour::White)));
        pieces.push(Piece::new([7, 0], PieceType::Rook(Colour::White)));
        pieces.push(Piece::new([0, 7], PieceType::Rook(Colour::Black)));
        pieces.push(Piece::new([7, 7], PieceType::Rook(Colour::Black)));
        pieces.push(Piece::new([1, 0], PieceType::Knight(Colour::White)));
        pieces.push(Piece::new([6, 0], PieceType::Knight(Colour::White)));
        pieces.push(Piece::new([1, 7], PieceType::Knight(Colour::Black)));
        pieces.push(Piece::new([6, 7], PieceType::Knight(Colour::Black)));
        pieces.push(Piece::new([2, 0], PieceType::Bishop(Colour::White)));
        pieces.push(Piece::new([5, 0], PieceType::Bishop(Colour::White)));
        pieces.push(Piece::new([2, 7], PieceType::Bishop(Colour::Black)));
        pieces.push(Piece::new([5, 7], PieceType::Bishop(Colour::Black)));
        pieces.push(Piece::new([3, 0], PieceType::Queen(Colour::White)));
        pieces.push(Piece::new([3, 7], PieceType::Queen(Colour::Black)));
        pieces.push(Piece::new([4, 0], PieceType::King(Colour::White)));
        pieces.push(Piece::new([4, 7], PieceType::King(Colour::Black)));
        assert(pieces@ =~= spec_officers());
        let mut i: i8 = 0;
        while i < 8
            invariant
                0 <= i <= 8,
                pieces@.len() == 16 + 2 * i,
                forall|k: int| 0 <= k < pieces@.len() ==> #[trigger] pieces@[k] == spec_initial()[k],
            decreases 8 - i,
        {
            pieces.push(Piece::new([i, 1], PieceType::Pawn(Colour::White)));
            pieces.push(Piece::new([i, 6], PieceType::Pawn(Colour::Black)));
            i += 1;
        }
        assert(pieces@ =~= spec_initial());
        proof {
            lemma_initial_in_order();
        }
        Board { pieces }
    }
}

impl PartialEq for Board {
    /// Two boards are equal if they hold the same pieces, each as often as
    /// the other, in whatever order.
    fn eq(&self, other: &Self) -> (same: bool) {
        let mut i: usize = 0;
        while i < self.pieces.len()
            invariant
                i <= self.pieces.len(),
                forall|j: int|
                    0 <= j < i ==> self@.to_multiset().count(#[trigger] self@[j])
                        == other@.to_multiset().count(self@[j]),
            decreases self.pieces.len() - i,
        {
            let piece = &self.pieces[i];
            if Board::count_of(&self.pieces, piece) != Board::count_of(&other.pieces, piece) {
                return false;
            }
            i += 1;
        }
        let mut i: usize = 0;
        while i < other.pieces.len()
            invariant
                i <= other.pieces.len(),
                forall|j: int|
                    0 <= j < i ==> self@.to_multiset().count(#[trigger] other@[j])
                        == other@.to_multiset().count(other@[j]),
            decreases other.pieces.len() - i,
        {
            let piece = &other.pieces[i];
            if Board::count_of(&self.pieces, piece) != Board::count_of(&other.pieces, piece) {
                return false;
            }
            i += 1;
        }
        proof {
            let a = self@.to_multiset();
            let b = other@.to_multiset();
            self@.to_multiset_ensures();
            other@.to_multiset_ensures();
            assert forall|p: Piece| a.count(p) == b.count(p) by {
                if self@.contains(p) {
                    let j = self@.index_of(p);
                    assert(a.count(self@[j]) == b.count(self@[j]));
                } else if other@.contains(p) {
                    let j = other@.index_of(p);
                    assert(a.count(other@[j]) == b.count(other@[j]));
                }
            }
            assert(a =~= b);
        }
        true
    }
}

impl PartialEqSpecImpl for Board {
    open spec fn obeys_eq_spec() -> bool {
        true
    }

    open spec fn eq_spec(&self, other: &Self) -> bool {
        self@.to_multiset() == other@.to_multiset()
    }
}

impl Board {
    /// How many of `pieces` are the piece `piece`.
    fn count_of(pieces: &Vec<Piece>, piece: &Piece) -> (n: usize)
        ensures
            n == pieces@.to_multiset().count(*piece),
    {
        let mut n: usize = 0;
        let mut i: usize = 0;
        proof {
            let none = pieces@.subrange(0, 0);
            none.to_multiset_ensures();
            assert(!none.contains(*piece));
        }
        while i < pieces.len()
            invariant
                i <= pieces.len(),
                n <= i,
                n == pieces@.subrange(0, i as int).to_multiset().count(*piece),
            decreases pieces.len() - i,
        {
            proof {
                let seen = pieces@.subrange(0, i as int);
                seen.to_multiset_ensures();
                assert(pieces@.subrange(0, i + 1) =~= seen.push(pieces@[i as int]));
                lemma_same_piece(pieces@[i as int], *piece);
            }
            if pieces[i] == *piece {
                n += 1;
            }
            i += 1;
        }
        assert(pieces@.subrange(0, i as int) =~= pieces@);
        n
    }

    /// Whether the board is in order: no two pieces stand on one square.
    pub open spec fn wf(&self) -> bool {
        no_overlap(self@)
    }

    /// A board with nothing on it.
    pub fn _blank() -> (board: Board)
        ensures
            board@ == Seq::<Piece>::empty(),
            board.wf(),
    {
        Board { pieces: Vec::new() }
    }

    /// The index of the first piece that stands on file `x` and rank `y`.
    pub fn find_piece_by_pos(&self, x: i8, y: i8) -> (found: Option<usize>)
        ensures
            match found {
                Some(i) => spec_find(self@, (x as int, y as int)) == Some(i as int) && i
                    < self@.len(),
                None => spec_find(self@, (x as int, y as int)) is None,
            },
            found is Some <==> occupied(self@, (x as int, y as int)),
    {
        let ghost t = (x as int, y as int);
        let mut i: usize = 0;
        while i < self.pieces.len()
            invariant
                i <= self.pieces.len(),
                t == (x as int, y as int),
                forall|j: int| 0 <= j < i ==> self@[j].at() != t,
            decreases self.pieces.len() - i,
        {
            if self.pieces[i].pos[0] == x && self.pieces[i].pos[1] == y {
                proof {
                    lemma_find_is(self@, t, i as int);
                    lemma_find(self@, t);
                }
                return Some(i);
            }
            i += 1;
        }
        proof {
            lemma_find(self@, t);
        }
        None
    }

    /// One coordinate of the square `k` steps from `from` towards `to`.
    fn step_toward(from: i8, to: i8, k: i16) -> (at: i8)
        requires
            0 <= k,
            to != from ==> k <= vstd::math::abs(to - from),
        ensures
            at == toward(from as int, to as int, k as int),
    {
        if to > from {
            (from as i16 + k) as i8
        } else if to < from {
            (from as i16 - k) as i8
        } else {
            from
        }
    }

    /// The squares strictly between `a` and `b`, from the one next to `a` to
    /// the one next to `b`. There are such squares only where the two lie on
    /// one rank, one file or one diagonal.
    pub fn get_tiles_between(a: [i8; 2], b: [i8; 2]) -> (between: Option<Vec<[i8; 2]>>)
        ensures
            match between {
                Some(squares) => spec_tiles_between(tile(a), tile(b)) == Some(tiles(squares@))
                    && squares@.len() == spec_tiles_between(tile(a), tile(b)).unwrap().len(),
                None => spec_tiles_between(tile(a), tile(b)) is None,
            },
    {
        let dx: i16 = if a[0] > b[0] {
            a[0] as i16 - b[0] as i16
        } else {
            b[0] as i16 - a[0] as i16
        };
        let dy: i16 = if a[1] > b[1] {
            a[1] as i16 - b[1] as i16
        } else {
            b[1] as i16 - a[1] as i16
        };
        let n: i16 = if dx == 0 {
            dy
        } else if dy == 0 || dx == dy {
            dx
        } else {
            return None;
        };
        let ghost want = spec_tiles_between(tile(a), tile(b)).unwrap();
        let mut squares: Vec<[i8; 2]> = Vec::new();
        let mut k: i16 = 1;
        while k < n
            invariant
                1 <= k,
                k <= n || k == 1,
                0 <= n <= 255,
                spec_span(tile(a), tile(b)) == Some(n as nat),
                want == spec_tiles_between(tile(a), tile(b)).unwrap(),
                squares@.len() == k - 1,
                forall|j: int| 0 <= j < squares@.len() ==> tile(#[trigger] squares@[j]) == want[j],
            decreases n - k,
        {
            squares.push([Board::step_toward(a[0], b[0], k), Board::step_toward(a[1], b[1], k)]);
            k += 1;
        }
        assert(tiles(squares@) =~= want);
        Some(squares)
    }

    /// Those of the squares `between` on which a piece stands, in the same
    /// order.
    pub fn get_intervening_pieces(&self, between: &Vec<[i8; 2]>) -> (full: Vec<[i8; 2]>)
        ensures
            full@ == between@.filter(stands_on(self@)),
    {
        let mut full: Vec<[i8; 2]> = Vec::new();
        let mut i: usize = 0;
        proof {
            reveal(Seq::filter);
            assert(between@.subrange(0, 0) =~= Seq::<[i8; 2]>::empty());
        }
        while i < between.len()
            invariant
                i <= between.len(),
                full@ == between@.subrange(0, i as int).filter(stands_on(self@)),
            decreases between.len() - i,
        {
            let square = between[i];
            let here = self.find_piece_by_pos(square[0], square[1]);
            proof {
                reveal(Seq::filter);
                let next = between@.subrange(0, i + 1);
                assert(next.drop_last() =~= between@.subrange(0, i as int));
                assert(next.last() == square);
            }
            if here.is_some() {
                full.push(square);
            }
            i += 1;
        }
        assert(between@.subrange(0, i as int) =~= between@);
        full
    }

    /// Whether a piece of the kind `piece_type` is kept from going from
    /// `from` to `to` by a piece in between.
    pub fn check_for_collisions(&self, from: [i8; 2], to: [i8; 2], piece_type: PieceType) -> (blocked:
        bool)
        ensures
            blocked == spec_blocked(self@, tile(from), tile(to), piece_type),
            !piece_type.spec_slides() ==> !blocked,
    {
        if !piece_type.slides() {
            return false;
        }
        match Board::get_tiles_between(from, to) {
            None => false,
            Some(between) => {
                let full = self.get_intervening_pieces(&between);
                proof {
                    let pred = stands_on(self@);
                    let ts = tiles(between@);
                    if full@.len() > 0 {
                        let square = full@[0];
                        between@.lemma_filter_pred(pred, 0);
                        assert(pred(square));
                        assert(full@.contains(square));
                        between@.lemma_filter_contains_rev(pred, square);
                        assert(between@.contains(square));
                        let k = choose|k: int| 0 <= k < between@.len() && between@[k] == square;
                        assert(ts[k] == tile(square));
                        assert(occupied(self@, ts[k]));
                    }
                    if any_occupied(self@, ts) {
                        let k = choose|k: int| 0 <= k < ts.len() && occupied(self@, #[trigger] ts[k]);
                        assert(pred(between@[k]));
                        between@.lemma_filter_contains(pred, k);
                    }
                }
                between.len() > 0 && full.len() > 0
            },
        }
    }

    /// What stands on each of the sixty-four squares of the board, rank by
    /// rank from the first, and in each rank from file 0 to file 7.
    pub fn grid(&self) -> (cells: Vec<Option<PieceType>>)
        ensures
            cells@.len() == 64,
            forall|k: int| 0 <= k < 64 ==> #[trigger] cells@[k] == spec_occupant(self@, (k % 8, k / 8)),
    {
        let mut cells: Vec<Option<PieceType>> = Vec::new();
        let mut k: i8 = 0;
        while k < 64
            invariant
                0 <= k <= 64,
                cells@.len() == k,
                forall|j: int| 0 <= j < k ==> #[trigger] cells@[j] == spec_occupant(self@, (j % 8, j / 8)),
            decreases 64 - k,
        {
            let cell = match self.find_piece_by_pos(k % 8, k / 8) {
                Some(i) => Some(self.pieces[i].piece_type),
                None => None,
            };
            cells.push(cell);
            k += 1;
        }
        cells
    }
}

} // verus!
