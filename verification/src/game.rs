//! Carrying out moves: which piece a move speaks of, what the board is after
//! it, and what it is after a whole game.

use vstd::prelude::*;
use crate::board::{
    lemma_find, lemma_push_in_order, lemma_remove_in_order, no_overlap, occupied, spec_blocked,
    spec_find, Board,
};
use crate::piece::{tile, Piece};
use crate::turn::{Move, Turn};
use crate::types::Castle;

verus! {

/// What keeps a move from being carried out.
#[derive(Clone, Copy, Debug, PartialEq, Eq, Structural)]
pub enum MoveFault {
    /// The move castles, and no piece stands on the square of its rook.
    MissingRook,
    /// The move names no square to go to.
    NoDestination,
    /// Not exactly one piece can make the move. Holds how many can.
    Unresolved(usize),
}

/// A move that could not be carried out, and why.
#[derive(Clone, Copy, Debug, PartialEq, Eq)]
pub struct MoveError {
    pub mv: Move,
    pub fault: MoveFault,
}

/// Whether the piece at index `i` of `pieces` can be the one that `mv`
/// moves: it is of the kind and side that the move names, the rule of its
/// kind takes it to the destination, it stands on the file that the move
/// says it comes from, if the move says so, and nothing stands in its way.
pub open spec fn is_candidate(pieces: Seq<Piece>, i: int, mv: Move) -> bool {
    let piece = pieces[i];
    let to = tile(mv.to.unwrap());
    &&& 0 <= i < pieces.len()
    &&& piece.piece_type == mv.piece
    &&& piece.spec_reach(mv.castle, mv.capture).contains(to)
    &&& (mv.from matches Some(file) ==> piece.at().0 == file)
    &&& !spec_blocked(pieces, piece.at(), to, mv.piece)
}

/// The test that an index passes when the piece there can be the one that
/// `mv` moves.
pub open spec fn candidate_test(pieces: Seq<Piece>, mv: Move) -> spec_fn(usize) -> bool {
    |i: usize| is_candidate(pieces, i as int, mv)
}

/// The indices of `pieces`, in order.
pub open spec fn indices(pieces: Seq<Piece>) -> Seq<usize> {
    Seq::new(pieces.len(), |i: int| i as usize)
}

/// The indices of the pieces that can be the one that `mv` moves, in
/// ascending order.
pub open spec fn spec_candidates(pieces: Seq<Piece>, mv: Move) -> Seq<usize> {
    indices(pieces).filter(candidate_test(pieces, mv))
}

/// The pieces after the one at index `i` has gone to the square `to`: it
/// leaves its place in the order and comes back as the last.
pub open spec fn spec_execute(pieces: Seq<Piece>, i: int, to: [i8; 2]) -> Seq<Piece> {
    pieces.remove(i).push(Piece { pos: to, piece_type: pieces[i].piece_type })
}

/// Whether the rook that `castle` speaks of is there: on its square stands
/// a piece.
pub open spec fn spec_rook_ready(pieces: Seq<Piece>, castle: Castle) -> bool {
    castle is No || occupied(pieces, tile(spec_rook_start(castle)))
}

/// The square that the rook of `castle` starts from.
pub open spec fn spec_rook_start(castle: Castle) -> [i8; 2] {
    match castle {
        Castle::No => [0i8, 0i8],
        Castle::Short(rook) => rook,
        Castle::Long(rook) => rook,
    }
}

/// The square that the rook of `castle` goes to: file 5 for a castling to
/// the king's side, file 3 for one to the queen's side, on the rank it
/// starts from.
pub open spec fn spec_rook_goal(castle: Castle) -> [i8; 2] {
    match castle {
        Castle::No => [0i8, 0i8],
        Castle::Short(rook) => [5i8, rook[1]],
        Castle::Long(rook) => [3i8, rook[1]],
    }
}

/// The pieces after the rook's part of castling: the first piece on the
/// rook's square has gone to the square that the rook goes to.
pub open spec fn spec_after_castle(pieces: Seq<Piece>, castle: Castle) -> Seq<Piece> {
    match castle {
        Castle::No => pieces,
        _ => spec_execute(
            pieces,
            spec_find(pieces, tile(spec_rook_start(castle))).unwrap(),
            spec_rook_goal(castle),
        ),
    }
}

/// The pieces after what stands on the square `to` has been taken off the
/// board.
pub open spec fn spec_after_capture(pieces: Seq<Piece>, to: [i8; 2]) -> Seq<Piece> {
    match spec_find(pieces, tile(to)) {
        Some(i) => pieces.remove(i),
        None => pieces,
    }
}

/// The pieces among which the piece that `mv` moves is looked for: the rook
/// of a castling has gone, and the destination is empty.
pub open spec fn spec_cleared(pieces: Seq<Piece>, mv: Move) -> Seq<Piece> {
    spec_after_capture(spec_after_castle(pieces, mv.castle), mv.to.unwrap())
}

/// What keeps `mv` from being carried out on `pieces`, if anything does.
pub open spec fn spec_move_fault(pieces: Seq<Piece>, mv: Move) -> Option<MoveFault> {
    if !spec_rook_ready(pieces, mv.castle) {
        Some(MoveFault::MissingRook)
    } else if mv.to is None {
        Some(MoveFault::NoDestination)
    } else if spec_candidates(spec_cleared(pieces, mv), mv).len() != 1 {
        Some(MoveFault::Unresolved(spec_candidates(spec_cleared(pieces, mv), mv).len() as usize))
    } else {
        None
    }
}

/// The pieces after `mv` has been carried out: first the rook's part of a
/// castling, then the taking of what stands on the destination, then the
/// going there of the one piece that can make the move.
pub open spec fn spec_apply_move(pieces: Seq<Piece>, mv: Move) -> Seq<Piece> {
    let cleared = spec_cleared(pieces, mv);
    spec_execute(cleared, spec_candidates(cleared, mv)[0] as int, mv.to.unwrap())
}

/// The move of the turn `turn` that cannot be carried out, with what keeps
/// it, if there is one: White's on `pieces`, or Black's after White's.
pub open spec fn spec_turn_error(pieces: Seq<Piece>, turn: Turn) -> Option<MoveError> {
    match spec_move_fault(pieces, turn.white()) {
        Some(fault) => Some(MoveError { mv: turn.white(), fault }),
        None => match spec_move_fault(spec_apply_move(pieces, turn.white()), turn.black()) {
            Some(fault) => Some(MoveError { mv: turn.black(), fault }),
            None => None,
        },
    }
}

/// The pieces after both moves of `turn`: White's, then Black's.
pub open spec fn spec_make_a_move(pieces: Seq<Piece>, turn: Turn) -> Seq<Piece> {
    spec_apply_move(spec_apply_move(pieces, turn.white()), turn.black())
}

/// The pieces after the first `n` of `turns`.
pub open spec fn spec_replay(pieces: Seq<Piece>, turns: Seq<Turn>, n: nat) -> Seq<Piece>
    decreases n,
{
    if n == 0 {
        pieces
    } else {
        spec_make_a_move(spec_replay(pieces, turns, (n - 1) as nat), turns[n - 1])
    }
}

/// The first move among the first `n` of `turns` that cannot be carried out,
/// with what keeps it, if there is one.
pub open spec fn spec_replay_error(pieces: Seq<Piece>, turns: Seq<Turn>, n: nat) -> Option<
    MoveError,
>
    decreases n,
{
    if n == 0 {
        None
    } else {
        match spec_replay_error(pieces, turns, (n - 1) as nat) {
            Some(e) => Some(e),
            None => spec_turn_error(spec_replay(pieces, turns, (n - 1) as nat), turns[n - 1]),
        }
    }
}

/// How many of `turns` a replay with the limit `limit` goes through.
pub open spec fn spec_turns_played(turns: Seq<Turn>, limit: usize) -> nat {
    if limit <= turns.len() {
        limit as nat
    } else {
        turns.len()
    }
}

/// The indices of the pieces that can be the one that `mv` moves, in
/// ascending order.
pub fn candidates(board: &Board, mv: &Move) -> (found: Vec<usize>)
    requires
        mv.to is Some,
    ensures
        found@ == spec_candidates(board@, *mv),
{
    let to = mv.to.unwrap();
    let mut found: Vec<usize> = Vec::new();
    let mut i: usize = 0;
    let ghost all = indices(board@);
    let ghost test = candidate_test(board@, *mv);
    proof {
        reveal(Seq::filter);
        assert(all.subrange(0, 0) =~= Seq::<usize>::empty());
    }
    while i < board.pieces.len()
        invariant
            i <= board.pieces.len(),
            mv.to == Some(to),
            all == indices(board@),
            test == candidate_test(board@, *mv),
            found@ == all.subrange(0, i as int).filter(test),
        decreases board.pieces.len() - i,
    {
        let piece = &board.pieces[i];
        let fits = piece.piece_type == mv.piece && piece.reaches(to, mv.castle, mv.capture) && (
        match mv.from {
            Some(file) => piece.pos[0] >= 0 && piece.pos[0] as usize == file,
            None => true,
        }) && !board.check_for_collisions(piece.pos, to, mv.piece);
        proof {
            reveal(Seq::filter);
            let next = all.subrange(0, i + 1);
            assert(next.drop_last() =~= all.subrange(0, i as int));
            assert(next.last() == i);
            assert(fits == test(i));
        }
        if fits {
            found.push(i);
        }
        i += 1;
    }
    assert(all.subrange(0, i as int) =~= all);
    found
}

/// The index of the piece that `mv` moves. The move must name a destination,
/// and exactly one piece of the board must be able to make it.
pub fn find_moved_piece(board: &Board, mv: Move) -> (found: Option<usize>)
    requires
        mv.to is Some,
        spec_candidates(board@, mv).len() == 1,
    ensures
        found == Some(spec_candidates(board@, mv)[0]),
        found matches Some(i) && is_candidate(board@, i as int, mv) && forall|j: int|
            is_candidate(board@, j, mv) ==> j == i,
{
    let all = candidates(board, &mv);
    proof {
        assert(board@.len() == board.pieces.len());
        lemma_candidates(board@, mv);
        assert forall|j: int| is_candidate(board@, j, mv) implies j == all@[0] by {
            assert(all@.contains(j as usize));
        }
    }
    Some(all[0])
}

/// Moves the piece at `index` to the square `to`. The piece leaves its
/// place in the order of the board's pieces and becomes the last of them.
pub fn execute_move(board: Board, index: usize, to: [i8; 2]) -> (after: Board)
    requires
        index < board@.len(),
    ensures
        after@ == spec_execute(board@, index as int, to),
{
    let mut board = board;
    let mut moved = board.pieces.remove(index);
    moved.pos = to;
    board.pieces.push(moved);
    board
}

/// Carries out the rook's part of a castling.
fn castle_rook(board: Board, castle: Castle) -> (after: Result<Board, MoveFault>)
    ensures
        match after {
            Ok(b) => spec_rook_ready(board@, castle) && b@ == spec_after_castle(board@, castle),
            Err(fault) => !spec_rook_ready(board@, castle) && fault == MoveFault::MissingRook,
        },
{
    match castle {
        Castle::No => Ok(board),
        Castle::Short(rook) => match board.find_piece_by_pos(rook[0], rook[1]) {
            Some(i) => Ok(execute_move(board, i, [5, rook[1]])),
            None => Err(MoveFault::MissingRook),
        },
        Castle::Long(rook) => match board.find_piece_by_pos(rook[0], rook[1]) {
            Some(i) => Ok(execute_move(board, i, [3, rook[1]])),
            None => Err(MoveFault::MissingRook),
        },
    }
}

/// Carries out one move, or says what keeps it from being carried out.
pub fn try_apply_move(board: Board, mv: &Move) -> (after: Result<Board, MoveError>)
    ensures
        match after {
            Ok(b) => spec_move_fault(board@, *mv) is None && b@ == spec_apply_move(board@, *mv),
            Err(e) => e.mv == *mv && spec_move_fault(board@, *mv) == Some(e.fault),
        },
{
    let mut board = match castle_rook(board, mv.castle) {
        Ok(b) => b,
        Err(fault) => {
            return Err(MoveError { mv: *mv, fault });
        },
    };
    let to = match mv.to {
        Some(to) => to,
        None => {
            return Err(MoveError { mv: *mv, fault: MoveFault::NoDestination });
        },
    };
    if let Some(i) = board.find_piece_by_pos(to[0], to[1]) {
        board.pieces.remove(i);
    }
    let found = candidates(&board, mv);
    if found.len() != 1 {
        return Err(MoveError { mv: *mv, fault: MoveFault::Unresolved(found.len()) });
    }
    Ok(execute_move(board, found[0], to))
}

/// Carries out one move. The move must be one that can be carried out.
pub fn apply_move(board: Board, mv: &Move) -> (after: Board)
    requires
        spec_move_fault(board@, *mv) is None,
    ensures
        after@ == spec_apply_move(board@, *mv),
{
    match try_apply_move(board, mv) {
        Ok(after) => after,
        Err(_) => vstd::pervasive::unreached(),
    }
}

/// Carries out the two moves of a turn, White's first, or says which of
/// them cannot be carried out and why.
pub fn try_make_a_move(board: Board, turn: &Turn) -> (after: Result<Board, MoveError>)
    ensures
        match after {
            Ok(b) => spec_turn_error(board@, *turn) is None && b@ == spec_make_a_move(board@, *turn),
            Err(e) => spec_turn_error(board@, *turn) == Some(e),
        },
{
    let board = try_apply_move(board, &turn.value[0])?;
    try_apply_move(board, &turn.value[1])
}

/// Carries out the two moves of a turn, White's first. Both must be moves
/// that can be carried out.
pub fn make_a_move(board: Board, turn: &Turn) -> (after: Board)
    requires
        spec_turn_error(board@, *turn) is None,
    ensures
        after@ == spec_make_a_move(board@, *turn),
{
    match try_make_a_move(board, turn) {
        Ok(after) => after,
        Err(_) => vstd::pervasive::unreached(),
    }
}

/// Carries out the turns of a game in order, at most `limit` of them, or
/// says which move cannot be carried out and why. The turns after that move
/// are not looked at.
pub fn try_replay(board: Board, turns: &Vec<Turn>, limit: usize) -> (after: Result<
    Board,
    MoveError,
>)
    ensures
        match after {
            Ok(b) => spec_replay_error(board@, turns@, spec_turns_played(turns@, limit)) is None
                && b@ == spec_replay(board@, turns@, spec_turns_played(turns@, limit)),
            Err(e) => spec_replay_error(board@, turns@, spec_turns_played(turns@, limit)) == Some(
                e,
            ),
        },
        turns@.len() == 0 || limit == 0 ==> after is Ok && after.unwrap()@ == board@,
{
    let n = if limit <= turns.len() {
        limit
    } else {
        turns.len()
    };
    let ghost start = board@;
    let mut current = board;
    let mut i: usize = 0;
    while i < n
        invariant
            i <= n <= turns.len(),
            n == spec_turns_played(turns@, limit),
            start == board@,
            spec_replay_error(start, turns@, i as nat) is None,
            current@ == spec_replay(start, turns@, i as nat),
        decreases n - i,
    {
        match try_make_a_move(current, &turns[i]) {
            Ok(b) => {
                current = b;
            },
            Err(e) => {
                proof {
                    assert(spec_replay_error(start, turns@, (i + 1) as nat) == Some(e));
                    lemma_replay_error_stays(start, turns@, (i + 1) as nat, n as nat);
                }
                return Err(e);
            },
        }
        i += 1;
    }
    Ok(current)
}

/// Carries out the turns of a game in order, at most `limit` of them. Every
/// move that is reached must be one that can be carried out.
pub fn replay(board: Board, turns: &Vec<Turn>, limit: usize) -> (after: Board)
    requires
        spec_replay_error(board@, turns@, spec_turns_played(turns@, limit)) is None,
    ensures
        after@ == spec_replay(board@, turns@, spec_turns_played(turns@, limit)),
        turns@.len() == 0 || limit == 0 ==> after@ == board@,
{
    match try_replay(board, turns, limit) {
        Ok(after) => after,
        Err(_) => vstd::pervasive::unreached(),
    }
}

/// The first move that cannot be carried out stays the first, however many
/// turns follow it.
pub proof fn lemma_replay_error_stays(pieces: Seq<Piece>, turns: Seq<Turn>, n: nat, m: nat)
    requires
        n <= m,
        spec_replay_error(pieces, turns, n) is Some,
    ensures
        spec_replay_error(pieces, turns, m) == spec_replay_error(pieces, turns, n),
    decreases m - n,
{
    if n < m {
        lemma_replay_error_stays(pieces, turns, n, (m - 1) as nat);
    }
}

/// Replaying no turns leaves the board as it is, and nothing can go wrong.
pub proof fn lemma_replay_nothing(pieces: Seq<Piece>, turns: Seq<Turn>, limit: usize)
    requires
        turns.len() == 0 || limit == 0,
    ensures
        spec_replay(pieces, turns, spec_turns_played(turns, limit)) == pieces,
        spec_replay_error(pieces, turns, spec_turns_played(turns, limit)) is None,
{
}

/// Moving a piece keeps the number of pieces, and the piece that moved is
/// the last of them, on the square it went to.
pub proof fn lemma_execute(pieces: Seq<Piece>, i: int, to: [i8; 2])
    requires
        0 <= i < pieces.len(),
    ensures
        spec_execute(pieces, i, to).len() == pieces.len(),
        spec_execute(pieces, i, to).last().piece_type == pieces[i].piece_type,
        spec_execute(pieces, i, to).last().pos == to,
        spec_execute(pieces, i, to).to_multiset() == pieces.to_multiset().remove(pieces[i]).insert(
            Piece { pos: to, piece_type: pieces[i].piece_type },
        ),
{
    pieces.to_multiset_ensures();
    pieces.remove(i).to_multiset_ensures();
}

/// A move takes a piece off the board exactly where one stands on its
/// destination once the rook of a castling has gone: then the board has one
/// piece fewer, else as many as before. The piece that moved is the last
/// of the board's pieces, of the kind and side that the move names, on the
/// destination.
pub proof fn lemma_apply_move_count(pieces: Seq<Piece>, mv: Move)
    requires
        spec_move_fault(pieces, mv) is None,
    ensures
        spec_after_castle(pieces, mv.castle).len() == pieces.len(),
        spec_apply_move(pieces, mv).len() == if occupied(
            spec_after_castle(pieces, mv.castle),
            tile(mv.to.unwrap()),
        ) {
            pieces.len() - 1
        } else {
            pieces.len() as int
        },
        spec_apply_move(pieces, mv).last() == (Piece { pos: mv.to.unwrap(), piece_type: mv.piece }),
{
    let to = mv.to.unwrap();
    let castled = spec_after_castle(pieces, mv.castle);
    if !(mv.castle is No) {
        lemma_find(pieces, tile(spec_rook_start(mv.castle)));
    }
    lemma_find(castled, tile(to));
    let cleared = spec_cleared(pieces, mv);
    indices(cleared).lemma_filter_pred(candidate_test(cleared, mv), 0);
}

/// A move on a board on which no two pieces share a square leaves such a
/// board, provided that the square to which the rook of a castling goes is
/// empty.
pub proof fn lemma_apply_move_in_order(pieces: Seq<Piece>, mv: Move)
    requires
        no_overlap(pieces),
        spec_move_fault(pieces, mv) is None,
        mv.castle is No || !occupied(pieces, tile(spec_rook_goal(mv.castle))),
    ensures
        no_overlap(spec_apply_move(pieces, mv)),
{
    let to = mv.to.unwrap();
    let castled = spec_after_castle(pieces, mv.castle);
    if !(mv.castle is No) {
        let start = tile(spec_rook_start(mv.castle));
        lemma_find(pieces, start);
        let rook = spec_find(pieces, start).unwrap();
        lemma_execute_in_order(pieces, rook, spec_rook_goal(mv.castle));
    }
    lemma_find(castled, tile(to));
    let cleared = spec_cleared(pieces, mv);
    match spec_find(castled, tile(to)) {
        Some(taken) => {
            lemma_remove_in_order(castled, taken);
        },
        None => {},
    }
    indices(cleared).lemma_filter_pred(candidate_test(cleared, mv), 0);
    lemma_execute_in_order(cleared, spec_candidates(cleared, mv)[0] as int, to);
}

/// Moving a piece to an empty square leaves no two pieces on one square
/// where there were none before.
pub proof fn lemma_execute_in_order(pieces: Seq<Piece>, i: int, to: [i8; 2])
    requires
        0 <= i < pieces.len(),
        no_overlap(pieces),
        !occupied(pieces, tile(to)),
    ensures
        no_overlap(spec_execute(pieces, i, to)),
{
    lemma_remove_in_order(pieces, i);
    lemma_push_in_order(pieces.remove(i), Piece { pos: to, piece_type: pieces[i].piece_type });
}

/// What `spec_candidates` holds, said without it: indices of pieces that
/// can make the move, in ascending order, and the index of every piece
/// that can.
pub proof fn lemma_candidates(pieces: Seq<Piece>, mv: Move)
    requires
        pieces.len() <= usize::MAX,
    ensures
        forall|k: int|
            0 <= k < spec_candidates(pieces, mv).len() ==> is_candidate(
                pieces,
                #[trigger] spec_candidates(pieces, mv)[k] as int,
                mv,
            ),
        forall|k: int, l: int|
            0 <= k < l < spec_candidates(pieces, mv).len() ==> spec_candidates(pieces, mv)[k]
                < spec_candidates(pieces, mv)[l],
        forall|i: int|
            is_candidate(pieces, i, mv) ==> spec_candidates(pieces, mv).contains(i as usize),
{
    let all = indices(pieces);
    let test = candidate_test(pieces, mv);
    lemma_filter_indices(all, test, all.len() as int);
    assert(all.subrange(0, all.len() as int) =~= all);
    assert forall|k: int| 0 <= k < spec_candidates(pieces, mv).len() implies is_candidate(
        pieces,
        #[trigger] spec_candidates(pieces, mv)[k] as int,
        mv,
    ) by {
        all.lemma_filter_pred(test, k);
    }
    assert forall|i: int| is_candidate(pieces, i, mv) implies spec_candidates(pieces, mv).contains(
        i as usize,
    ) by {
        assert(all[i] == i as usize);
        assert(test(all[i]));
        all.lemma_filter_contains(test, i);
    }
}

/// Filtering the first `n` of a strictly ascending list keeps it strictly
/// ascending and below whatever follows.
proof fn lemma_filter_indices(all: Seq<usize>, test: spec_fn(usize) -> bool, n: int)
    requires
        0 <= n <= all.len(),
        forall|i: int, j: int| 0 <= i < j < all.len() ==> all[i] < all[j],
    ensures
        forall|k: int, l: int|
            0 <= k < l < all.subrange(0, n).filter(test).len() ==> all.subrange(0, n).filter(
                test,
            )[k] < all.subrange(0, n).filter(test)[l],
        forall|k: int, j: int|
            0 <= k < all.subrange(0, n).filter(test).len() && n <= j < all.len() ==> all.subrange(
                0,
                n,
            ).filter(test)[k] < all[j],
    decreases n,
{
    reveal(Seq::filter);
    if n > 0 {
        let now = all.subrange(0, n);
        let before = all.subrange(0, n - 1);
        let kept = now.filter(test);
        let kept_before = before.filter(test);
        lemma_filter_indices(all, test, n - 1);
        assert(now.drop_last() =~= before);
        assert(now.last() == all[n - 1]);
        assert(kept == if test(all[n - 1]) {
            kept_before.push(all[n - 1])
        } else {
            kept_before
        });
        assert forall|k: int, j: int| 0 <= k < kept.len() && n <= j < all.len() implies kept[k]
            < all[j] by {
            if k < kept_before.len() {
                assert(kept_before[k] < all[j]);
            } else {
                assert(kept[k] == all[n - 1]);
            }
        }
        assert forall|k: int, l: int| 0 <= k < l < kept.len() implies kept[k] < kept[l] by {
            if l < kept_before.len() {
                assert(kept_before[k] < kept_before[l]);
            } else {
                assert(kept[l] == all[n - 1]);
                assert(kept_before[k] < all[n - 1]);
            }
        }
    }
}

} // verus!
