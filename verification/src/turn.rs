//! Moves as notation writes them, and the pair of moves that makes a turn.

use vstd::prelude::*;
use crate::text::{file_index, find_char, rank_index, spec_file_index, spec_rank_index};
use crate::types::{Capture, Castle, Check, Colour, ParseError, PieceType, Promotion};

verus! {

/// What one token of notation says: which kind of piece moves, where to,
/// and what the move is marked with.
#[derive(Clone, Copy, Debug, PartialEq, Eq)]
pub struct Move {
    /// The kind and side of the piece that moves.
    pub piece: PieceType,
    pub castle: Castle,
    pub capture: Capture,
    pub promotion: Promotion,
    pub check: Check,
    /// The file that the piece comes from, where the token names it.
    pub from: Option<usize>,
    /// The square that the piece goes to, where the token names one.
    pub to: Option<[i8; 2]>,
}

/// One move of White followed by one of Black.
#[derive(Clone, Copy, Debug, PartialEq, Eq)]
pub struct Turn {
    pub value: [Move; 2],
}

/// The square that the two characters of `s` from position `offset` on name:
/// a file letter from `a` to `h`, then a rank digit from `1` to `8`.
pub open spec fn spec_square_at(s: Seq<char>, offset: int) -> Option<[i8; 2]> {
    if 0 <= offset && offset + 1 < s.len() {
        match (spec_file_index(s[offset]), spec_rank_index(s[offset + 1])) {
            (Some(file), Some(rank)) => Some([file as i8, rank as i8]),
            _ => None,
        }
    } else {
        None
    }
}

impl Move {
    /// The length of a token that holds a destination and nothing before it:
    /// two characters, and one more for the mark of a check or mate.
    pub open spec fn spec_base_length(check: Check) -> int {
        if check.spec_is_check_or_mate() {
            3
        } else {
            2
        }
    }

    /// The file that the token `s` names as the one the piece comes from.
    /// A pawn that takes names it with its first character, if the token is
    /// longer than the base length; a bishop, knight or rook with its second,
    /// if the token is more than one longer. For a king or a queen no file is
    /// read.
    pub open spec fn spec_ambiguity(
        s: Seq<char>,
        piece: PieceType,
        capture: Capture,
        check: Check,
    ) -> Option<usize> {
        let named = match piece {
            PieceType::Pawn(_) => if capture is Yes && s.len() > Move::spec_base_length(check) {
                spec_file_index(s[0])
            } else {
                None
            },
            PieceType::King(_) | PieceType::Queen(_) => None,
            _ => if s.len() > Move::spec_base_length(check) + 1 {
                spec_file_index(s[1])
            } else {
                None
            },
        };
        match named {
            Some(file) => Some(file as usize),
            None => None,
        }
    }

    /// The position in the token at which the destination begins: one for
    /// the piece letter, which a pawn does not have, one more if the move
    /// takes, one more if the file it comes from is named.
    pub open spec fn spec_offset(self) -> int {
        (if self.piece is Pawn {
            0int
        } else {
            1int
        }) + (if self.capture is Yes {
            1int
        } else {
            0int
        }) + (if self.from is Some {
            1int
        } else {
            0int
        })
    }

    /// Whether the destination is given by the castling marker and not
    /// written in the token: so it is for a king that castles.
    pub open spec fn spec_castles(self) -> bool {
        self.piece is King && !(self.castle is No)
    }

    /// The destination of the move `self` that the token `s` gives. A king
    /// that castles goes to file 6 or file 2 on the rank of its rook. Any
    /// other destination is read from the token, which must be long enough
    /// to hold it.
    pub open spec fn spec_destination(self, s: Seq<char>) -> Result<Option<[i8; 2]>, ParseError> {
        match (self.piece, self.castle) {
            (PieceType::King(_), Castle::Short(rook)) => Ok(Some([6i8, rook[1]])),
            (PieceType::King(_), Castle::Long(rook)) => Ok(Some([2i8, rook[1]])),
            _ => if s.len() < self.spec_offset() + 2 {
                Err(ParseError::TooShort)
            } else {
                Ok(spec_square_at(s, self.spec_offset()))
            },
        }
    }

    /// What the token `s` says for the side `colour`.
    pub open spec fn spec_new_from_notation(s: Seq<char>, colour: Colour) -> Result<
        Move,
        ParseError,
    > {
        match PieceType::spec_from_notation(s, colour) {
            Err(e) => Err(e),
            Ok(piece) => {
                let capture = Capture::spec_from_notation(s);
                let check = Check::spec_from_notation(s);
                let read = Move {
                    piece,
                    castle: Castle::spec_from_notation(s, colour),
                    capture,
                    promotion: Promotion::spec_from_notation(s, colour),
                    check,
                    from: Move::spec_ambiguity(s, piece, capture, check),
                    to: None,
                };
                match read.spec_destination(s) {
                    Err(e) => Err(e),
                    Ok(to) => Ok(Move { to, ..read }),
                }
            },
        }
    }

    /// Reads one token of notation as a move of the side `colour`.
    pub fn new_from_notation(notation: &str, colour: Colour) -> (read: Result<Move, ParseError>)
        ensures
            read == Move::spec_new_from_notation(notation@, colour),
    {
        let piece = PieceType::from_notation(notation, colour)?;
        let castle = Castle::from_notation(notation, colour);
        let capture = Capture::from_notation(notation);
        let promotion = Promotion::from_notation(notation, colour);
        let check = Check::from_notation(notation);
        let from: Option<usize> = None;
        let to: Option<[i8; 2]> = None;
        Move { piece, castle, capture, promotion, check, from, to }.remove_ambiguity(
            notation,
        ).set_destination(notation)
    }

    /// Sets the file that the piece comes from, where the token names it.
    pub fn remove_ambiguity(self, notation: &str) -> (read: Move)
        ensures
            read == (Move {
                from: Move::spec_ambiguity(notation@, self.piece, self.capture, self.check),
                ..self
            }),
    {
        let length: usize = if self.check.is_check_or_mate() {
            3
        } else {
            2
        };
        let n = notation.unicode_len();
        let named = match self.piece {
            PieceType::Pawn(_) => match self.capture {
                Capture::Yes => if n > length {
                    file_index(notation.get_char(0))
                } else {
                    None
                },
                Capture::No => None,
            },
            PieceType::King(_) | PieceType::Queen(_) => None,
            _ => if n > length + 1 {
                file_index(notation.get_char(1))
            } else {
                None
            },
        };
        let from = match named {
            Some(file) => Some(file as usize),
            None => None,
        };
        Move { from, ..self }
    }

    /// Sets the square that the piece goes to.
    pub fn set_destination(self, notation: &str) -> (read: Result<Move, ParseError>)
        ensures
            match read {
                Ok(m) => self.spec_destination(notation@) == Ok::<Option<[i8; 2]>, ParseError>(m.to)
                    && m == (Move { to: m.to, ..self }),
                Err(e) => self.spec_destination(notation@) == Err::<Option<[i8; 2]>, ParseError>(e),
            },
    {
        let offset = self.get_offset();
        let to = match (self.piece, self.castle) {
            (PieceType::King(_), Castle::Short(rook)) => Some([6, rook[1]]),
            (PieceType::King(_), Castle::Long(rook)) => Some([2, rook[1]]),
            _ => {
                if notation.unicode_len() < offset + 2 {
                    return Err(ParseError::TooShort);
                }
                Move::format_destination(notation, offset)
            },
        };
        Ok(Move { to, ..self })
    }

    /// The position in the token at which the destination begins.
    pub fn get_offset(&self) -> (offset: usize)
        ensures
            offset == self.spec_offset(),
            offset <= 3,
    {
        let mut offset: usize = match self.capture {
            Capture::Yes => match self.from {
                Some(_) => 3,
                None => 2,
            },
            Capture::No => match self.from {
                Some(_) => 2,
                None => 1,
            },
        };
        if let PieceType::Pawn(_) = self.piece {
            offset -= 1;
        }
        offset
    }

    /// The square that the two characters of `notation` from position
    /// `offset` on name, if they name one.
    pub fn format_destination(notation: &str, offset: usize) -> (square: Option<[i8; 2]>)
        ensures
            square == spec_square_at(notation@, offset as int),
    {
        let n = notation.unicode_len();
        if n < 2 || offset > n - 2 {
            return None;
        }
        match (file_index(notation.get_char(offset)), rank_index(notation.get_char(offset + 1))) {
            (Some(file), Some(rank)) => Some([file, rank]),
            _ => None,
        }
    }
}

impl Turn {
    /// What the line `s` says: the text before its one space is White's
    /// move, the text after it is Black's. A line without a space or with
    /// more than one is no turn, and of two tokens that cannot be read the
    /// first decides the error.
    pub open spec fn spec_new_from_notation(s: Seq<char>) -> Result<Turn, ParseError> {
        match s.index_of_first(' ') {
            None => Err(ParseError::TokenCount),
            Some(space) => {
                let white = s.subrange(0, space);
                let black = s.subrange(space + 1, s.len() as int);
                if black.contains(' ') {
                    Err(ParseError::TokenCount)
                } else {
                    match Move::spec_new_from_notation(white, Colour::White) {
                        Err(e) => Err(e),
                        Ok(first) => match Move::spec_new_from_notation(black, Colour::Black) {
                            Err(e) => Err(e),
                            Ok(second) => Ok(Turn { value: [first, second] }),
                        },
                    }
                }
            },
        }
    }

    /// White's move.
    pub open spec fn white(self) -> Move {
        self.value[0]
    }

    /// Black's move.
    pub open spec fn black(self) -> Move {
        self.value[1]
    }

    /// Reads one line of a game as a turn.
    pub fn new_from_notation(value: &str) -> (read: Result<Turn, ParseError>)
        ensures
            read == Turn::spec_new_from_notation(value@),
    {
        let n = value.unicode_len();
        let space = match find_char(value, ' ') {
            Some(i) => i,
            None => {
                return Err(ParseError::TokenCount);
            },
        };
        proof {
            value@.index_of_first_ensures(' ');
        }
        let white = value.substring_char(0, space);
        let black = value.substring_char(space + 1, n);
        if find_char(black, ' ').is_some() {
            return Err(ParseError::TokenCount);
        }
        let first = Move::new_from_notation(white, Colour::White)?;
        let second = Move::new_from_notation(black, Colour::Black)?;
        Ok(Turn { value: [first, second] })
    }
}

/// Reads a game, one turn from each line. The first line that is no turn
/// ends the reading with its error; no lines make a game of no turns.
pub fn parse_game(lines: &Vec<String>) -> (game: Result<Vec<Turn>, ParseError>)
    ensures
        match game {
            Ok(turns) => {
                &&& turns@.len() == lines@.len()
                &&& forall|i: int|
                    0 <= i < lines@.len() ==> Turn::spec_new_from_notation(#[trigger] lines@[i]@)
                        == Ok::<Turn, ParseError>(turns@[i])
            },
            Err(e) => exists|i: int|
                {
                    &&& 0 <= i < lines@.len()
                    &&& Turn::spec_new_from_notation(#[trigger] lines@[i]@) == Err::<
                        Turn,
                        ParseError,
                    >(e)
                    &&& forall|j: int|
                        0 <= j < i ==> Turn::spec_new_from_notation(#[trigger] lines@[j]@) is Ok
                },
        },
{
    let mut turns: Vec<Turn> = Vec::new();
    let mut i: usize = 0;
    while i < lines.len()
        invariant
            i <= lines.len(),
            turns@.len() == i,
            forall|j: int|
                0 <= j < i ==> Turn::spec_new_from_notation(#[trigger] lines@[j]@) == Ok::<
                    Turn,
                    ParseError,
                >(turns@[j]),
        decreases lines.len() - i,
    {
        match Turn::new_from_notation(lines[i].as_str()) {
            Ok(turn) => {
                turns.push(turn);
            },
            Err(e) => {
                return Err(e);
            },
        }
        i += 1;
    }
    Ok(turns)
}

} // verus!
