//! Sides, piece kinds, and the markers that a notation token carries.

use vstd::prelude::*;
use crate::text::{find_char, last_char, spec_last};

verus! {

/// Why a piece of notation was turned down.
#[derive(Clone, Copy, Debug, PartialEq, Eq, Structural)]
pub enum ParseError {
    /// The character is none of the twelve chess symbols.
    UnknownSymbol,
    /// A piece letter is first found somewhere other than at position 0 or 3.
    MisplacedLetter,
    /// The token ends before its destination square does.
    TooShort,
    /// The line is not two tokens with one space between them.
    TokenCount,
}

/// The side that a piece belongs to.
#[derive(Clone, Copy, Debug, PartialEq, Eq, Structural)]
pub enum Colour {
    White,
    Black,
}

impl Colour {
    /// The side that a character stands for: `w`, `W` or a white chess symbol for
    /// White, `b`, `B` or a black chess symbol for Black.
    pub open spec fn spec_from_char(value: char) -> Option<Colour> {
        match value {
            'w' | 'W' | '♙' | '♔' | '♕' | '♗' | '♘' | '♖' => Some(Colour::White),
            'b' | 'B' | '♟' | '♚' | '♛' | '♝' | '♞' | '♜' => Some(Colour::Black),
            _ => None,
        }
    }

    /// The rank on which this side's king and rooks start.
    pub open spec fn spec_home_rank(self) -> int {
        match self {
            Colour::White => 0,
            Colour::Black => 7,
        }
    }

    /// The side that `value` stands for. Only characters that stand for a side
    /// are accepted.
    pub fn from_char(value: char) -> (colour: Colour)
        requires
            Colour::spec_from_char(value) is Some,
        ensures
            Colour::spec_from_char(value) == Some(colour),
    {
        match value {
            'w' | 'W' | '♙' | '♔' | '♕' | '♗' | '♘' | '♖' => Colour::White,
            _ => Colour::Black,
        }
    }

    /// The rank on which this side's king and rooks start.
    pub fn home_rank(self) -> (rank: i8)
        ensures
            rank == self.spec_home_rank(),
    {
        match self {
            Colour::White => 0,
            Colour::Black => 7,
        }
    }
}

/// A kind of piece together with the side it belongs to.
#[derive(Clone, Copy, Debug, PartialEq, Eq, Structural)]
pub enum PieceType {
    Pawn(Colour),
    King(Colour),
    Queen(Colour),
    Bishop(Colour),
    Knight(Colour),
    Rook(Colour),
}

impl PieceType {
    /// The piece that a chess symbol stands for.
    pub open spec fn spec_from_char(symbol: char) -> Result<PieceType, ParseError> {
        match symbol {
            '♙' => Ok(PieceType::Pawn(Colour::White)),
            '♟' => Ok(PieceType::Pawn(Colour::Black)),
            '♔' => Ok(PieceType::King(Colour::White)),
            '♚' => Ok(PieceType::King(Colour::Black)),
            '♕' => Ok(PieceType::Queen(Colour::White)),
            '♛' => Ok(PieceType::Queen(Colour::Black)),
            '♗' => Ok(PieceType::Bishop(Colour::White)),
            '♝' => Ok(PieceType::Bishop(Colour::Black)),
            '♘' => Ok(PieceType::Knight(Colour::White)),
            '♞' => Ok(PieceType::Knight(Colour::Black)),
            '♖' => Ok(PieceType::Rook(Colour::White)),
            '♜' => Ok(PieceType::Rook(Colour::Black)),
            _ => Err(ParseError::UnknownSymbol),
        }
    }

    /// The kind that a piece letter names, for the side `colour`. Any character
    /// that is no piece letter names a pawn.
    pub open spec fn spec_from_char_and_colour(symbol: char, colour: Colour) -> PieceType {
        match symbol {
            'K' => PieceType::King(colour),
            'Q' => PieceType::Queen(colour),
            'B' => PieceType::Bishop(colour),
            'N' => PieceType::Knight(colour),
            'R' => PieceType::Rook(colour),
            _ => PieceType::Pawn(colour),
        }
    }

    /// The side of the piece.
    pub open spec fn spec_colour(self) -> Colour {
        match self {
            PieceType::Pawn(c)
            | PieceType::King(c)
            | PieceType::Queen(c)
            | PieceType::Bishop(c)
            | PieceType::Knight(c)
            | PieceType::Rook(c) => c,
        }
    }

    /// The letter that notation uses for the kind; `P` for a pawn.
    pub open spec fn spec_letter(self) -> char {
        match self {
            PieceType::Pawn(_) => 'P',
            PieceType::King(_) => 'K',
            PieceType::Queen(_) => 'Q',
            PieceType::Bishop(_) => 'B',
            PieceType::Knight(_) => 'N',
            PieceType::Rook(_) => 'R',
        }
    }

    /// Whether the kind moves along a line through the squares in between:
    /// queen, bishop and rook do.
    pub open spec fn spec_slides(self) -> bool {
        self is Queen || self is Bishop || self is Rook
    }

    /// Whether `letter` is first found in `s` at a position where no piece
    /// letter may stand.
    pub open spec fn spec_misplaced(s: Seq<char>, letter: char) -> bool {
        match s.index_of_first(letter) {
            Some(i) => i != 0 && i != 3,
            None => false,
        }
    }

    /// What finding `letter` in `s` says about the moving piece: first found at
    /// position 0 it names the kind, first found at position 3 it marks a
    /// promotion and so a pawn.
    pub open spec fn spec_vote(s: Seq<char>, letter: char, colour: Colour) -> Option<PieceType> {
        match s.index_of_first(letter) {
            Some(i) => if i == 0 {
                Some(PieceType::spec_from_char_and_colour(letter, colour))
            } else if i == 3 {
                Some(PieceType::Pawn(colour))
            } else {
                None
            },
            None => None,
        }
    }

    /// The piece that the token `s` moves. The letters are looked for in the
    /// order `K Q B N R`, and the last one found decides. With none found the
    /// token moves a king if it holds an `O`, and a pawn otherwise.
    pub open spec fn spec_from_notation(s: Seq<char>, colour: Colour) -> Result<
        PieceType,
        ParseError,
    > {
        if PieceType::spec_misplaced(s, 'K') || PieceType::spec_misplaced(s, 'Q')
            || PieceType::spec_misplaced(s, 'B') || PieceType::spec_misplaced(s, 'N')
            || PieceType::spec_misplaced(s, 'R') {
            Err(ParseError::MisplacedLetter)
        } else if let Some(p) = PieceType::spec_vote(s, 'R', colour) {
            Ok(p)
        } else if let Some(p) = PieceType::spec_vote(s, 'N', colour) {
            Ok(p)
        } else if let Some(p) = PieceType::spec_vote(s, 'B', colour) {
            Ok(p)
        } else if let Some(p) = PieceType::spec_vote(s, 'Q', colour) {
            Ok(p)
        } else if let Some(p) = PieceType::spec_vote(s, 'K', colour) {
            Ok(p)
        } else if s.contains('O') {
            Ok(PieceType::King(colour))
        } else {
            Ok(PieceType::Pawn(colour))
        }
    }

    /// The piece that the chess symbol `symbol` stands for.
    pub fn from_char(symbol: char) -> (piece: Result<PieceType, ParseError>)
        ensures
            piece == PieceType::spec_from_char(symbol),
    {
        match symbol {
            '♙' => Ok(PieceType::Pawn(Colour::White)),
            '♟' => Ok(PieceType::Pawn(Colour::Black)),
            '♔' => Ok(PieceType::King(Colour::White)),
            '♚' => Ok(PieceType::King(Colour::Black)),
            '♕' => Ok(PieceType::Queen(Colour::White)),
            '♛' => Ok(PieceType::Queen(Colour::Black)),
            '♗' => Ok(PieceType::Bishop(Colour::White)),
            '♝' => Ok(PieceType::Bishop(Colour::Black)),
            '♘' => Ok(PieceType::Knight(Colour::White)),
            '♞' => Ok(PieceType::Knight(Colour::Black)),
            '♖' => Ok(PieceType::Rook(Colour::White)),
            '♜' => Ok(PieceType::Rook(Colour::Black)),
            _ => Err(ParseError::UnknownSymbol),
        }
    }

    /// The chess symbol of the piece.
    pub fn symbol(&self) -> (symbol: char)
        ensures
            PieceType::spec_from_char(symbol) == Ok::<PieceType, ParseError>(*self),
            Colour::spec_from_char(symbol) == Some(self.spec_colour()),
    {
        match self {
            PieceType::Pawn(Colour::White) => '♙',
            PieceType::Pawn(Colour::Black) => '♟',
            PieceType::King(Colour::White) => '♔',
            PieceType::King(Colour::Black) => '♚',
            PieceType::Queen(Colour::White) => '♕',
            PieceType::Queen(Colour::Black) => '♛',
            PieceType::Bishop(Colour::White) => '♗',
            PieceType::Bishop(Colour::Black) => '♝',
            PieceType::Knight(Colour::White) => '♘',
            PieceType::Knight(Colour::Black) => '♞',
            PieceType::Rook(Colour::White) => '♖',
            PieceType::Rook(Colour::Black) => '♜',
        }
    }

    /// The letter that notation uses for the kind; `P` for a pawn.
    pub fn letter(&self) -> (letter: char)
        ensures
            letter == self.spec_letter(),
    {
        match self {
            PieceType::Pawn(_) => 'P',
            PieceType::King(_) => 'K',
            PieceType::Queen(_) => 'Q',
            PieceType::Bishop(_) => 'B',
            PieceType::Knight(_) => 'N',
            PieceType::Rook(_) => 'R',
        }
    }

    /// The kind that the piece letter `symbol` names, for the side `colour`.
    pub fn from_char_and_colour(symbol: char, colour: Colour) -> (piece: PieceType)
        ensures
            piece == PieceType::spec_from_char_and_colour(symbol, colour),
    {
        match symbol {
            'K' => PieceType::King(colour),
            'Q' => PieceType::Queen(colour),
            'B' => PieceType::Bishop(colour),
            'N' => PieceType::Knight(colour),
            'R' => PieceType::Rook(colour),
            _ => PieceType::Pawn(colour),
        }
    }

    /// Looks for one piece letter in a token.
    fn vote(value: &str, letter: char, colour: Colour) -> (vote: Result<
        Option<PieceType>,
        ParseError,
    >)
        ensures
            match vote {
                Ok(v) => !PieceType::spec_misplaced(value@, letter) && v == PieceType::spec_vote(
                    value@,
                    letter,
                    colour,
                ),
                Err(e) => PieceType::spec_misplaced(value@, letter) && e
                    == ParseError::MisplacedLetter,
            },
    {
        match find_char(value, letter) {
            Some(0) => Ok(Some(PieceType::from_char_and_colour(letter, colour))),
            Some(3) => Ok(Some(PieceType::Pawn(colour))),
            Some(_) => Err(ParseError::MisplacedLetter),
            None => Ok(None),
        }
    }

    /// The piece that the token `value` moves.
    pub fn from_notation(value: &str, colour: Colour) -> (piece: Result<PieceType, ParseError>)
        ensures
            piece == PieceType::spec_from_notation(value@, colour),
    {
        let king = PieceType::vote(value, 'K', colour)?;
        let queen = PieceType::vote(value, 'Q', colour)?;
        let bishop = PieceType::vote(value, 'B', colour)?;
        let knight = PieceType::vote(value, 'N', colour)?;
        let rook = PieceType::vote(value, 'R', colour)?;
        if let Some(p) = rook {
            Ok(p)
        } else if let Some(p) = knight {
            Ok(p)
        } else if let Some(p) = bishop {
            Ok(p)
        } else if let Some(p) = queen {
            Ok(p)
        } else if let Some(p) = king {
            Ok(p)
        } else if find_char(value, 'O').is_some() {
            Ok(PieceType::King(colour))
        } else {
            Ok(PieceType::Pawn(colour))
        }
    }

    /// The side of the piece.
    pub fn get_colour(&self) -> (colour: Colour)
        ensures
            colour == self.spec_colour(),
    {
        match self {
            PieceType::Pawn(c)
            | PieceType::King(c)
            | PieceType::Queen(c)
            | PieceType::Bishop(c)
            | PieceType::Knight(c)
            | PieceType::Rook(c) => *c,
        }
    }

    /// Whether the kind moves along a line through the squares in between.
    pub fn slides(&self) -> (slides: bool)
        ensures
            slides == self.spec_slides(),
    {
        match self {
            PieceType::Queen(_) | PieceType::Bishop(_) | PieceType::Rook(_) => true,
            _ => false,
        }
    }
}

/// Whether a token says that the move gives check or mate.
#[derive(Default, Clone, Copy, Debug, PartialEq, Eq, Structural)]
pub enum Check {
    #[default]
    No,
    Check,
    Mate,
}

impl Check {
    /// A token that ends in `+` gives check, one that ends in `#` gives mate.
    pub open spec fn spec_from_notation(s: Seq<char>) -> Check {
        if spec_last(s) == Some('+') {
            Check::Check
        } else if spec_last(s) == Some('#') {
            Check::Mate
        } else {
            Check::No
        }
    }

    /// Whether the marker is there at all.
    pub open spec fn spec_is_check_or_mate(self) -> bool {
        !(self is No)
    }

    /// The check marker at the end of the token `value`.
    pub fn from_notation(value: &str) -> (check: Check)
        ensures
            check == Check::spec_from_notation(value@),
    {
        match last_char(value) {
            Some('+') => Check::Check,
            Some('#') => Check::Mate,
            _ => Check::No,
        }
    }

    /// Whether the marker is there at all.
    pub fn is_check_or_mate(self) -> (marked: bool)
        ensures
            marked == self.spec_is_check_or_mate(),
    {
        match self {
            Check::No => false,
            _ => true,
        }
    }
}

/// Whether a token castles, and to which side. A castling marker carries the
/// square on which the rook that takes part stands before the move.
#[derive(Default, Clone, Copy, Debug, PartialEq, Eq)]
pub enum Castle {
    #[default]
    No,
    Short([i8; 2]),
    Long([i8; 2]),
}

impl Castle {
    /// Whether `s` begins with `O` and so castles.
    pub open spec fn spec_castles(s: Seq<char>) -> bool {
        s.len() > 0 && s[0] == 'O'
    }

    /// The castling marker of the token `s` for the side `colour`. The rook
    /// of a castling to the king's side stands on file 7, that of a castling to
    /// the queen's side on file 0, both on the side's home rank.
    pub open spec fn spec_from_notation(s: Seq<char>, colour: Colour) -> Castle {
        if !Castle::spec_castles(s) {
            Castle::No
        } else if s.len() <= 3 {
            Castle::Short([7i8, colour.spec_home_rank() as i8])
        } else {
            Castle::Long([0i8, colour.spec_home_rank() as i8])
        }
    }

    /// The castling marker of the token `value` for the side `colour`.
    pub fn from_notation(value: &str, colour: Colour) -> (castle: Castle)
        ensures
            castle == Castle::spec_from_notation(value@, colour),
    {
        let row = colour.home_rank();
        let n = value.unicode_len();
        if n == 0 || value.get_char(0) != 'O' {
            Castle::No
        } else if n <= 3 {
            Castle::Short([7, row])
        } else {
            Castle::Long([0, row])
        }
    }
}

/// Whether a token takes a piece.
#[derive(Clone, Copy, Debug, PartialEq, Eq, Structural)]
pub enum Capture {
    Yes,
    No,
}

impl Capture {
    /// A token takes a piece if it holds an `x`.
    pub open spec fn spec_from_notation(s: Seq<char>) -> Capture {
        if s.contains('x') {
            Capture::Yes
        } else {
            Capture::No
        }
    }

    /// The capture marker of the token `value`.
    pub fn from_notation(value: &str) -> (capture: Capture)
        ensures
            capture == Capture::spec_from_notation(value@),
    {
        match find_char(value, 'x') {
            Some(_) => Capture::Yes,
            None => Capture::No,
        }
    }
}

/// Whether a token promotes a pawn, and to what.
#[derive(Clone, Copy, Debug, PartialEq, Eq, Structural)]
pub enum Promotion {
    Yes(PieceType),
    No,
}

impl Promotion {
    /// Whether `letter` is first found in `s` at position 3, where it names
    /// the piece that a pawn turns into.
    pub open spec fn spec_promotes_to(s: Seq<char>, letter: char) -> bool {
        s.index_of_first(letter) == Some(3int)
    }

    /// The promotion that the token `s` asks for: to the piece whose letter is
    /// first found at position 3, if there is one.
    pub open spec fn spec_from_notation(s: Seq<char>, colour: Colour) -> Promotion {
        if Promotion::spec_promotes_to(s, 'R') {
            Promotion::Yes(PieceType::Rook(colour))
        } else if Promotion::spec_promotes_to(s, 'N') {
            Promotion::Yes(PieceType::Knight(colour))
        } else if Promotion::spec_promotes_to(s, 'B') {
            Promotion::Yes(PieceType::Bishop(colour))
        } else if Promotion::spec_promotes_to(s, 'Q') {
            Promotion::Yes(PieceType::Queen(colour))
        } else if Promotion::spec_promotes_to(s, 'K') {
            Promotion::Yes(PieceType::King(colour))
        } else {
            Promotion::No
        }
    }

    /// Whether `letter` is first found in `value` at position 3.
    fn promotes_to(value: &str, letter: char) -> (found: bool)
        ensures
            found == Promotion::spec_promotes_to(value@, letter),
    {
        match find_char(value, letter) {
            Some(3) => true,
            _ => false,
        }
    }

    /// The promotion that the token `value` asks for, for the side `colour`.
    pub fn from_notation(value: &str, colour: Colour) -> (promotion: Promotion)
        ensures
            promotion == Promotion::spec_from_notation(value@, colour),
    {
        if Promotion::promotes_to(value, 'R') {
            Promotion::Yes(PieceType::Rook(colour))
        } else if Promotion::promotes_to(value, 'N') {
            Promotion::Yes(PieceType::Knight(colour))
        } else if Promotion::promotes_to(value, 'B') {
            Promotion::Yes(PieceType::Bishop(colour))
        } else if Promotion::promotes_to(value, 'Q') {
            Promotion::Yes(PieceType::Queen(colour))
        } else if Promotion::promotes_to(value, 'K') {
            Promotion::Yes(PieceType::King(colour))
        } else {
            Promotion::No
        }
    }
}

} // verus!
