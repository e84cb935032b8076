use vstd::prelude::*;
use crate::game::score::Score;
use crate::model::board::square::Square;
use crate::model::piece::piece::{Piece, PieceType};
use crate::utils::{file_letter, normalize_file, normalize_rank, push_decimal};

verus! {

/// One move of one side: the piece that moves, where from and where to, and
/// what is known of the move so far.
#[derive(Debug, Copy, Clone)]
pub struct HalfMove {
    pub piece: PieceType,
    pub from: Square,
    pub to: Square,
    pub capture: bool,
    pub promotion: bool,
    pub check: bool,
    pub checkmate: bool,
    pub stalemate: bool,
    pub evaluation: Score,
}

impl HalfMove {
    /// The move as move generation makes it: neither check nor mate is known
    /// yet, and the move has no score.
    pub open spec fn plain(
        piece: PieceType,
        from: Square,
        to: Square,
        capture: bool,
        promotion: bool,
    ) -> HalfMove {
        HalfMove {
            piece,
            from,
            to,
            capture,
            promotion,
            check: false,
            checkmate: false,
            stalemate: false,
            evaluation: Score::zero(),
        }
    }

    pub open spec fn with_check(self, check: bool) -> HalfMove {
        HalfMove { check, ..self }
    }

    pub open spec fn with_evaluation(self, evaluation: Score) -> HalfMove {
        HalfMove { evaluation, ..self }
    }

    pub fn new(
        piece: PieceType,
        from: Square,
        to: Square,
        capture: bool,
        promotion: bool,
        check: bool,
        checkmate: bool,
        stalemate: bool,
        evaluation: Score,
    ) -> (play: HalfMove)
        ensures
            play == (HalfMove {
                piece,
                from,
                to,
                capture,
                promotion,
                check,
                checkmate,
                stalemate,
                evaluation,
            }),
    {
        HalfMove { piece, from, to, capture, promotion, check, checkmate, stalemate, evaluation }
    }

    pub fn get_piece(&self) -> (piece: PieceType)
        ensures
            piece == self.piece,
    {
        self.piece
    }

    pub fn get_from(&self) -> (from: Square)
        ensures
            from == self.from,
    {
        self.from
    }

    pub fn get_to(&self) -> (to: Square)
        ensures
            to == self.to,
    {
        self.to
    }

    pub fn is_capture(&self) -> (capture: bool)
        ensures
            capture == self.capture,
    {
        self.capture
    }

    pub fn is_promotion(&self) -> (promotion: bool)
        ensures
            promotion == self.promotion,
    {
        self.promotion
    }

    pub fn is_check(&self) -> (check: bool)
        ensures
            check == self.check,
    {
        self.check
    }

    pub fn is_checkmate(&self) -> (checkmate: bool)
        ensures
            checkmate == self.checkmate,
    {
        self.checkmate
    }

    pub fn is_stalemate(&self) -> (stalemate: bool)
        ensures
            stalemate == self.stalemate,
    {
        self.stalemate
    }

    pub fn get_evaluation(&self) -> (evaluation: Score)
        ensures
            evaluation == self.evaluation,
    {
        self.evaluation
    }

    pub fn set_promotion(&mut self, promotion: bool)
        ensures
            *final(self) == (HalfMove { promotion, ..*old(self) }),
    {
        self.promotion = promotion
    }

    pub fn set_check(&mut self, check: bool)
        ensures
            *final(self) == old(self).with_check(check),
    {
        self.check = check
    }

    pub fn set_checkmate(&mut self, checkmate: bool)
        ensures
            *final(self) == (HalfMove { checkmate, ..*old(self) }),
    {
        self.checkmate = checkmate
    }

    pub fn set_stalemate(&mut self, stalemate: bool)
        ensures
            *final(self) == (HalfMove { stalemate, ..*old(self) }),
    {
        self.stalemate = stalemate
    }

    pub fn set_evaluation(&mut self, evaluation: Score)
        ensures
            *final(self) == old(self).with_evaluation(evaluation),
    {
        self.evaluation = evaluation
    }

    /// The character that stands for the mover: the letter of its kind; for
    /// a pawn the letter of the file it leaves if it captures, and else the
    /// character with code 0.
    pub open spec fn mover_mark(self) -> char {
        match self.piece {
            PieceType::Pawn(_) => if self.capture {
                file_letter(self.from.file)
            } else {
                '\0'
            },
            _ => self.piece.symbol(),
        }
    }

    /// The move in writing: the mark of the mover, `x` for a capture, the
    /// name of the target square, `Q` for a promotion, `#` for mate or else
    /// `+` for check, and `(=)` for stalemate.
    pub open spec fn text(self) -> Seq<char> {
        seq![self.mover_mark()] + (if self.capture {
            seq!['x']
        } else {
            Seq::empty()
        }) + self.to.text() + (if self.promotion {
            seq!['Q']
        } else {
            Seq::empty()
        }) + self.check_mark() + (if self.stalemate {
            seq!['(', '=', ')']
        } else {
            Seq::empty()
        })
    }

    /// The mark of the mover: see [`HalfMove::mover_mark`].
    fn mover_symbol(&self) -> (mark: char)
        requires
            self.from.file <= 158,
        ensures
            mark == self.mover_mark(),
    {
        match self.piece {
            PieceType::Pawn(_) => {
                if self.capture {
                    normalize_file(self.from.get_file())
                } else {
                    '\0'
                }
            },
            _ => self.piece.get_symbol(),
        }
    }

    /// The sign of check or mate: see [`HalfMove::text`].
    pub open spec fn check_mark(self) -> Seq<char> {
        if self.checkmate {
            seq!['#']
        } else if self.check {
            seq!['+']
        } else {
            Seq::empty()
        }
    }

    fn push_check_mark(&self, text: &mut String)
        ensures
            final(text)@ == old(text)@ + self.check_mark(),
    {
        let ghost before = text@;
        if self.checkmate {
            text.push('#');
        } else if self.check {
            text.push('+');
        }
        assert(text@ =~= before + self.check_mark());
    }

    /// The move in writing: see [`HalfMove::text`].
    pub fn notation(&self) -> (text: String)
        requires
            self.to.rank < u8::MAX,
            self.to.file <= 158,
            self.from.file <= 158,
        ensures
            text@ == self.text(),
    {
        let mut text = String::new();
        text.push(self.mover_symbol());
        assert(text@ =~= seq![self.mover_mark()]);
        push_if(&mut text, self.capture, 'x');
        let ghost taken = text@;
        text.push(normalize_file(self.to.get_file()));
        push_decimal(&mut text, normalize_rank(self.to.get_rank()));
        assert(text@ =~= taken + self.to.text());
        push_if(&mut text, self.promotion, 'Q');
        self.push_check_mark(&mut text);
        push_if(&mut text, self.stalemate, '(');
        push_if(&mut text, self.stalemate, '=');
        push_if(&mut text, self.stalemate, ')');
        assert(text@ =~= self.text());
        text
    }
}

/// Appends the character to the text if the condition holds.
fn push_if(text: &mut String, condition: bool, mark: char)
    ensures
        final(text)@ == old(text)@ + (if condition {
            seq![mark]
        } else {
            Seq::empty()
        }),
{
    let ghost before = text@;
    if condition {
        text.push(mark);
    }
    assert(text@ =~= before + (if condition {
        seq![mark]
    } else {
        Seq::empty()
    }));
}

/// A span of time, in whole microseconds.
#[derive(PartialEq, Eq, Structural, Debug, Copy, Clone)]
pub struct Seconds {
    pub micros: u64,
}

impl Seconds {
    pub fn new(micros: u64) -> (span: Seconds)
        ensures
            span.micros == micros,
    {
        Seconds { micros }
    }
}

/// The two moves of one turn, White's and Black's, with the time that each
/// side took. A move that is absent was never made: the game ended before it.
#[derive(Debug, Copy, Clone)]
pub struct FullMove {
    pub white_move: Option<HalfMove>,
    pub white_seconds: Seconds,
    pub black_move: Option<HalfMove>,
    pub black_seconds: Seconds,
}

impl FullMove {
    /// The turn in which nothing has been played yet and no time has passed.
    pub open spec fn empty() -> FullMove {
        FullMove {
            white_move: None,
            white_seconds: Seconds { micros: 0 },
            black_move: None,
            black_seconds: Seconds { micros: 0 },
        }
    }

    /// A turn in which nothing has been played yet.
    pub fn new() -> (moves: FullMove)
        ensures
            moves == FullMove::empty(),
    {
        FullMove {
            white_move: None,
            white_seconds: Seconds { micros: 0 },
            black_move: None,
            black_seconds: Seconds { micros: 0 },
        }
    }

    pub fn get_white_move(&self) -> (play: &Option<HalfMove>)
        ensures
            *play == self.white_move,
    {
        &self.white_move
    }

    pub fn get_white_seconds(&self) -> (span: Seconds)
        ensures
            span == self.white_seconds,
    {
        self.white_seconds
    }

    pub fn get_black_move(&self) -> (play: &Option<HalfMove>)
        ensures
            *play == self.black_move,
    {
        &self.black_move
    }

    pub fn get_black_seconds(&self) -> (span: Seconds)
        ensures
            span == self.black_seconds,
    {
        self.black_seconds
    }

    pub fn set_white_move(&mut self, m: HalfMove)
        ensures
            *final(self) == (FullMove { white_move: Some(m), ..*old(self) }),
    {
        self.white_move = Some(m);
    }

    pub fn set_white_seconds(&mut self, seconds: Seconds)
        ensures
            *final(self) == (FullMove { white_seconds: seconds, ..*old(self) }),
    {
        self.white_seconds = seconds;
    }

    pub fn set_black_move(&mut self, m: HalfMove)
        ensures
            *final(self) == (FullMove { black_move: Some(m), ..*old(self) }),
    {
        self.black_move = Some(m);
    }

    pub fn set_black_seconds(&mut self, seconds: Seconds)
        ensures
            *final(self) == (FullMove { black_seconds: seconds, ..*old(self) }),
    {
        self.black_seconds = seconds;
    }
}

} // verus!
