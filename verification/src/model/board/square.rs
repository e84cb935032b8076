use vstd::prelude::*;
use crate::utils::{decimal, file_letter, normalize_file, normalize_rank, push_decimal};

verus! {

/// A coordinate pair: the rank (row) and the file (column) of a square.
///
/// The squares of the board have both coordinates below 8; a pair with a
/// larger coordinate names no square of the board.
#[derive(PartialEq, Eq, Structural, Debug, Copy, Clone, Hash)]
pub struct Square {
    pub rank: u8,
    pub file: u8,
}

impl Square {
    /// Whether the pair names one of the 64 squares of the board.
    pub open spec fn on_board(self) -> bool {
        self.rank < 8 && self.file < 8
    }

    /// The position of an on-board square in rank-major order: 0 for the
    /// first file of the first rank, 63 for the last file of the last rank.
    pub open spec fn index(self) -> int {
        self.rank * 8 + self.file
    }

    /// The square at a position of the rank-major order.
    pub open spec fn at(index: int) -> Square {
        Square { rank: (index / 8) as u8, file: (index % 8) as u8 }
    }

    pub fn new(rank: u8, file: u8) -> (square: Square)
        ensures
            square.rank == rank,
            square.file == file,
    {
        Square { rank, file }
    }

    pub fn get_rank(&self) -> (rank: u8)
        ensures
            rank == self.rank,
    {
        self.rank
    }

    pub fn get_file(&self) -> (file: u8)
        ensures
            file == self.file,
    {
        self.file
    }

    /// The name of the square: the letter of its file, then the number of
    /// its rank.
    pub open spec fn text(self) -> Seq<char> {
        seq![file_letter(self.file)] + decimal((self.rank + 1) as nat)
    }

    /// The name of the square as players write it, such as `e4`.
    pub fn notation(&self) -> (text: String)
        requires
            self.rank < u8::MAX,
            self.file <= 158,
        ensures
            text@ == self.text(),
    {
        let mut text = String::new();
        text.push(normalize_file(self.file));
        push_decimal(&mut text, normalize_rank(self.rank));
        text
    }
}

} // verus!
