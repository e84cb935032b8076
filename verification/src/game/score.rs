use vstd::prelude::*;

verus! {

/// An exact fraction `num / den` of two naturals.
///
/// With `den == 0` it stands for no number: for a value above every number
/// when `num > 0`, and for an undefined value when `num == 0`.
#[derive(PartialEq, Eq, Structural, Debug, Copy, Clone)]
pub struct Ratio {
    pub num: u64,
    pub den: u64,
}

impl Ratio {
    /// A number greater than zero.
    pub open spec fn is_positive_finite(self) -> bool {
        self.num > 0 && self.den > 0
    }

    pub fn new(num: u64, den: u64) -> (ratio: Ratio)
        ensures
            ratio.num == num,
            ratio.den == den,
    {
        Ratio { num, den }
    }
}

/// The worth of a move to the side for which a search is made.
///
/// `Loss` is the least and `Win` the greatest outcome of a game, `Draw` lies
/// strictly between them and below the value of every position.
#[derive(PartialEq, Eq, Structural, Debug, Copy, Clone)]
pub enum Score {
    Loss,
    Draw,
    Value(Ratio),
    Win,
}

impl Score {
    /// The place of a score among the kinds of scores: a lost game, a drawn
    /// game, a position of finite worth, a won game, a position of unbounded
    /// worth; 5 for an undefined worth, which has no place.
    pub open spec fn class(self) -> int {
        match self {
            Score::Loss => 0,
            Score::Draw => 1,
            Score::Value(r) => if r.den > 0 {
                2
            } else if r.num > 0 {
                4
            } else {
                5
            },
            Score::Win => 3,
        }
    }

    pub open spec fn is_undefined(self) -> bool {
        self.class() == 5
    }

    /// Strictly greater: by class, and between two finite values by size.
    /// An undefined score is neither greater nor smaller than any score.
    pub open spec fn gt(self, other: Score) -> bool {
        if self.is_undefined() || other.is_undefined() {
            false
        } else if self.class() != other.class() {
            self.class() > other.class()
        } else {
            match (self, other) {
                (Score::Value(a), Score::Value(b)) => a.den > 0 && a.num * b.den > b.num * a.den,
                _ => false,
            }
        }
    }

    /// The value zero, which a move carries until it has been scored.
    pub open spec fn zero() -> Score {
        Score::Value(Ratio { num: 0, den: 1 })
    }

    pub fn new_zero() -> (score: Score)
        ensures
            score == Score::zero(),
    {
        Score::Value(Ratio { num: 0, den: 1 })
    }

    fn class_number(&self) -> (class: u8)
        ensures
            class == self.class(),
    {
        match self {
            Score::Loss => 0,
            Score::Draw => 1,
            Score::Value(r) => if r.den > 0 {
                2
            } else if r.num > 0 {
                4
            } else {
                5
            },
            Score::Win => 3,
        }
    }

    /// Whether this score is strictly greater than the other.
    pub fn better_than(&self, other: &Score) -> (better: bool)
        ensures
            better == self.gt(*other),
    {
        let mine: u8 = self.class_number();
        let theirs: u8 = other.class_number();
        if mine == 5 || theirs == 5 {
            false
        } else if mine != theirs {
            mine > theirs
        } else {
            match (self, other) {
                (Score::Value(a), Score::Value(b)) => {
                    if a.den > 0 {
                        assert(a.num * b.den <= u64::MAX * u64::MAX && b.num * a.den <= u64::MAX
                            * u64::MAX) by (nonlinear_arith)
                            requires
                                a.num <= u64::MAX,
                                b.den <= u64::MAX,
                                b.num <= u64::MAX,
                                a.den <= u64::MAX,
                        ;
                        let left: u128 = (a.num as u128) * (b.den as u128);
                        let right: u128 = (b.num as u128) * (a.den as u128);
                        left > right
                    } else {
                        false
                    }
                },
                _ => false,
            }
        }
    }
}

/// The order of the outcomes: a draw is worth more than a loss and less
/// than any position of finite worth, and a win is worth more than any of
/// these. No score is greater than itself, and of two scores at most one is
/// greater than the other.
pub proof fn lemma_draw_lies_between(value: Ratio, a: Score, b: Score)
    requires
        value.den > 0,
    ensures
        Score::Draw.gt(Score::Loss),
        Score::Value(value).gt(Score::Draw),
        Score::Win.gt(Score::Value(value)),
        Score::Win.gt(Score::Draw),
        !a.gt(a),
        a.gt(b) ==> !b.gt(a),
{
}

/// Among the scores that are not undefined, greater-than is transitive.
pub proof fn lemma_gt_transitive(a: Score, b: Score, c: Score)
    requires
        a.gt(b),
        b.gt(c),
    ensures
        a.gt(c),
{
    if let (Score::Value(x), Score::Value(y), Score::Value(z)) = (a, b, c) {
        if x.den > 0 && y.den > 0 && z.den > 0 {
            assert(x.num * z.den > z.num * x.den) by (nonlinear_arith)
                requires
                    x.num * y.den > y.num * x.den,
                    y.num * z.den > z.num * y.den,
                    x.den > 0,
                    y.den > 0,
                    z.den > 0,
                    x.num >= 0,
                    y.num >= 0,
                    z.num >= 0,
            ;
        }
    }
}

} // verus!
