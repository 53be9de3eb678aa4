//! The numeric interface that every indicator is written against, and the
//! sums and extremes over a window of samples that the indicators are stated in.

use vstd::prelude::*;

verus! {

/// A number an indicator can compute with.
///
/// Each executable operation returns exactly the value that its specification
/// function names, so that an indicator's output is a fixed expression over
/// the samples it has seen, whatever arithmetic stands behind the operations.
/// A specification function that an implementation leaves out names some
/// value that nothing more is known of; an implementation that is not
/// verified promises only that each operation gives the same result for the
/// same operands.
pub trait Scalar: Sized + Copy {
    /// The number that stands for the integer `n`.
    open spec fn of_int(n: int) -> Self {
        arbitrary()
    }

    /// What `plus` returns.
    open spec fn plus_spec(self, rhs: Self) -> Self {
        arbitrary()
    }

    /// What `minus` returns.
    open spec fn minus_spec(self, rhs: Self) -> Self {
        arbitrary()
    }

    /// What `times` returns.
    open spec fn times_spec(self, rhs: Self) -> Self {
        arbitrary()
    }

    /// What `over` returns.
    open spec fn over_spec(self, rhs: Self) -> Self {
        arbitrary()
    }

    /// What `negated` returns.
    open spec fn negated_spec(self) -> Self {
        arbitrary()
    }

    /// What `magnitude` returns.
    open spec fn magnitude_spec(self) -> Self {
        arbitrary()
    }

    /// What `le` returns: the order that windows and stops are compared by.
    open spec fn le_spec(self, rhs: Self) -> bool {
        arbitrary()
    }

    /// What `same` returns.
    open spec fn same_spec(self, rhs: Self) -> bool {
        arbitrary()
    }

    /// The number that stands for the integer `n`.
    fn from_i64(n: i64) -> (r: Self)
        ensures
            r == Self::of_int(n as int),
    ;

    /// `self + rhs`.
    fn plus(self, rhs: Self) -> (r: Self)
        ensures
            r == self.plus_spec(rhs),
    ;

    /// `self - rhs`.
    fn minus(self, rhs: Self) -> (r: Self)
        ensures
            r == self.minus_spec(rhs),
    ;

    /// `self * rhs`.
    fn times(self, rhs: Self) -> (r: Self)
        ensures
            r == self.times_spec(rhs),
    ;

    /// `self / rhs`.
    fn over(self, rhs: Self) -> (r: Self)
        ensures
            r == self.over_spec(rhs),
    ;

    /// `-self`.
    fn negated(self) -> (r: Self)
        ensures
            r == self.negated_spec(),
    ;

    /// `|self|`.
    fn magnitude(self) -> (r: Self)
        ensures
            r == self.magnitude_spec(),
    ;

    /// Whether `self` is at most `rhs`.
    fn le(self, rhs: Self) -> (r: bool)
        ensures
            r == self.le_spec(rhs),
    ;

    /// Whether `self` and `rhs` are the same number.
    fn same(self, rhs: Self) -> (r: bool)
        ensures
            r == self.same_spec(rhs),
    ;
}

/// A scalar whose order behaves as the indicators' ordering laws need.
pub trait OrderedScalar: Scalar {
    /// Every number is at most itself.
    proof fn le_reflexive(a: Self)
        ensures
            a.le_spec(a),
    ;

    /// What is at most a number that is at most a third is at most the third.
    proof fn le_transitive(a: Self, b: Self, c: Self)
        requires
            a.le_spec(b),
            b.le_spec(c),
        ensures
            a.le_spec(c),
    ;

    /// Adding a number above zero never lowers the sum.
    proof fn plus_positive_grows(a: Self, b: Self)
        requires
            !b.le_spec(Self::of_int(0)),
        ensures
            a.le_spec(a.plus_spec(b)),
    ;
}

/// The sum of `w`, added up from the left starting at zero.
pub open spec fn sum_of<S: Scalar>(w: Seq<S>) -> S
    decreases w.len(),
{
    if w.len() == 0 {
        S::of_int(0)
    } else {
        sum_of(w.drop_last()).plus_spec(w.last())
    }
}

/// The sum of `w` divided by `n`.
pub open spec fn mean_of<S: Scalar>(w: Seq<S>, n: int) -> S {
    sum_of(w).over_spec(S::of_int(n))
}

/// The sum of `w` with the weights 1, 2, 3, ... from the oldest sample to the
/// newest, added up from the left starting at zero.
pub open spec fn weighted_sum_of<S: Scalar>(w: Seq<S>) -> S
    decreases w.len(),
{
    if w.len() == 0 {
        S::of_int(0)
    } else {
        weighted_sum_of(w.drop_last()).plus_spec(w.last().times_spec(S::of_int(w.len() as int)))
    }
}

/// The sum of the weights 1 to `n`, computed as `n * (n + 1)` over two.
pub open spec fn weight_total<S: Scalar>(n: int) -> S {
    S::of_int(n * (n + 1)).over_spec(S::of_int(2))
}

/// `b` where `a` is at most `b`, else `a`.
pub open spec fn larger_of<S: Scalar>(a: S, b: S) -> S {
    if a.le_spec(b) {
        b
    } else {
        a
    }
}

/// `b` where `b` is at most `a`, else `a`.
pub open spec fn smaller_of<S: Scalar>(a: S, b: S) -> S {
    if b.le_spec(a) {
        b
    } else {
        a
    }
}

/// The largest sample of a non-empty `w`, found from the left.
pub open spec fn highest_of<S: Scalar>(w: Seq<S>) -> S
    decreases w.len(),
{
    if w.len() <= 1 {
        w[0]
    } else {
        larger_of(highest_of(w.drop_last()), w.last())
    }
}

/// The smallest sample of a non-empty `w`, found from the left.
pub open spec fn lowest_of<S: Scalar>(w: Seq<S>) -> S
    decreases w.len(),
{
    if w.len() <= 1 {
        w[0]
    } else {
        smaller_of(lowest_of(w.drop_last()), w.last())
    }
}

/// The sum of the magnitudes of the steps between neighbouring samples of
/// `w`, added up from the left starting at zero.
pub open spec fn path_length_of<S: Scalar>(w: Seq<S>) -> S
    decreases w.len(),
{
    if w.len() <= 1 {
        S::of_int(0)
    } else {
        path_length_of(w.drop_last()).plus_spec(
            w.last().minus_spec(w[w.len() - 2]).magnitude_spec(),
        )
    }
}

} // verus!
