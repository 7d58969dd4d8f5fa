use vstd::prelude::*;
use crate::activation::Activation;

verus! {

/// The numbers that a cell computes with.
///
/// Each operation is paired with a specification function that names its
/// result. An implementation promises only that: an operation returns the same
/// value whenever it is given the same arguments. Nothing is assumed of how
/// the operations relate to each other, so rounding, saturation and
/// non-finite values are all admitted.
///
/// Nothing is proved here of an implementation. What is proved of a cell
/// holds for numbers that keep to these clauses.
pub trait Scalar: Copy {
    /// The value that `zero` returns.
    spec fn zero_spec() -> Self;

    /// The value that `plus` returns.
    spec fn plus_spec(self, other: Self) -> Self;

    /// The value that `times` returns.
    spec fn times_spec(self, other: Self) -> Self;

    /// The value that `activate` returns.
    spec fn activate_spec(self, function: Activation) -> Self;

    /// The value that `deactivate` returns.
    spec fn deactivate_spec(self, function: Activation) -> Self;

    /// The additive identity that vectors are initialised with.
    fn zero() -> (r: Self)
        ensures
            r == Self::zero_spec(),
    ;

    /// The sum of two scalars.
    fn plus(self, other: Self) -> (r: Self)
        ensures
            r == self.plus_spec(other),
    ;

    /// The product of two scalars.
    fn times(self, other: Self) -> (r: Self)
        ensures
            r == self.times_spec(other),
    ;

    /// Applies the activation function `function` to `self`.
    fn activate(self, function: Activation) -> (r: Self)
        ensures
            r == self.activate_spec(function),
    ;

    /// The derivative of `function`, evaluated at the activated output `self`.
    fn deactivate(self, function: Activation) -> (r: Self)
        ensures
            r == self.deactivate_spec(function),
    ;
}

} // verus!
