use vstd::prelude::*;

verus! {

/// The squashing functions that a gate or a node can be built with. A value
/// of this type is only a tag: what the function computes is given by the
/// [`Scalar`](crate::scalar::Scalar) it is applied to.
#[derive(Clone, Copy, PartialEq, Eq, Debug, Structural)]
pub enum Activation {
    Sigmoid,
    Tanh,
}

} // verus!
