use vstd::prelude::*;
use std::collections::HashMap;
use crate::activation::Activation;

verus! {

/// The mathematical value of the slots of a node: for each node that a value
/// is expected from, the value if it has arrived.
pub type Slots<T> = Map<i32, Option<T>>;

/// How a kind of node combines what it has received into its value.
///
/// A node hands its received values over only when every one of them is
/// there. `activate` is a function of the values received and of its other
/// arguments, not of the order in which the map is walked: it returns the
/// same value whenever it is given the same arguments.
///
/// Nothing is proved here of an implementation. What is proved of a node
/// holds for kinds that keep to these clauses.
pub trait NodeType<T>: Copy {
    /// Whether a node of this kind carries its auxiliary state from one tick
    /// to the next.
    spec fn carries_memory_spec(&self) -> bool;

    /// The auxiliary state and the value that `activate` returns.
    spec fn activate_spec(
        &self,
        incoming: Slots<T>,
        activation: Activation,
        prev_value: Option<T>,
        cell_state: Option<T>,
    ) -> (Option<T>, T);

    /// Whether a node of this kind carries its auxiliary state from one tick
    /// to the next.
    fn carries_memory(&self) -> (carries: bool)
        ensures
            carries == self.carries_memory_spec(),
    ;

    /// Combines the received values into the node's new auxiliary state and
    /// its new value.
    fn activate(
        &self,
        incoming: &HashMap<i32, Option<T>>,
        activation: &Activation,
        prev_value: &Option<T>,
        cell_state: &Option<T>,
    ) -> (result: (Option<T>, T))
        requires
            incoming@.len() > 0,
            forall|source: i32| incoming@.contains_key(source) ==> incoming@[source] is Some,
        ensures
            result == self.activate_spec(incoming@, *activation, *prev_value, *cell_state),
    ;
}

} // verus!
