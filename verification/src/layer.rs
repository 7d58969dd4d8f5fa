use vstd::prelude::*;
use crate::activation::Activation;
use crate::vectorops::{seq_of, Signal};

verus! {

/// A trainable layer that a cell delegates each of its gates to.
///
/// The cell never looks inside a sub-layer. What it needs to know of one is
/// stated here. `forward`, `backward`, `reset`, the three tracer operations,
/// `activation` and `distance` are functions of the layer and of their
/// arguments, named by the specification functions beside them. `create` and
/// `crossover` may draw random numbers, so each has a relation in place of a
/// function: it holds of every value that the call can return. No clause
/// promises that a call succeeds, nor how long a returned vector is: the cell
/// checks both.
///
/// Nothing is proved here of an implementation. What is proved of a cell
/// holds for sub-layers that keep to these clauses.
pub trait SubLayer<T>: Sized {
    /// The shared configuration that `crossover` and `distance` read.
    type Environment;

    /// Whether `create`, given these arguments, can return `layer`.
    spec fn create_spec(inputs: u32, outputs: u32, activation: Activation, layer: Self) -> bool;

    /// The activation function of this layer.
    spec fn activation_spec(&self) -> Activation;

    /// The layer after `forward` on `inputs`, and what the call returns.
    spec fn forward_spec(&self, inputs: Signal<T>) -> (Self, Option<Signal<T>>);

    /// The layer after `backward` on `errors` at `rate`, and what the call
    /// returns.
    spec fn backward_spec(&self, errors: Signal<T>, rate: T) -> (Self, Option<Signal<T>>);

    /// The layer after `reset`.
    spec fn reset_spec(&self) -> Self;

    /// The layer after `add_tracer`.
    spec fn add_tracer_spec(&self) -> Self;

    /// The layer after `remove_tracer`.
    spec fn remove_tracer_spec(&self) -> Self;

    /// The layer after `set_trace_index` on `index`.
    spec fn set_trace_index_spec(&self, index: usize) -> Self;

    /// Whether `crossover`, given these arguments, can return `outcome`.
    spec fn crossover_spec(
        child: &Self,
        parent_two: &Self,
        env: &Self::Environment,
        crossover_rate: T,
        outcome: Option<Self>,
    ) -> bool;

    /// The structural distance between two layers under `env`.
    spec fn distance_spec(one: &Self, two: &Self, env: &Self::Environment) -> T;

    /// A new layer from `inputs` values to `outputs` values.
    fn create(inputs: u32, outputs: u32, activation: Activation) -> (layer: Self)
        ensures
            Self::create_spec(inputs, outputs, activation, layer),
    ;

    /// The activation function of this layer.
    fn activation(&self) -> (function: Activation)
        ensures
            function == self.activation_spec(),
    ;

    /// Feeds `inputs` through the layer; `None` if the layer fails.
    fn forward(&mut self, inputs: &Vec<T>) -> (out: Option<Vec<T>>)
        ensures
            (*final(self), seq_of(out)) == old(self).forward_spec(inputs@),
    ;

    /// Propagates `errors` back through the layer, updates its weights at
    /// `rate`, and returns the error of its input; `None` if the layer
    /// fails.
    fn backward(&mut self, errors: &Vec<T>, rate: T) -> (out: Option<Vec<T>>)
        ensures
            (*final(self), seq_of(out)) == old(self).backward_spec(errors@, rate),
    ;

    /// Forgets what the layer has recorded of earlier calls; its weights stay.
    fn reset(&mut self)
        ensures
            *final(self) == old(self).reset_spec(),
    ;

    /// Makes the layer keep, from now on, what each forward step needs for
    /// the backward step that unwinds it.
    fn add_tracer(&mut self)
        ensures
            *final(self) == old(self).add_tracer_spec(),
    ;

    /// Makes the layer stop keeping that, and drop what it has kept.
    fn remove_tracer(&mut self)
        ensures
            *final(self) == old(self).remove_tracer_spec(),
    ;

    /// Points the layer at the forward step that its next backward step
    /// unwinds.
    fn set_trace_index(&mut self, index: usize)
        ensures
            *final(self) == old(self).set_trace_index_spec(index),
    ;

    /// A layer bred from `child` and `parent_two`; `None` if that fails.
    fn crossover(
        child: &Self,
        parent_two: &Self,
        env: &Self::Environment,
        crossover_rate: T,
    ) -> (outcome: Option<Self>)
        ensures
            Self::crossover_spec(child, parent_two, env, crossover_rate, outcome),
    ;

    /// The structural distance between two layers under `env`.
    fn distance(one: &Self, two: &Self, env: &Self::Environment) -> (d: T)
        ensures
            d == Self::distance_spec(one, two, env),
    ;
}

} // verus!
