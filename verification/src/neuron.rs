use vstd::prelude::*;
use std::collections::HashMap;
use vstd::std_specs::iter::IteratorSpec;
use crate::activation::Activation;
use crate::nodetype::NodeType;
use crate::vectorops::duplicate;

verus! {

/// Where a node stands in the network.
#[derive(Clone, Copy, PartialEq, Eq, Debug, Structural)]
pub enum Layer {
    Input,
    Hidden,
    Output,
}

/// A node of a network graph. Edges address it by `innov`. `incoming` holds
/// one slot for each node that it expects a value from, keyed by that node's
/// number and empty until the value has arrived; `outgoing` holds the numbers
/// of the edges that it feeds.
#[derive(Debug)]
pub struct Neuron<T, K> {
    pub innov: i32,
    pub curr_value: Option<T>,
    pub prev_value: Option<T>,
    pub cell_state: Option<T>,
    pub layer_type: Layer,
    pub node_type: K,
    pub activation: Activation,
    pub outgoing: Vec<i32>,
    pub incoming: HashMap<i32, Option<T>>,
}

/// The mathematical value of a node.
pub struct NeuronView<T, K> {
    pub innov: i32,
    pub curr_value: Option<T>,
    pub prev_value: Option<T>,
    pub cell_state: Option<T>,
    pub layer_type: Layer,
    pub node_type: K,
    pub activation: Activation,
    pub outgoing: Seq<i32>,
    pub incoming: Map<i32, Option<T>>,
}

impl<T, K> View for Neuron<T, K> {
    type V = NeuronView<T, K>;

    open spec fn view(&self) -> NeuronView<T, K> {
        NeuronView {
            innov: self.innov,
            curr_value: self.curr_value,
            prev_value: self.prev_value,
            cell_state: self.cell_state,
            layer_type: self.layer_type,
            node_type: self.node_type,
            activation: self.activation,
            outgoing: self.outgoing@,
            incoming: self.incoming@,
        }
    }
}

/// Whether every slot of `incoming` holds a value.
pub open spec fn all_received<T>(incoming: Map<i32, Option<T>>) -> bool {
    forall|source: i32| #[trigger] incoming.contains_key(source) ==> incoming[source] is Some
}

/// `incoming` with every slot emptied.
pub open spec fn emptied<T>(incoming: Map<i32, Option<T>>) -> Map<i32, Option<T>> {
    Map::new(|source: i32| incoming.contains_key(source), |source: i32| None::<T>)
}

impl<T, K: NodeType<T>> NeuronView<T, K> {
    /// A node with no value, no state and no edges.
    pub open spec fn blank(innov: i32, layer_type: Layer, node_type: K, activation: Activation) -> Self {
        NeuronView {
            innov,
            curr_value: None,
            prev_value: None,
            cell_state: None,
            layer_type,
            node_type,
            activation,
            outgoing: Seq::empty(),
            incoming: Map::empty(),
        }
    }

    /// A node can fire: it expects at least one value, every value that it
    /// expects has arrived, and it has not produced its value in this tick.
    pub open spec fn ready(self) -> bool {
        &&& self.incoming.len() > 0
        &&& all_received(self.incoming)
        &&& self.curr_value is None
    }

    /// The node after it has fired.
    pub open spec fn fire(self) -> Self {
        let (cell_state, value) = self.node_type.activate_spec(
            self.incoming,
            self.activation,
            self.prev_value,
            self.cell_state,
        );
        NeuronView { curr_value: Some(value), cell_state, ..self }
    }

    /// A copy of the node that has no value and no state yet: its number,
    /// its place, its kind, its activation function and its edges are kept,
    /// and so is what its slots hold.
    pub open spec fn without_values(self) -> Self {
        NeuronView { curr_value: None, prev_value: None, cell_state: None, ..self }
    }

    /// The node at the start of the next tick: its value has become its
    /// previous value, its auxiliary state is kept only by a kind of node that
    /// carries memory, and every slot is empty again.
    pub open spec fn advance(self) -> Self {
        NeuronView {
            prev_value: self.curr_value,
            curr_value: None,
            cell_state: if self.node_type.carries_memory_spec() {
                self.cell_state
            } else {
                None
            },
            incoming: emptied(self.incoming),
            ..self
        }
    }
}

/// Whether every slot of `incoming` holds a value.
pub fn has_all<T>(incoming: &HashMap<i32, Option<T>>) -> (all: bool)
    ensures
        all == all_received(incoming@),
{
    broadcast use vstd::std_specs::hash::group_hash_axioms;

    let ghost slots = vstd::std_specs::hash::spec_hash_map_iter(incoming).remaining();
    let ghost mut seen: int = 0;
    let mut all = true;
    for slot in it: incoming.iter()
        invariant
            it.seq() == slots,
            seen == it.index(),
            all <==> forall|j: int| 0 <= j < seen ==> (*(#[trigger] slots[j]).1) is Some,
    {
        if slot.1.is_none() {
            all = false;
        }
        proof {
            seen = seen + 1;
        }
    }
    proof {
        assert(seen == slots.len());
        if all {
            assert forall|source: i32| incoming@.contains_key(source) implies incoming@[source] is Some by {
                let pair = (&source, &incoming@[source]);
                assert(slots.contains(pair));
                let j = choose|j: int| 0 <= j < slots.len() && slots[j] == pair;
                assert((*slots[j].1) is Some);
            }
        } else {
            let j = choose|j: int| 0 <= j < seen && !((*(#[trigger] slots[j]).1) is Some);
            assert(incoming@.contains_key(*slots[j].0));
            assert(incoming@[*slots[j].0] == *slots[j].1);
        }
    }
    all
}

/// A map with the slots of `incoming`: each holding what it holds there if
/// `keep` is set, each empty otherwise.
fn rebuilt<T: Copy>(incoming: &HashMap<i32, Option<T>>, keep: bool) -> (slots: HashMap<
    i32,
    Option<T>,
>)
    ensures
        slots@ == (if keep {
            incoming@
        } else {
            emptied(incoming@)
        }),
{
    broadcast use vstd::std_specs::hash::group_hash_axioms;

    let ghost pairs = vstd::std_specs::hash::spec_hash_map_iter(incoming).remaining();
    let ghost mut seen: int = 0;
    let mut slots: HashMap<i32, Option<T>> = HashMap::new();
    for pair in it: incoming.iter()
        invariant
            it.seq() == pairs,
            seen == it.index(),
            forall|j: int|
                0 <= j < pairs.len() ==> incoming@.contains_key(*(#[trigger] pairs[j]).0)
                    && incoming@[*pairs[j].0] == *pairs[j].1,
            forall|source: i32|
                slots@.contains_key(source) <==> exists|j: int|
                    0 <= j < seen && *(#[trigger] pairs[j]).0 == source,
            forall|source: i32|
                slots@.contains_key(source) ==> slots@[source] == (if keep {
                    incoming@[source]
                } else {
                    None
                }),
    {
        let ghost earlier = slots@;
        assert(pair == pairs[seen]);
        let value = if keep {
            *pair.1
        } else {
            None
        };
        slots.insert(*pair.0, value);
        proof {
            assert forall|source: i32| slots@.contains_key(source) <==> exists|j: int|
                0 <= j < seen + 1 && *(#[trigger] pairs[j]).0 == source by {
                if slots@.contains_key(source) {
                    if source == *pair.0 {
                        assert(*pairs[seen].0 == source);
                    } else {
                        assert(earlier.contains_key(source));
                        let j = choose|j: int| 0 <= j < seen && *(#[trigger] pairs[j]).0 == source;
                        assert(0 <= j < seen + 1 && *pairs[j].0 == source);
                    }
                }
                if exists|j: int| 0 <= j < seen + 1 && *(#[trigger] pairs[j]).0 == source {
                    let j = choose|j: int| 0 <= j < seen + 1 && *(#[trigger] pairs[j]).0 == source;
                    if j < seen {
                        assert(earlier.contains_key(source));
                    }
                }
            }
            seen = seen + 1;
        }
    }
    proof {
        assert(seen == pairs.len());
        assert forall|source: i32| slots@.contains_key(source) <==> incoming@.contains_key(
            source,
        ) by {
            if slots@.contains_key(source) {
                let j = choose|j: int| 0 <= j < seen && *(#[trigger] pairs[j]).0 == source;
                assert(incoming@.contains_key(*pairs[j].0));
            }
            if incoming@.contains_key(source) {
                let pair = (&source, &incoming@[source]);
                assert(pairs.contains(pair));
                let j = choose|j: int| 0 <= j < pairs.len() && pairs[j] == pair;
                assert(*pairs[j].0 == source);
            }
        }
        if keep {
            assert(slots@ =~= incoming@);
        } else {
            assert(slots@ =~= emptied(incoming@));
        }
    }
    slots
}

/// A map with the slots of `incoming`, each of them empty.
pub fn cleared<T: Copy>(incoming: &HashMap<i32, Option<T>>) -> (slots: HashMap<i32, Option<T>>)
    ensures
        slots@ == emptied(incoming@),
{
    rebuilt(incoming, false)
}

/// A copy of `incoming`: the same slots, each holding what it holds there.
pub fn copied<T: Copy>(incoming: &HashMap<i32, Option<T>>) -> (slots: HashMap<i32, Option<T>>)
    ensures
        slots@ == incoming@,
{
    rebuilt(incoming, true)
}

impl<T: Copy, K: NodeType<T>> Neuron<T, K> {
    /// A node with nothing but its number, its place, its kind and its
    /// activation function: no value, no state and no edges.
    pub fn new(innov: i32, layer_type: Layer, node_type: K, activation: Activation) -> (node: Self)
        ensures
            node@ == NeuronView::<T, K>::blank(innov, layer_type, node_type, activation),
    {
        Neuron {
            innov,
            curr_value: None,
            prev_value: None,
            cell_state: None,
            layer_type,
            node_type,
            activation,
            outgoing: Vec::new(),
            incoming: HashMap::new(),
        }
    }

    /// Fires the node if it can fire, and says whether it did. A node that
    /// still waits for a value, that expects none, or that has already fired
    /// in this tick is left as it is.
    pub fn is_ready(&mut self) -> (fired: bool)
        ensures
            fired == old(self)@.ready(),
            final(self)@ == (if fired {
                old(self)@.fire()
            } else {
                old(self)@
            }),
            fired ==> !final(self)@.ready(),
    {
        broadcast use vstd::std_specs::hash::group_hash_axioms;

        if self.curr_value.is_some() || self.incoming.len() == 0 {
            return false;
        }
        if has_all(&self.incoming) {
            let (temp_cell_state, temp_curr_value) = self.node_type.activate(
                &self.incoming,
                &self.activation,
                &self.prev_value,
                &self.cell_state,
            );
            self.curr_value = Some(temp_curr_value);
            self.cell_state = temp_cell_state;
            return true;
        }
        false
    }

    /// Prepares the node for the next tick: its value becomes its previous
    /// value, and every slot is emptied. The auxiliary state is dropped
    /// unless the node's kind carries memory.
    pub fn reset_node(&mut self)
        ensures
            final(self)@ == old(self)@.advance(),
            !final(self)@.ready(),
    {
        proof {
            lemma_fires_once(self@);
        }
        self.prev_value = self.curr_value;
        self.curr_value = None;
        if !self.node_type.carries_memory() {
            self.cell_state = None;
        }
        self.incoming = cleared(&self.incoming);
    }
}

impl<T: Copy, K: NodeType<T>> Clone for Neuron<T, K> {
    /// A node with the same number, place, kind, activation function and
    /// edges, and with what the slots hold, but with no value and no state.
    fn clone(&self) -> (node: Self)
        ensures
            node@ == self@.without_values(),
    {
        Neuron {
            innov: self.innov,
            curr_value: None,
            prev_value: None,
            cell_state: None,
            layer_type: self.layer_type,
            node_type: self.node_type,
            activation: self.activation,
            outgoing: duplicate(&self.outgoing),
            incoming: copied(&self.incoming),
        }
    }
}

/// A node fires at most once in a tick: a node that has fired is not ready,
/// and stays as it is however often it is asked, until the next tick starts;
/// and a node at the start of a tick is not ready before a value arrives.
pub proof fn lemma_fires_once<T, K: NodeType<T>>(node: NeuronView<T, K>)
    ensures
        node.ready() ==> !node.fire().ready(),
        node.ready() ==> node.fire().curr_value is Some,
        !node.advance().ready(),
        node.advance().incoming.dom() == node.incoming.dom(),
{
    let next = node.advance();
    if next.incoming.len() > 0 {
        assert(next.incoming.dom() =~= node.incoming.dom());
        let source = choose|source: i32| next.incoming.contains_key(source);
        assert(next.incoming.contains_key(source)) by {
            if forall|source: i32| !next.incoming.dom().contains(source) {
                assert(next.incoming.dom() =~= Set::empty());
            }
        }
        assert(next.incoming[source] is None);
    }
    assert(next.incoming.dom() =~= node.incoming.dom());
}

} // verus!
