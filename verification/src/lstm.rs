use vstd::prelude::*;
use crate::activation::Activation;
use crate::layer::SubLayer;
use crate::scalar::Scalar;
use crate::vectorops::{
    activated, deactivated, duplicate, element_activate, element_add, element_deactivate,
    element_multiply, join, product, products, rows, seq_of, slice, sums, zero_vector, zeros,
};

verus! {

/// The ledger of a cell: a snapshot of each gate's output and of the memory
/// at every forward step, and the derivatives that each backward step hands
/// to the step before it.
#[derive(Debug)]
pub struct LSTMState<T> {
    pub index: usize,
    pub f_gate_output: Vec<Vec<T>>,
    pub i_gate_output: Vec<Vec<T>>,
    pub s_gate_output: Vec<Vec<T>>,
    pub o_gate_output: Vec<Vec<T>>,
    pub memory_states: Vec<Vec<T>>,
    pub errors: Vec<Vec<T>>,
    pub d_prev_memory: Vec<Vec<T>>,
    pub d_prev_hidden: Vec<Vec<T>>,
}

/// The mathematical value of a ledger.
pub struct LSTMStateView<T> {
    pub index: nat,
    pub f_gate_output: Seq<Seq<T>>,
    pub i_gate_output: Seq<Seq<T>>,
    pub s_gate_output: Seq<Seq<T>>,
    pub o_gate_output: Seq<Seq<T>>,
    pub memory_states: Seq<Seq<T>>,
    pub errors: Seq<Seq<T>>,
    pub d_prev_memory: Seq<Seq<T>>,
    pub d_prev_hidden: Seq<Seq<T>>,
}

impl<T> View for LSTMState<T> {
    type V = LSTMStateView<T>;

    open spec fn view(&self) -> LSTMStateView<T> {
        LSTMStateView {
            index: self.index as nat,
            f_gate_output: rows(self.f_gate_output),
            i_gate_output: rows(self.i_gate_output),
            s_gate_output: rows(self.s_gate_output),
            o_gate_output: rows(self.o_gate_output),
            memory_states: rows(self.memory_states),
            errors: rows(self.errors),
            d_prev_memory: rows(self.d_prev_memory),
            d_prev_hidden: rows(self.d_prev_hidden),
        }
    }
}

/// Whether every vector of `table` has `width` elements.
pub open spec fn all_of_width<T>(table: Seq<Seq<T>>, width: nat) -> bool {
    forall|i: int| 0 <= i < table.len() ==> (#[trigger] table[i]).len() == width
}

impl<T> LSTMStateView<T> {
    /// The ledger of a cell that has not run yet.
    pub open spec fn empty() -> Self {
        LSTMStateView {
            index: 0,
            f_gate_output: Seq::empty(),
            i_gate_output: Seq::empty(),
            s_gate_output: Seq::empty(),
            o_gate_output: Seq::empty(),
            memory_states: Seq::empty(),
            errors: Seq::empty(),
            d_prev_memory: Seq::empty(),
            d_prev_hidden: Seq::empty(),
        }
    }

    /// Every forward step has left one entry in each of its five sequences:
    /// `index` counts them.
    pub open spec fn consistent(self) -> bool {
        &&& self.f_gate_output.len() == self.index
        &&& self.i_gate_output.len() == self.index
        &&& self.s_gate_output.len() == self.index
        &&& self.o_gate_output.len() == self.index
        &&& self.memory_states.len() == self.index
    }

    /// Every snapshot and every derivative is a vector of `width` elements.
    pub open spec fn shaped(self, width: nat) -> bool {
        &&& all_of_width(self.f_gate_output, width)
        &&& all_of_width(self.i_gate_output, width)
        &&& all_of_width(self.s_gate_output, width)
        &&& all_of_width(self.o_gate_output, width)
        &&& all_of_width(self.memory_states, width)
        &&& all_of_width(self.d_prev_memory, width)
        &&& all_of_width(self.d_prev_hidden, width)
    }

    /// The ledger after one more forward step.
    pub open spec fn record(
        self,
        fg: Seq<T>,
        ig: Seq<T>,
        sg: Seq<T>,
        og: Seq<T>,
        mem_state: Seq<T>,
    ) -> Self {
        LSTMStateView {
            index: self.index + 1,
            f_gate_output: self.f_gate_output.push(fg),
            i_gate_output: self.i_gate_output.push(ig),
            s_gate_output: self.s_gate_output.push(sg),
            o_gate_output: self.o_gate_output.push(og),
            memory_states: self.memory_states.push(mem_state),
            ..self
        }
    }

    /// The ledger after the errors of one backward step were noted.
    pub open spec fn inject(self, errors: Seq<T>) -> Self {
        LSTMStateView { errors: self.errors.push(errors), ..self }
    }

    /// The ledger after one pair of derivatives was left for the step before.
    pub open spec fn propagate(self, d_hidden: Seq<T>, d_memory: Seq<T>) -> Self {
        LSTMStateView {
            d_prev_hidden: self.d_prev_hidden.push(d_hidden),
            d_prev_memory: self.d_prev_memory.push(d_memory),
            ..self
        }
    }
}

/// Pushing a vector onto a table pushes its value onto the table's value.
pub proof fn lemma_rows_push<T>(before: Vec<Vec<T>>, after: Vec<Vec<T>>, row: Vec<T>)
    requires
        after@ == before@.push(row),
    ensures
        rows(after) == rows(before).push(row@),
{
    assert(rows(after) =~= rows(before).push(row@));
}

/// Whether every vector of `table` has `width` elements.
pub fn rows_of_width<T>(table: &Vec<Vec<T>>, width: usize) -> (ok: bool)
    ensures
        ok == all_of_width(rows(*table), width as nat),
{
    let mut i: usize = 0;
    while i < table.len()
        invariant
            i <= table.len(),
            forall|j: int| 0 <= j < i ==> (#[trigger] rows(*table)[j]).len() == width,
        decreases table.len() - i,
    {
        if table[i].len() != width {
            assert(rows(*table)[i as int].len() != width);
            return false;
        }
        i += 1;
    }
    true
}

impl<T> LSTMState<T> {
    /// Whether the ledger is consistent, and every snapshot and derivative in
    /// it has `width` elements.
    pub fn is_valid(&self, width: usize) -> (ok: bool)
        ensures
            ok == (self@.consistent() && self@.shaped(width as nat)),
    {
        let counted = self.f_gate_output.len() == self.index
            && self.i_gate_output.len() == self.index
            && self.s_gate_output.len() == self.index
            && self.o_gate_output.len() == self.index
            && self.memory_states.len() == self.index;
        counted
            && rows_of_width(&self.f_gate_output, width)
            && rows_of_width(&self.i_gate_output, width)
            && rows_of_width(&self.s_gate_output, width)
            && rows_of_width(&self.o_gate_output, width)
            && rows_of_width(&self.memory_states, width)
            && rows_of_width(&self.d_prev_memory, width)
            && rows_of_width(&self.d_prev_hidden, width)
    }

    /// An empty ledger.
    pub fn new() -> (state: Self)
        ensures
            state@ == LSTMStateView::<T>::empty(),
    {
        let state = LSTMState {
            index: 0,
            f_gate_output: Vec::new(),
            i_gate_output: Vec::new(),
            s_gate_output: Vec::new(),
            o_gate_output: Vec::new(),
            memory_states: Vec::new(),
            errors: Vec::new(),
            d_prev_memory: Vec::new(),
            d_prev_hidden: Vec::new(),
        };
        assert(state@.f_gate_output =~= Seq::empty());
        assert(state@.i_gate_output =~= Seq::empty());
        assert(state@.s_gate_output =~= Seq::empty());
        assert(state@.o_gate_output =~= Seq::empty());
        assert(state@.memory_states =~= Seq::empty());
        assert(state@.errors =~= Seq::empty());
        assert(state@.d_prev_memory =~= Seq::empty());
        assert(state@.d_prev_hidden =~= Seq::empty());
        state
    }

    /// Appends the outputs of the four inner gates and the memory of one
    /// forward step.
    pub fn update_forward(
        &mut self,
        fg: Vec<T>,
        ig: Vec<T>,
        sg: Vec<T>,
        og: Vec<T>,
        mem_state: Vec<T>,
    )
        requires
            old(self)@.consistent(),
        ensures
            final(self)@ == old(self)@.record(fg@, ig@, sg@, og@, mem_state@),
            final(self)@.consistent(),
    {
        let ghost before = *self;
        self.f_gate_output.push(fg);
        self.i_gate_output.push(ig);
        self.s_gate_output.push(sg);
        self.o_gate_output.push(og);
        self.memory_states.push(mem_state);
        proof {
            lemma_rows_push(before.f_gate_output, self.f_gate_output, fg);
            lemma_rows_push(before.i_gate_output, self.i_gate_output, ig);
            lemma_rows_push(before.s_gate_output, self.s_gate_output, sg);
            lemma_rows_push(before.o_gate_output, self.o_gate_output, og);
            lemma_rows_push(before.memory_states, self.memory_states, mem_state);
            assert(self.memory_states.len() == before.index + 1);
        }
        self.index += 1;
    }

    /// Notes the errors that one backward step was given.
    pub fn update_backward(&mut self, errors: Vec<T>)
        ensures
            final(self)@ == old(self)@.inject(errors@),
    {
        let ghost before = *self;
        self.errors.push(errors);
        proof {
            lemma_rows_push(before.errors, self.errors, errors);
        }
    }
}

/// A long short-term memory cell: five sub-layers as gates, and a memory and a
/// hidden vector that travel from one forward step to the next.
#[derive(Debug)]
pub struct LSTM<T, G> {
    pub input_size: u32,
    pub memory_size: u32,
    pub output_size: u32,
    pub memory: Vec<T>,
    pub hidden: Vec<T>,
    pub states: LSTMState<T>,
    pub g_gate: G,
    pub i_gate: G,
    pub f_gate: G,
    pub o_gate: G,
    pub v_gate: G,
}

/// The mathematical value of a cell.
pub struct LSTMView<T, G> {
    pub input_size: u32,
    pub memory_size: u32,
    pub output_size: u32,
    pub memory: Seq<T>,
    pub hidden: Seq<T>,
    pub states: LSTMStateView<T>,
    pub g_gate: G,
    pub i_gate: G,
    pub f_gate: G,
    pub o_gate: G,
    pub v_gate: G,
}

impl<T, G> View for LSTM<T, G> {
    type V = LSTMView<T, G>;

    open spec fn view(&self) -> LSTMView<T, G> {
        LSTMView {
            input_size: self.input_size,
            memory_size: self.memory_size,
            output_size: self.output_size,
            memory: self.memory@,
            hidden: self.hidden@,
            states: self.states@,
            g_gate: self.g_gate,
            i_gate: self.i_gate,
            f_gate: self.f_gate,
            o_gate: self.o_gate,
            v_gate: self.v_gate,
        }
    }
}

/// The gradients of one backward step, each a vector as long as the memory.
pub struct Gradients<T> {
    /// Of the output gate.
    pub d_output: Seq<T>,
    /// Of the memory.
    pub d_memory: Seq<T>,
    /// Of the forget gate.
    pub d_forget: Seq<T>,
    /// Of the input gate.
    pub d_input: Seq<T>,
    /// Of the candidate gate.
    pub d_candidate: Seq<T>,
}

impl<T: Scalar, G: SubLayer<T>> LSTMView<T, G> {
    /// The memory and the hidden vector have `memory_size` elements, the
    /// ledger holds one entry of that size for every forward step, and the
    /// width of a gate's input fits the machine.
    pub open spec fn wf(self) -> bool {
        &&& self.input_size + self.memory_size <= u32::MAX
        &&& self.memory.len() == self.memory_size
        &&& self.hidden.len() == self.memory_size
        &&& self.states.consistent()
        &&& self.states.shaped(self.memory_size as nat)
    }

    /// A cell as it is built: zero memory, zero hidden vector, empty ledger.
    pub open spec fn fresh(
        input_size: u32,
        memory_size: u32,
        output_size: u32,
        g_gate: G,
        i_gate: G,
        f_gate: G,
        o_gate: G,
        v_gate: G,
    ) -> Self {
        LSTMView {
            input_size,
            memory_size,
            output_size,
            memory: zeros::<T>(memory_size as nat),
            hidden: zeros::<T>(memory_size as nat),
            states: LSTMStateView::empty(),
            g_gate,
            i_gate,
            f_gate,
            o_gate,
            v_gate,
        }
    }

    /// One forward step on `inputs`: the cell after it, and its output.
    ///
    /// Nothing happens, and nothing is returned, where `inputs` is not
    /// `input_size` long. Otherwise the forget, input, output and candidate
    /// gates are fed the hidden vector followed by `inputs`, in this order;
    /// the step ends without a result at the first gate that fails, or if one
    /// of the four returns a vector that is not as long as the memory, and the
    /// gates fed so far keep what they recorded. Then the memory becomes
    /// `memory * forget + candidate * input`, the hidden vector becomes
    /// `output * tanh(memory)` of that new memory, the ledger records the
    /// step, and the projection gate maps the hidden vector to the output,
    /// which is returned if it is `output_size` long.
    pub open spec fn forward(self, inputs: Seq<T>) -> (Self, Option<Seq<T>>) {
        if inputs.len() != self.input_size {
            (self, None)
        } else {
            let x = self.hidden + inputs;
            let (f_gate, f) = self.f_gate.forward_spec(x);
            let (i_gate, i) = self.i_gate.forward_spec(x);
            let (o_gate, o) = self.o_gate.forward_spec(x);
            let (g_gate, g) = self.g_gate.forward_spec(x);
            if f is None {
                (LSTMView { f_gate, ..self }, None)
            } else if i is None {
                (LSTMView { f_gate, i_gate, ..self }, None)
            } else if o is None {
                (LSTMView { f_gate, i_gate, o_gate, ..self }, None)
            } else if g is None || f.unwrap().len() != self.memory_size
                || i.unwrap().len() != self.memory_size || o.unwrap().len() != self.memory_size
                || g.unwrap().len() != self.memory_size {
                (LSTMView { f_gate, i_gate, o_gate, g_gate, ..self }, None)
            } else {
                let memory = sums(
                    products(self.memory, f.unwrap()),
                    products(g.unwrap(), i.unwrap()),
                );
                let hidden = products(o.unwrap(), activated(memory, Activation::Tanh));
                let states = self.states.record(
                    f.unwrap(),
                    i.unwrap(),
                    g.unwrap(),
                    o.unwrap(),
                    memory,
                );
                let (v_gate, out) = self.v_gate.forward_spec(hidden);
                (
                    LSTMView { memory, hidden, states, f_gate, i_gate, o_gate, g_gate, v_gate, ..self },
                    if out is Some && out.unwrap().len() == self.output_size {
                        out
                    } else {
                        None
                    },
                )
            }
        }
    }

    /// Whether a forward step on `inputs` gets as far as the ledger: the
    /// input has the right length, and each of the four inner gates returns a
    /// vector as long as the memory.
    pub open spec fn records(self, inputs: Seq<T>) -> bool {
        let x = self.hidden + inputs;
        let f = self.f_gate.forward_spec(x).1;
        let i = self.i_gate.forward_spec(x).1;
        let o = self.o_gate.forward_spec(x).1;
        let g = self.g_gate.forward_spec(x).1;
        &&& inputs.len() == self.input_size
        &&& f is Some && f.unwrap().len() == self.memory_size
        &&& i is Some && i.unwrap().len() == self.memory_size
        &&& o is Some && o.unwrap().len() == self.memory_size
        &&& g is Some && g.unwrap().len() == self.memory_size
    }

    /// The cell with its derivative sequences seeded with zeros, as a
    /// sequence of backward steps starts.
    pub open spec fn seeded(self) -> Self {
        LSTMView {
            states: self.states.propagate(
                zeros::<T>(self.memory_size as nat),
                zeros::<T>(self.memory_size as nat),
            ),
            ..self
        }
    }

    /// The cell after a reset: each gate reset, everything else as built.
    pub open spec fn reset(self) -> Self {
        Self::fresh(
            self.input_size,
            self.memory_size,
            self.output_size,
            self.g_gate.reset_spec(),
            self.i_gate.reset_spec(),
            self.f_gate.reset_spec(),
            self.o_gate.reset_spec(),
            self.v_gate.reset_spec(),
        )
    }

    /// The cell after each of its gates was told to keep traces.
    pub open spec fn add_tracer(self) -> Self {
        LSTMView {
            g_gate: self.g_gate.add_tracer_spec(),
            i_gate: self.i_gate.add_tracer_spec(),
            f_gate: self.f_gate.add_tracer_spec(),
            o_gate: self.o_gate.add_tracer_spec(),
            v_gate: self.v_gate.add_tracer_spec(),
            ..self
        }
    }

    /// The cell after each of its gates was told to drop its traces.
    pub open spec fn remove_tracer(self) -> Self {
        LSTMView {
            g_gate: self.g_gate.remove_tracer_spec(),
            i_gate: self.i_gate.remove_tracer_spec(),
            f_gate: self.f_gate.remove_tracer_spec(),
            o_gate: self.o_gate.remove_tracer_spec(),
            v_gate: self.v_gate.remove_tracer_spec(),
            ..self
        }
    }

    /// The cell after each of its gates was pointed at forward step `index`.
    pub open spec fn set_trace_index(self, index: usize) -> Self {
        LSTMView {
            g_gate: self.g_gate.set_trace_index_spec(index),
            i_gate: self.i_gate.set_trace_index_spec(index),
            f_gate: self.f_gate.set_trace_index_spec(index),
            o_gate: self.o_gate.set_trace_index_spec(index),
            v_gate: self.v_gate.set_trace_index_spec(index),
            ..self
        }
    }

    /// Breeding a cell from `child` and `parent_two` can fail: the crossover
    /// of the gates at one place can return nothing.
    pub open spec fn crossover_failed(
        child: Self,
        parent_two: Self,
        env: &G::Environment,
        crossover_rate: T,
    ) -> bool {
        ||| G::crossover_spec(&child.g_gate, &parent_two.g_gate, env, crossover_rate, None)
        ||| G::crossover_spec(&child.i_gate, &parent_two.i_gate, env, crossover_rate, None)
        ||| G::crossover_spec(&child.f_gate, &parent_two.f_gate, env, crossover_rate, None)
        ||| G::crossover_spec(&child.o_gate, &parent_two.o_gate, env, crossover_rate, None)
        ||| G::crossover_spec(&child.v_gate, &parent_two.v_gate, env, crossover_rate, None)
    }

    /// The structural distance between two cells under `env`: the distances
    /// between their candidate, input, forget, output and projection gates,
    /// added in this order to zero.
    pub open spec fn distance(one: Self, two: Self, env: &G::Environment) -> T {
        T::zero_spec().plus_spec(G::distance_spec(&one.g_gate, &two.g_gate, env)).plus_spec(
            G::distance_spec(&one.i_gate, &two.i_gate, env),
        ).plus_spec(G::distance_spec(&one.f_gate, &two.f_gate, env)).plus_spec(
            G::distance_spec(&one.o_gate, &two.o_gate, env),
        ).plus_spec(G::distance_spec(&one.v_gate, &two.v_gate, env))
    }

    /// The cell after one forward step on each of `inputs`, in order.
    pub open spec fn run(self, inputs: Seq<Seq<T>>) -> Self
        decreases inputs.len(),
    {
        if inputs.len() == 0 {
            self
        } else {
            self.run(inputs.drop_last()).forward(inputs.last()).0
        }
    }

    /// What one forward step on each of `inputs`, in order, returns.
    pub open spec fn outputs(self, inputs: Seq<Seq<T>>) -> Seq<Option<Seq<T>>> {
        Seq::new(inputs.len(), |k: int| self.run(inputs.take(k)).forward(inputs[k]).1)
    }

    /// Whether each forward step on `inputs`, in order, gets as far as the
    /// ledger.
    pub open spec fn all_record(self, inputs: Seq<Seq<T>>) -> bool {
        forall|k: int|
            0 <= k < inputs.len() ==> #[trigger] self.run(inputs.take(k)).records(inputs[k])
    }

    /// Two cells have the same sizes, the same gates, the same memory and the
    /// same hidden vector. Their ledgers may differ.
    pub open spec fn same_weights_and_state(self, other: Self) -> bool {
        &&& self.input_size == other.input_size
        &&& self.memory_size == other.memory_size
        &&& self.output_size == other.output_size
        &&& self.memory == other.memory
        &&& self.hidden == other.hidden
        &&& self.g_gate == other.g_gate
        &&& self.i_gate == other.i_gate
        &&& self.f_gate == other.f_gate
        &&& self.o_gate == other.o_gate
        &&& self.v_gate == other.v_gate
    }

    /// Resetting a gate of this cell a second time changes nothing.
    pub open spec fn gates_reset_once(self) -> bool {
        &&& self.g_gate.reset_spec().reset_spec() == self.g_gate.reset_spec()
        &&& self.i_gate.reset_spec().reset_spec() == self.i_gate.reset_spec()
        &&& self.f_gate.reset_spec().reset_spec() == self.f_gate.reset_spec()
        &&& self.o_gate.reset_spec().reset_spec() == self.o_gate.reset_spec()
        &&& self.v_gate.reset_spec().reset_spec() == self.v_gate.reset_spec()
    }

    /// The ledger has nothing for a backward step at forward step `index`:
    /// no such step was taken, or no derivative was left to start from.
    pub open spec fn missing_history(self, index: nat) -> bool {
        ||| index >= self.states.index
        ||| self.states.d_prev_hidden.len() == 0
        ||| self.states.d_prev_memory.len() == 0
    }

    /// The gradients at forward step `index`, given the error `dh` of the
    /// hidden vector of that step.
    pub open spec fn gradients(self, dh: Seq<T>, index: int) -> Gradients<T> {
        let memory = self.states.memory_states[index];
        let forget = self.states.f_gate_output[index];
        let input = self.states.i_gate_output[index];
        let candidate = self.states.s_gate_output[index];
        let output = self.states.o_gate_output[index];
        let d_output = products(
            products(activated(memory, Activation::Tanh), dh),
            deactivated(output, self.o_gate.activation_spec()),
        );
        let d_memory = sums(
            products(products(output, dh), deactivated(memory, Activation::Tanh)),
            self.states.d_prev_memory.last(),
        );
        let d_forget = products(
            products(memory, d_memory),
            deactivated(forget, self.f_gate.activation_spec()),
        );
        let d_input = products(
            products(candidate, d_memory),
            deactivated(input, self.i_gate.activation_spec()),
        );
        let d_candidate = products(
            products(input, d_memory),
            deactivated(candidate, self.g_gate.activation_spec()),
        );
        Gradients { d_output, d_memory, d_forget, d_input, d_candidate }
    }

    /// One backward step at forward step `index`: the cell after it, and the
    /// error of the input of that step.
    ///
    /// Nothing happens, and nothing is returned, where `errors` is not as long
    /// as the output or the ledger has no history for `index`. Otherwise the
    /// projection gate takes `errors` back, then the forget, input, candidate
    /// and output gates take their gradients back, in this order; the step
    /// ends without a result at the first gate that fails or returns a vector
    /// of the wrong length, and the gates called so far keep what they learnt.
    pub open spec fn step_back(self, errors: Seq<T>, rate: T, index: nat) -> (Self, Option<Seq<T>>) {
        if errors.len() != self.output_size || self.missing_history(index) {
            (self, None)
        } else {
            let (v_gate, dh) = self.v_gate.backward_spec(errors, rate);
            if dh is None || dh.unwrap().len() != self.memory_size {
                (LSTMView { v_gate, ..self }, None)
            } else {
                let dh = products(dh.unwrap(), self.states.d_prev_hidden.last());
                let d = self.gradients(dh, index as int);
                let (f_gate, f_error) = self.f_gate.backward_spec(d.d_forget, rate);
                let (i_gate, i_error) = self.i_gate.backward_spec(d.d_input, rate);
                let (g_gate, g_error) = self.g_gate.backward_spec(d.d_candidate, rate);
                let (o_gate, o_error) = self.o_gate.backward_spec(d.d_output, rate);
                let width = self.input_size + self.memory_size;
                if f_error is None {
                    (LSTMView { v_gate, f_gate, ..self }, None)
                } else if i_error is None {
                    (LSTMView { v_gate, f_gate, i_gate, ..self }, None)
                } else if g_error is None {
                    (LSTMView { v_gate, f_gate, i_gate, g_gate, ..self }, None)
                } else if o_error is None || f_error.unwrap().len() != width
                    || i_error.unwrap().len() != width || g_error.unwrap().len() != width
                    || o_error.unwrap().len() != width {
                    (LSTMView { v_gate, f_gate, i_gate, g_gate, o_gate, ..self }, None)
                } else {
                    let dx = sums(
                        sums(
                            sums(sums(zeros::<T>(width as nat), f_error.unwrap()), i_error.unwrap()),
                            g_error.unwrap(),
                        ),
                        o_error.unwrap(),
                    );
                    let states = self.states.propagate(
                        dx.subrange(0, self.memory_size as int),
                        products(self.states.f_gate_output[index as int], d.d_memory),
                    );
                    (
                        LSTMView { states, v_gate, f_gate, i_gate, g_gate, o_gate, ..self },
                        Some(dx.subrange(self.memory_size as int, width)),
                    )
                }
            }
        }
    }
}

impl<T: Scalar, G: SubLayer<T>> LSTM<T, G> {
    /// A cell from `input_size` values to `output_size` values with a memory
    /// of `memory_size` values. The candidate gate is built with `Tanh`, the
    /// input, forget, output and projection gates with `Sigmoid`.
    pub fn new(input_size: u32, memory_size: u32, output_size: u32) -> (cell: Self)
        requires
            input_size + memory_size <= u32::MAX,
        ensures
            cell@.wf(),
            cell@ == LSTMView::<T, G>::fresh(
                input_size,
                memory_size,
                output_size,
                cell.g_gate,
                cell.i_gate,
                cell.f_gate,
                cell.o_gate,
                cell.v_gate,
            ),
            G::create_spec((input_size + memory_size) as u32, memory_size, Activation::Tanh, cell.g_gate),
            G::create_spec((input_size + memory_size) as u32, memory_size, Activation::Sigmoid, cell.i_gate),
            G::create_spec((input_size + memory_size) as u32, memory_size, Activation::Sigmoid, cell.f_gate),
            G::create_spec((input_size + memory_size) as u32, memory_size, Activation::Sigmoid, cell.o_gate),
            G::create_spec(memory_size, output_size, Activation::Sigmoid, cell.v_gate),
    {
        let cell_input = input_size + memory_size;
        LSTM {
            input_size,
            memory_size,
            output_size,
            memory: zero_vector(memory_size as usize),
            hidden: zero_vector(memory_size as usize),
            states: LSTMState::new(),
            g_gate: G::create(cell_input, memory_size, Activation::Tanh),
            i_gate: G::create(cell_input, memory_size, Activation::Sigmoid),
            f_gate: G::create(cell_input, memory_size, Activation::Sigmoid),
            o_gate: G::create(cell_input, memory_size, Activation::Sigmoid),
            v_gate: G::create(memory_size, output_size, Activation::Sigmoid),
        }
    }

    /// Feeds `inputs` and the hidden vector of the step before through the
    /// gates, updates the memory and the hidden vector, records the step in
    /// the ledger and returns the projection of the new hidden vector.
    pub fn forward(&mut self, inputs: &Vec<T>) -> (out: Option<Vec<T>>)
        requires
            old(self)@.wf(),
        ensures
            final(self)@.wf(),
            (final(self)@, seq_of(out)) == old(self)@.forward(inputs@),
            out matches Some(v) ==> v.len() == old(self).output_size,
            final(self).states.index == old(self).states.index + (if old(self)@.records(inputs@) {
                1nat
            } else {
                0nat
            }),
    {
        if inputs.len() != self.input_size as usize {
            return None;
        }
        let memory_size = self.memory_size as usize;
        let hidden_input = join(&self.hidden, inputs);

        let f_output = match self.f_gate.forward(&hidden_input) {
            Some(output) => output,
            None => {
                return None;
            },
        };
        let i_output = match self.i_gate.forward(&hidden_input) {
            Some(output) => output,
            None => {
                return None;
            },
        };
        let o_output = match self.o_gate.forward(&hidden_input) {
            Some(output) => output,
            None => {
                return None;
            },
        };
        let g_output = match self.g_gate.forward(&hidden_input) {
            Some(output) => output,
            None => {
                return None;
            },
        };
        if f_output.len() != memory_size || i_output.len() != memory_size
            || o_output.len() != memory_size || g_output.len() != memory_size {
            return None;
        }
        let mut current_state = duplicate(&g_output);
        let mut current_output = duplicate(&o_output);

        element_multiply(&mut self.memory, &f_output);
        element_multiply(&mut current_state, &i_output);
        element_add(&mut self.memory, &current_state);
        let squashed = element_activate(&self.memory, Activation::Tanh);
        element_multiply(&mut current_output, &squashed);

        let snapshot = duplicate(&self.memory);
        self.states.update_forward(f_output, i_output, g_output, o_output, snapshot);

        self.hidden = current_output;
        match self.v_gate.forward(&self.hidden) {
            Some(output) => {
                if output.len() == self.output_size as usize {
                    Some(output)
                } else {
                    None
                }
            },
            None => None,
        }
    }

    /// Starts a sequence of backward steps: seeds the derivatives of the
    /// memory and of the hidden vector with zeros, then steps back at the
    /// ledger's `index`. That index counts the forward steps taken, so the
    /// ledger has no entry at it and the step reports that nothing is there.
    pub fn backward(&mut self, errors: &Vec<T>, learning_rate: T) -> (out: Option<Vec<T>>)
        requires
            old(self)@.wf(),
        ensures
            final(self)@.wf(),
            final(self)@ == old(self)@.seeded(),
            out is None,
    {
        let ghost ledger = self.states;
        let seed_memory = zero_vector::<T>(self.memory_size as usize);
        let seed_hidden = zero_vector::<T>(self.memory_size as usize);
        self.states.d_prev_memory.push(seed_memory);
        self.states.d_prev_hidden.push(seed_hidden);
        proof {
            lemma_rows_push(ledger.d_prev_memory, self.states.d_prev_memory, seed_memory);
            lemma_rows_push(ledger.d_prev_hidden, self.states.d_prev_hidden, seed_hidden);
        }
        let index = self.states.index;
        self.step_back(errors, learning_rate, index)
    }

    /// Resets each gate, empties the ledger and zeroes the memory and the
    /// hidden vector. The gates keep their weights.
    pub fn reset(&mut self)
        ensures
            final(self)@ == old(self)@.reset(),
            old(self).input_size + old(self).memory_size <= u32::MAX ==> final(self)@.wf(),
    {
        self.g_gate.reset();
        self.i_gate.reset();
        self.f_gate.reset();
        self.o_gate.reset();
        self.v_gate.reset();
        self.states = LSTMState::new();
        self.memory = zero_vector(self.memory_size as usize);
        self.hidden = zero_vector(self.memory_size as usize);
    }

    /// Whether the cell is well formed. A cell that was built by this
    /// library and changed only through it is; one whose fields were written
    /// to directly may not be.
    pub fn is_valid(&self) -> (ok: bool)
        ensures
            ok == self@.wf(),
    {
        let width = self.memory_size as usize;
        self.input_size <= u32::MAX - self.memory_size && self.memory.len() == width
            && self.hidden.len() == width && self.states.is_valid(width)
    }

    /// Tells each gate to keep traces for backward steps.
    pub fn add_tracer(&mut self)
        ensures
            final(self)@ == old(self)@.add_tracer(),
    {
        self.g_gate.add_tracer();
        self.i_gate.add_tracer();
        self.f_gate.add_tracer();
        self.o_gate.add_tracer();
        self.v_gate.add_tracer();
    }

    /// Tells each gate to drop its traces.
    pub fn remove_tracer(&mut self)
        ensures
            final(self)@ == old(self)@.remove_tracer(),
    {
        self.g_gate.remove_tracer();
        self.i_gate.remove_tracer();
        self.f_gate.remove_tracer();
        self.o_gate.remove_tracer();
        self.v_gate.remove_tracer();
    }

    /// Points each gate at the forward step that its next backward step
    /// unwinds. The ledger is left alone: its `index` counts the forward
    /// steps taken, and `step_back` is told which one to unwind.
    pub fn set_trace_index(&mut self, index: usize)
        ensures
            final(self)@ == old(self)@.set_trace_index(index),
    {
        self.g_gate.set_trace_index(index);
        self.i_gate.set_trace_index(index);
        self.f_gate.set_trace_index(index);
        self.o_gate.set_trace_index(index);
        self.v_gate.set_trace_index(index);
    }

    /// The length of the input that the cell takes and of the output that it
    /// gives.
    pub fn shape(&self) -> (shape: (usize, usize))
        ensures
            shape == (self.input_size as usize, self.output_size as usize),
    {
        (self.input_size as usize, self.output_size as usize)
    }

    /// Breeds a cell from two: each gate of the result is bred from the gates
    /// of `child` and `parent_two` at its place, in the order candidate,
    /// input, forget, output, projection, and the first gate that cannot be
    /// bred ends the attempt. The result has the sizes of `child`, and is as
    /// new: zero memory, zero hidden vector, empty ledger.
    pub fn crossover(
        child: &LSTM<T, G>,
        parent_two: &LSTM<T, G>,
        env: &G::Environment,
        crossover_rate: T,
    ) -> (outcome: Option<LSTM<T, G>>)
        ensures
            match outcome {
                Some(cell) => {
                    &&& cell@ == LSTMView::<T, G>::fresh(
                        child.input_size,
                        child.memory_size,
                        child.output_size,
                        cell.g_gate,
                        cell.i_gate,
                        cell.f_gate,
                        cell.o_gate,
                        cell.v_gate,
                    )
                    &&& child@.wf() ==> cell@.wf()
                    &&& G::crossover_spec(
                        &child.g_gate,
                        &parent_two.g_gate,
                        env,
                        crossover_rate,
                        Some(cell.g_gate),
                    )
                    &&& G::crossover_spec(
                        &child.i_gate,
                        &parent_two.i_gate,
                        env,
                        crossover_rate,
                        Some(cell.i_gate),
                    )
                    &&& G::crossover_spec(
                        &child.f_gate,
                        &parent_two.f_gate,
                        env,
                        crossover_rate,
                        Some(cell.f_gate),
                    )
                    &&& G::crossover_spec(
                        &child.o_gate,
                        &parent_two.o_gate,
                        env,
                        crossover_rate,
                        Some(cell.o_gate),
                    )
                    &&& G::crossover_spec(
                        &child.v_gate,
                        &parent_two.v_gate,
                        env,
                        crossover_rate,
                        Some(cell.v_gate),
                    )
                },
                None => LSTMView::crossover_failed(child@, parent_two@, env, crossover_rate),
            },
    {
        let g_gate = match G::crossover(&child.g_gate, &parent_two.g_gate, env, crossover_rate) {
            Some(gate) => gate,
            None => {
                return None;
            },
        };
        let i_gate = match G::crossover(&child.i_gate, &parent_two.i_gate, env, crossover_rate) {
            Some(gate) => gate,
            None => {
                return None;
            },
        };
        let f_gate = match G::crossover(&child.f_gate, &parent_two.f_gate, env, crossover_rate) {
            Some(gate) => gate,
            None => {
                return None;
            },
        };
        let o_gate = match G::crossover(&child.o_gate, &parent_two.o_gate, env, crossover_rate) {
            Some(gate) => gate,
            None => {
                return None;
            },
        };
        let v_gate = match G::crossover(&child.v_gate, &parent_two.v_gate, env, crossover_rate) {
            Some(gate) => gate,
            None => {
                return None;
            },
        };
        Some(
            LSTM {
                input_size: child.input_size,
                memory_size: child.memory_size,
                output_size: child.output_size,
                memory: zero_vector(child.memory_size as usize),
                hidden: zero_vector(child.memory_size as usize),
                states: LSTMState::new(),
                g_gate,
                i_gate,
                f_gate,
                o_gate,
                v_gate,
            },
        )
    }

    /// The structural distance between two cells: the sum of the distances
    /// between their gates.
    pub fn distance(one: &LSTM<T, G>, two: &LSTM<T, G>, env: &G::Environment) -> (result: T)
        ensures
            result == LSTMView::distance(one@, two@, env),
    {
        let mut result = T::zero();
        result = result.plus(G::distance(&one.g_gate, &two.g_gate, env));
        result = result.plus(G::distance(&one.i_gate, &two.i_gate, env));
        result = result.plus(G::distance(&one.f_gate, &two.f_gate, env));
        result = result.plus(G::distance(&one.o_gate, &two.o_gate, env));
        result = result.plus(G::distance(&one.v_gate, &two.v_gate, env));
        result
    }

    /// Takes one step backwards, at forward step `index`: computes the
    /// gradient of each gate from the ledger's entry for that step, lets each
    /// gate learn from its gradient at `l_rate`, leaves the derivatives of the
    /// hidden vector and of the memory for the step before, and returns the
    /// error of the input that the cell was given at that step.
    pub fn step_back(&mut self, errors: &Vec<T>, l_rate: T, index: usize) -> (out: Option<Vec<T>>)
        requires
            old(self)@.wf(),
        ensures
            final(self)@.wf(),
            (final(self)@, seq_of(out)) == old(self)@.step_back(errors@, l_rate, index as nat),
            index >= old(self).states.index ==> out is None && final(self)@ == old(self)@,
            out matches Some(v) ==> v.len() == old(self).input_size,
    {
        let hidden_count = self.states.d_prev_hidden.len();
        let memory_count = self.states.d_prev_memory.len();
        if errors.len() != self.output_size as usize || index >= self.states.index
            || hidden_count == 0 || memory_count == 0 {
            return None;
        }
        let memory_size = self.memory_size as usize;
        let width = (self.input_size + self.memory_size) as usize;

        let mut dh = match self.v_gate.backward(errors, l_rate) {
            Some(dh) => dh,
            None => {
                return None;
            },
        };
        if dh.len() != memory_size {
            return None;
        }
        element_multiply(&mut dh, &self.states.d_prev_hidden[hidden_count - 1]);

        let mut dho = element_activate(&self.states.memory_states[index], Activation::Tanh);
        element_multiply(&mut dho, &dh);
        let o_slope = element_deactivate(&self.states.o_gate_output[index], self.o_gate.activation());
        element_multiply(&mut dho, &o_slope);

        let mut dc = product(&self.states.o_gate_output[index], &dh);
        let c_slope = element_deactivate(&self.states.memory_states[index], Activation::Tanh);
        element_multiply(&mut dc, &c_slope);
        element_add(&mut dc, &self.states.d_prev_memory[memory_count - 1]);

        let mut dhf = product(&self.states.memory_states[index], &dc);
        let f_slope = element_deactivate(&self.states.f_gate_output[index], self.f_gate.activation());
        element_multiply(&mut dhf, &f_slope);

        let mut dhi = product(&self.states.s_gate_output[index], &dc);
        let i_slope = element_deactivate(&self.states.i_gate_output[index], self.i_gate.activation());
        element_multiply(&mut dhi, &i_slope);

        let mut dhc = product(&self.states.i_gate_output[index], &dc);
        let g_slope = element_deactivate(&self.states.s_gate_output[index], self.g_gate.activation());
        element_multiply(&mut dhc, &g_slope);

        let f_error = match self.f_gate.backward(&dhf, l_rate) {
            Some(error) => error,
            None => {
                return None;
            },
        };
        let i_error = match self.i_gate.backward(&dhi, l_rate) {
            Some(error) => error,
            None => {
                return None;
            },
        };
        let g_error = match self.g_gate.backward(&dhc, l_rate) {
            Some(error) => error,
            None => {
                return None;
            },
        };
        let o_error = match self.o_gate.backward(&dho, l_rate) {
            Some(error) => error,
            None => {
                return None;
            },
        };
        if f_error.len() != width || i_error.len() != width || g_error.len() != width
            || o_error.len() != width {
            return None;
        }
        let mut dx = zero_vector::<T>(width);
        element_add(&mut dx, &f_error);
        element_add(&mut dx, &i_error);
        element_add(&mut dx, &g_error);
        element_add(&mut dx, &o_error);

        let dh_next = slice(&dx, 0, memory_size);
        let dc_next = product(&self.states.f_gate_output[index], &dc);
        let ghost ledger = self.states;
        self.states.d_prev_hidden.push(dh_next);
        self.states.d_prev_memory.push(dc_next);
        proof {
            lemma_rows_push(ledger.d_prev_hidden, self.states.d_prev_hidden, dh_next);
            lemma_rows_push(ledger.d_prev_memory, self.states.d_prev_memory, dc_next);
        }
        Some(slice(&dx, memory_size, width))
    }
}

impl<T: Scalar, G: SubLayer<T> + Clone> Clone for LSTM<T, G> {
    /// A cell with the same sizes and a clone of each gate, and as new
    /// otherwise: zero memory, zero hidden vector, empty ledger. What the cell
    /// has been through is never copied.
    fn clone(&self) -> (cell: Self)
        ensures
            cell@ == LSTMView::<T, G>::fresh(
                self.input_size,
                self.memory_size,
                self.output_size,
                cell.g_gate,
                cell.i_gate,
                cell.f_gate,
                cell.o_gate,
                cell.v_gate,
            ),
            self@.wf() ==> cell@.wf(),
            cloned(self.g_gate, cell.g_gate),
            cloned(self.i_gate, cell.i_gate),
            cloned(self.f_gate, cell.f_gate),
            cloned(self.o_gate, cell.o_gate),
            cloned(self.v_gate, cell.v_gate),
    {
        LSTM {
            input_size: self.input_size,
            memory_size: self.memory_size,
            output_size: self.output_size,
            memory: zero_vector(self.memory_size as usize),
            hidden: zero_vector(self.memory_size as usize),
            states: LSTMState::new(),
            g_gate: self.g_gate.clone(),
            i_gate: self.i_gate.clone(),
            f_gate: self.f_gate.clone(),
            o_gate: self.o_gate.clone(),
            v_gate: self.v_gate.clone(),
        }
    }
}

/// A forward step keeps a cell well formed, whatever its gates return; it
/// adds one entry to the ledger if it gets that far, and none otherwise.
pub proof fn lemma_forward_keeps_wf<T: Scalar, G: SubLayer<T>>(cell: LSTMView<T, G>, inputs: Seq<T>)
    requires
        cell.wf(),
    ensures
        cell.forward(inputs).0.wf(),
        cell.forward(inputs).0.input_size == cell.input_size,
        cell.forward(inputs).0.memory_size == cell.memory_size,
        cell.forward(inputs).0.output_size == cell.output_size,
        cell.forward(inputs).1 matches Some(out) ==> out.len() == cell.output_size,
        cell.forward(inputs).0.states.index == cell.states.index + (if cell.records(inputs) {
            1nat
        } else {
            0nat
        }),
{
}

/// A backward step keeps a cell well formed and leaves its sizes, its memory,
/// its hidden vector and the forward part of its ledger alone. At an index
/// that no forward step has reached, and wherever else history is missing,
/// it changes nothing and returns nothing; what it returns has `input_size`
/// elements, whatever the memory's size; and where it returns something it
/// has left one more derivative of the hidden vector and one more of the
/// memory.
pub proof fn lemma_step_back_bounds<T: Scalar, G: SubLayer<T>>(
    cell: LSTMView<T, G>,
    errors: Seq<T>,
    rate: T,
    index: nat,
)
    requires
        cell.wf(),
    ensures
        cell.step_back(errors, rate, index).0.wf(),
        cell.step_back(errors, rate, index).0.input_size == cell.input_size,
        cell.step_back(errors, rate, index).0.memory_size == cell.memory_size,
        cell.step_back(errors, rate, index).0.output_size == cell.output_size,
        cell.step_back(errors, rate, index).0.memory == cell.memory,
        cell.step_back(errors, rate, index).0.hidden == cell.hidden,
        cell.step_back(errors, rate, index).0.states.index == cell.states.index,
        cell.step_back(errors, rate, index).0.states.memory_states == cell.states.memory_states,
        index >= cell.states.index || cell.states.index == 0 || cell.missing_history(index)
            ==> cell.step_back(errors, rate, index) == (cell, None::<Seq<T>>),
        cell.step_back(errors, rate, index).1 matches Some(dx) ==> {
            &&& dx.len() == cell.input_size
            &&& cell.step_back(errors, rate, index).0.states.d_prev_hidden.len()
                == cell.states.d_prev_hidden.len() + 1
            &&& cell.step_back(errors, rate, index).0.states.d_prev_memory.len()
                == cell.states.d_prev_memory.len() + 1
        },
{
}

/// After any number of forward steps the memory and the hidden vector of a
/// cell still have `memory_size` elements, and the ledger has grown by at
/// most one entry for each step: by exactly one for each, so that `index` and
/// the length of each of the five sequences have grown by the number of
/// steps, where every step got as far as the ledger.
pub proof fn lemma_ledger_counts_steps<T: Scalar, G: SubLayer<T>>(
    cell: LSTMView<T, G>,
    inputs: Seq<Seq<T>>,
)
    requires
        cell.wf(),
    ensures
        cell.run(inputs).wf(),
        cell.run(inputs).memory.len() == cell.memory_size,
        cell.run(inputs).hidden.len() == cell.memory_size,
        cell.run(inputs).states.index <= cell.states.index + inputs.len(),
        cell.all_record(inputs) ==> {
            let ledger = cell.run(inputs).states;
            &&& ledger.index == cell.states.index + inputs.len()
            &&& ledger.f_gate_output.len() == cell.states.index + inputs.len()
            &&& ledger.i_gate_output.len() == cell.states.index + inputs.len()
            &&& ledger.s_gate_output.len() == cell.states.index + inputs.len()
            &&& ledger.o_gate_output.len() == cell.states.index + inputs.len()
            &&& ledger.memory_states.len() == cell.states.index + inputs.len()
        },
    decreases inputs.len(),
{
    if inputs.len() > 0 {
        let earlier = inputs.drop_last();
        lemma_ledger_counts_steps(cell, earlier);
        let before = cell.run(earlier);
        lemma_forward_keeps_wf(before, inputs.last());
        assert(before.memory_size == cell.memory_size);
        if cell.all_record(inputs) {
            assert forall|k: int| 0 <= k < earlier.len() implies #[trigger] cell.run(
                earlier.take(k),
            ).records(earlier[k]) by {
                assert(earlier.take(k) == inputs.take(k));
                assert(cell.run(inputs.take(k)).records(inputs[k]));
            }
            assert(inputs.take(inputs.len() - 1) == earlier);
            assert(cell.run(inputs.take(inputs.len() - 1)).records(inputs[inputs.len() - 1]));
        }
    }
}

/// Resetting twice is resetting once: after a second reset the sizes, the
/// memory, the hidden vector and the ledger are what the first reset left,
/// zero vectors and an empty ledger, and each gate has been reset twice.
/// So where a second reset changes none of the gates, it changes nothing.
pub proof fn lemma_reset_idempotent<T: Scalar, G: SubLayer<T>>(cell: LSTMView<T, G>)
    ensures
        cell.reset().memory == zeros::<T>(cell.memory_size as nat),
        cell.reset().hidden == zeros::<T>(cell.memory_size as nat),
        cell.reset().states == LSTMStateView::<T>::empty(),
        cell.reset().states.index == 0,
        cell.reset().reset().memory == cell.reset().memory,
        cell.reset().reset().hidden == cell.reset().hidden,
        cell.reset().reset().states == cell.reset().states,
        cell.gates_reset_once() ==> cell.reset().reset() == cell.reset(),
{
}

/// A forward step on two cells with the same sizes, gates, memory and hidden
/// vector returns the same output and leaves them so.
pub proof fn lemma_forward_step_deterministic<T: Scalar, G: SubLayer<T>>(
    one: LSTMView<T, G>,
    two: LSTMView<T, G>,
    inputs: Seq<T>,
)
    requires
        one.same_weights_and_state(two),
    ensures
        one.forward(inputs).1 == two.forward(inputs).1,
        one.forward(inputs).0.same_weights_and_state(two.forward(inputs).0),
{
}

/// Two cells with the same sizes, gates, memory and hidden vector, fed the
/// same sequence of inputs, return the same sequence of outputs, whatever
/// their ledgers hold.
pub proof fn lemma_forward_deterministic<T: Scalar, G: SubLayer<T>>(
    one: LSTMView<T, G>,
    two: LSTMView<T, G>,
    inputs: Seq<Seq<T>>,
)
    requires
        one.same_weights_and_state(two),
    ensures
        one.run(inputs).same_weights_and_state(two.run(inputs)),
        one.outputs(inputs) == two.outputs(inputs),
    decreases inputs.len(),
{
    if inputs.len() > 0 {
        lemma_forward_deterministic(one, two, inputs.drop_last());
        lemma_forward_step_deterministic(
            one.run(inputs.drop_last()),
            two.run(inputs.drop_last()),
            inputs.last(),
        );
    }
    assert forall|k: int| 0 <= k < inputs.len() implies one.outputs(inputs)[k] == two.outputs(
        inputs,
    )[k] by {
        lemma_forward_deterministic(one, two, inputs.take(k));
        lemma_forward_step_deterministic(
            one.run(inputs.take(k)),
            two.run(inputs.take(k)),
            inputs[k],
        );
    }
    assert(one.outputs(inputs) =~= two.outputs(inputs));
}

} // verus!
