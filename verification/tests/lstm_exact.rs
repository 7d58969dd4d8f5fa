use radiate::{Activation, LSTMState, Scalar, Signal, SubLayer, LSTM};

/// Whole numbers with made-up activation functions, so that every expected
/// value can be worked out by hand: `Tanh` adds one and has the derivative
/// `2 * y`, `Sigmoid` adds a hundred and has the derivative `3 * y`.
#[derive(Clone, Copy, Debug, PartialEq)]
struct Whole(i64);

impl Scalar for Whole {
    fn zero_spec() -> Self {
        unreachable!()
    }

    fn plus_spec(self, _other: Self) -> Self {
        unreachable!()
    }

    fn times_spec(self, _other: Self) -> Self {
        unreachable!()
    }

    fn activate_spec(self, _function: Activation) -> Self {
        unreachable!()
    }

    fn deactivate_spec(self, _function: Activation) -> Self {
        unreachable!()
    }

    fn zero() -> Self {
        Whole(0)
    }

    fn plus(self, other: Self) -> Self {
        Whole(self.0 + other.0)
    }

    fn times(self, other: Self) -> Self {
        Whole(self.0 * other.0)
    }

    fn activate(self, function: Activation) -> Self {
        match function {
            Activation::Sigmoid => Whole(self.0 + 100),
            Activation::Tanh => Whole(self.0 + 1),
        }
    }

    fn deactivate(self, function: Activation) -> Self {
        match function {
            Activation::Sigmoid => Whole(self.0 * 3),
            Activation::Tanh => Whole(self.0 * 2),
        }
    }
}

/// A sub-layer whose answers are easy to predict. With `s` the sum of
/// `(k + 1) * x[k]` over its argument, `forward` returns `weight * s + j` at
/// each place `j` of its output, and `backward` the same at each place of its
/// input, after which `rate` is added to the weight.
#[derive(Clone, Debug, PartialEq)]
struct Probe {
    inputs: u32,
    outputs: u32,
    activation: Activation,
    weight: i64,
    forwards: usize,
    backwards: usize,
    resets: usize,
    tracing: bool,
    trace_index: usize,
    fail_forward: bool,
    fail_backward: bool,
    fail_crossover: bool,
    extra: usize,
}

fn weighted_sum(values: &Vec<Whole>) -> i64 {
    let mut sum = 0;
    for (k, value) in values.iter().enumerate() {
        sum += (k as i64 + 1) * value.0;
    }
    sum
}

impl SubLayer<Whole> for Probe {
    type Environment = i64;

    fn create_spec(_inputs: u32, _outputs: u32, _activation: Activation, _layer: Self) -> bool {
        unreachable!()
    }

    fn activation_spec(&self) -> Activation {
        unreachable!()
    }

    fn forward_spec(&self, _inputs: Signal<Whole>) -> (Self, Option<Signal<Whole>>) {
        unreachable!()
    }

    fn backward_spec(&self, _errors: Signal<Whole>, _rate: Whole) -> (Self, Option<Signal<Whole>>) {
        unreachable!()
    }

    fn reset_spec(&self) -> Self {
        unreachable!()
    }

    fn add_tracer_spec(&self) -> Self {
        unreachable!()
    }

    fn remove_tracer_spec(&self) -> Self {
        unreachable!()
    }

    fn set_trace_index_spec(&self, _index: usize) -> Self {
        unreachable!()
    }

    fn crossover_spec(
        _child: &Self,
        _parent_two: &Self,
        _env: &i64,
        _crossover_rate: Whole,
        _outcome: Option<Self>,
    ) -> bool {
        unreachable!()
    }

    fn distance_spec(_one: &Self, _two: &Self, _env: &i64) -> Whole {
        unreachable!()
    }

    fn create(inputs: u32, outputs: u32, activation: Activation) -> Self {
        Probe {
            inputs,
            outputs,
            activation,
            weight: 1,
            forwards: 0,
            backwards: 0,
            resets: 0,
            tracing: false,
            trace_index: 0,
            fail_forward: false,
            fail_backward: false,
            fail_crossover: false,
            extra: 0,
        }
    }

    fn activation(&self) -> Activation {
        self.activation
    }

    fn forward(&mut self, inputs: &Vec<Whole>) -> Option<Vec<Whole>> {
        self.forwards += 1;
        if self.fail_forward {
            return None;
        }
        let s = weighted_sum(inputs);
        let length = self.outputs as usize + self.extra;
        Some((0..length).map(|j| Whole(self.weight * s + j as i64)).collect())
    }

    fn backward(&mut self, errors: &Vec<Whole>, rate: Whole) -> Option<Vec<Whole>> {
        self.backwards += 1;
        if self.fail_backward {
            return None;
        }
        let s = weighted_sum(errors);
        let length = self.inputs as usize + self.extra;
        let out = (0..length).map(|j| Whole(self.weight * s + j as i64)).collect();
        self.weight += rate.0;
        Some(out)
    }

    fn reset(&mut self) {
        self.resets += 1;
        self.forwards = 0;
        self.backwards = 0;
    }

    fn add_tracer(&mut self) {
        self.tracing = true;
    }

    fn remove_tracer(&mut self) {
        self.tracing = false;
    }

    fn set_trace_index(&mut self, index: usize) {
        self.trace_index = index;
    }

    fn crossover(child: &Self, parent_two: &Self, env: &i64, crossover_rate: Whole) -> Option<Self> {
        if child.fail_crossover {
            return None;
        }
        let mut bred = child.clone();
        bred.weight = child.weight + parent_two.weight * crossover_rate.0 + *env;
        Some(bred)
    }

    fn distance(one: &Self, two: &Self, env: &i64) -> Whole {
        Whole((one.weight - two.weight).abs() * *env)
    }
}

type Cell = LSTM<Whole, Probe>;

fn wholes(values: &[i64]) -> Vec<Whole> {
    values.iter().map(|v| Whole(*v)).collect()
}

/// A cell from one value to one value with a memory of two, whose gates have
/// the weights 1 (candidate), 2 (input), 3 (forget), 4 (output) and 1
/// (projection).
fn small_cell() -> Cell {
    let mut cell = Cell::new(1, 2, 1);
    cell.g_gate.weight = 1;
    cell.i_gate.weight = 2;
    cell.f_gate.weight = 3;
    cell.o_gate.weight = 4;
    cell.v_gate.weight = 1;
    cell
}

/// `small_cell` after one forward step on `[5]`, with the derivatives
/// `[1, 2]` for the hidden vector and `[3, 4]` for the memory left for the
/// first backward step.
fn stepped_cell() -> Cell {
    let mut cell = small_cell();
    assert_eq!(cell.forward(&wholes(&[5])), Some(wholes(&[87694])));
    cell.states.d_prev_hidden.push(wholes(&[1, 2]));
    cell.states.d_prev_memory.push(wholes(&[3, 4]));
    cell
}

#[test]
fn new_builds_an_empty_cell() {
    let cell = Cell::new(2, 3, 1);
    assert_eq!(cell.input_size, 2);
    assert_eq!(cell.memory_size, 3);
    assert_eq!(cell.output_size, 1);
    assert_eq!(cell.memory, wholes(&[0, 0, 0]));
    assert_eq!(cell.hidden, wholes(&[0, 0, 0]));
    assert_eq!(cell.states.index, 0);
    assert!(cell.states.f_gate_output.is_empty());
    assert!(cell.states.i_gate_output.is_empty());
    assert!(cell.states.s_gate_output.is_empty());
    assert!(cell.states.o_gate_output.is_empty());
    assert!(cell.states.memory_states.is_empty());
    assert!(cell.states.errors.is_empty());
    assert!(cell.states.d_prev_memory.is_empty());
    assert!(cell.states.d_prev_hidden.is_empty());
    assert!(cell.is_valid());
}

#[test]
fn new_gives_each_gate_its_shape_and_activation() {
    let cell = Cell::new(2, 3, 1);
    for gate in [&cell.i_gate, &cell.f_gate, &cell.o_gate] {
        assert_eq!((gate.inputs, gate.outputs), (5, 3));
        assert_eq!(gate.activation, Activation::Sigmoid);
    }
    assert_eq!((cell.g_gate.inputs, cell.g_gate.outputs), (5, 3));
    assert_eq!(cell.g_gate.activation, Activation::Tanh);
    assert_eq!((cell.v_gate.inputs, cell.v_gate.outputs), (3, 1));
    assert_eq!(cell.v_gate.activation, Activation::Sigmoid);
}

#[test]
fn shape_is_input_and_output_size() {
    assert_eq!(Cell::new(2, 3, 1).shape(), (2, 1));
    assert_eq!(Cell::new(7, 1, 4).shape(), (7, 4));
}

#[test]
fn forward_updates_memory_then_hidden() {
    let mut cell = small_cell();
    let out = cell.forward(&wholes(&[5]));
    // The gates see [0, 0, 5], whose weighted sum is 15.
    assert_eq!(cell.states.s_gate_output, vec![wholes(&[15, 16])]);
    assert_eq!(cell.states.i_gate_output, vec![wholes(&[30, 31])]);
    assert_eq!(cell.states.f_gate_output, vec![wholes(&[45, 46])]);
    assert_eq!(cell.states.o_gate_output, vec![wholes(&[60, 61])]);
    // memory = memory * forget + candidate * input
    assert_eq!(cell.memory, wholes(&[0 * 45 + 15 * 30, 0 * 46 + 16 * 31]));
    assert_eq!(cell.memory, wholes(&[450, 496]));
    // hidden = output * tanh(memory), of the new memory
    assert_eq!(cell.hidden, wholes(&[60 * 451, 61 * 497]));
    assert_eq!(cell.states.memory_states, vec![wholes(&[450, 496])]);
    assert_eq!(cell.states.index, 1);
    // The projection gate sees the new hidden vector.
    assert_eq!(out, Some(wholes(&[27060 + 2 * 30317])));
    assert!(cell.is_valid());
}

#[test]
fn forward_feeds_the_hidden_vector_before_the_input() {
    let mut cell = small_cell();
    cell.forward(&wholes(&[5]));
    cell.forward(&wholes(&[1]));
    // The gates see [27060, 30317, 1].
    let s = 27060 + 2 * 30317 + 3 * 1;
    assert_eq!(cell.states.s_gate_output[1], wholes(&[s, s + 1]));
    assert_eq!(cell.states.f_gate_output[1], wholes(&[3 * s, 3 * s + 1]));
    let memory = wholes(&[450 * (3 * s) + s * (2 * s), 496 * (3 * s + 1) + (s + 1) * (2 * s + 1)]);
    assert_eq!(cell.memory, memory);
    assert_eq!(cell.states.memory_states, vec![wholes(&[450, 496]), memory.clone()]);
    assert_eq!(
        cell.hidden,
        wholes(&[4 * s * (memory[0].0 + 1), (4 * s + 1) * (memory[1].0 + 1)])
    );
    assert_eq!(cell.states.index, 2);
}

#[test]
fn forward_calls_the_gates_in_order() {
    let mut cell = small_cell();
    cell.o_gate.fail_forward = true;
    assert_eq!(cell.forward(&wholes(&[5])), None);
    assert_eq!(cell.f_gate.forwards, 1);
    assert_eq!(cell.i_gate.forwards, 1);
    assert_eq!(cell.o_gate.forwards, 1);
    assert_eq!(cell.g_gate.forwards, 0);
    assert_eq!(cell.v_gate.forwards, 0);
}

#[test]
fn forward_rejects_an_input_of_the_wrong_length() {
    let mut cell = small_cell();
    let before = format!("{:?}", cell);
    assert_eq!(cell.forward(&wholes(&[5, 6])), None);
    assert_eq!(cell.forward(&wholes(&[])), None);
    assert_eq!(format!("{:?}", cell), before);
}

#[test]
fn forward_fails_where_a_gate_fails() {
    let mut cell = small_cell();
    cell.f_gate.fail_forward = true;
    assert_eq!(cell.forward(&wholes(&[5])), None);
    assert_eq!(cell.memory, wholes(&[0, 0]));
    assert_eq!(cell.hidden, wholes(&[0, 0]));
    assert_eq!(cell.states.index, 0);
    assert!(cell.states.memory_states.is_empty());
    assert_eq!(cell.i_gate.forwards, 0);
    assert!(cell.is_valid());
}

#[test]
fn forward_fails_where_a_gate_returns_the_wrong_length() {
    let mut cell = small_cell();
    cell.g_gate.extra = 1;
    assert_eq!(cell.forward(&wholes(&[5])), None);
    assert_eq!(cell.memory, wholes(&[0, 0]));
    assert_eq!(cell.states.index, 0);
    assert_eq!(cell.g_gate.forwards, 1);
    assert_eq!(cell.v_gate.forwards, 0);
}

#[test]
fn forward_keeps_the_step_where_the_projection_fails() {
    let mut cell = small_cell();
    cell.v_gate.fail_forward = true;
    assert_eq!(cell.forward(&wholes(&[5])), None);
    assert_eq!(cell.memory, wholes(&[450, 496]));
    assert_eq!(cell.hidden, wholes(&[27060, 30317]));
    assert_eq!(cell.states.index, 1);
}

#[test]
fn forward_rejects_a_projection_of_the_wrong_length() {
    let mut cell = small_cell();
    cell.v_gate.extra = 2;
    assert_eq!(cell.forward(&wholes(&[5])), None);
    assert_eq!(cell.states.index, 1);
}

#[test]
fn forward_returns_output_size_values() {
    for (input_size, memory_size, output_size) in [(1, 1, 1), (2, 3, 1), (3, 2, 5), (4, 7, 2)] {
        let mut cell = Cell::new(input_size, memory_size, output_size);
        let input = vec![Whole(1); input_size as usize];
        for _ in 0..3 {
            let out = cell.forward(&input).unwrap();
            assert_eq!(out.len(), output_size as usize);
            assert_eq!(cell.memory.len(), memory_size as usize);
            assert_eq!(cell.hidden.len(), memory_size as usize);
        }
    }
}

#[test]
fn ledger_grows_by_one_for_each_forward_step() {
    let mut cell = Cell::new(2, 2, 1);
    for n in 1..=4 {
        // Small inputs keep the whole numbers within range.
        cell.memory = wholes(&[0, 0]);
        cell.hidden = wholes(&[0, 0]);
        assert!(cell.forward(&wholes(&[1, 0])).is_some());
        assert_eq!(cell.states.index, n);
        assert_eq!(cell.states.f_gate_output.len(), n);
        assert_eq!(cell.states.i_gate_output.len(), n);
        assert_eq!(cell.states.s_gate_output.len(), n);
        assert_eq!(cell.states.o_gate_output.len(), n);
        assert_eq!(cell.states.memory_states.len(), n);
        assert!(cell.is_valid());
    }
}

#[test]
fn equal_cells_give_equal_outputs() {
    let mut one = small_cell();
    let mut two = small_cell();
    // The ledgers may differ: only the gates, the memory and the hidden
    // vector decide.
    two.states.errors.push(wholes(&[9]));
    for input in [[2], [0], [-1]] {
        assert_eq!(one.forward(&wholes(&input)), two.forward(&wholes(&input)));
        assert_eq!(one.memory, two.memory);
        assert_eq!(one.hidden, two.hidden);
    }
}

#[test]
fn step_back_computes_the_gradients() {
    let mut cell = stepped_cell();
    let out = cell.step_back(&wholes(&[7]), Whole(10), 0);

    // The projection gate returns [7, 8]; times the derivative left for the
    // hidden vector, [1, 2].
    let dh = [7 * 1, 8 * 2];
    let memory = [450, 496];
    let (forget, input, candidate, output) = ([45, 46], [30, 31], [15, 16], [60, 61]);
    let mut dho = [0i64; 2];
    let mut dc = [0i64; 2];
    let mut dhf = [0i64; 2];
    let mut dhi = [0i64; 2];
    let mut dhc = [0i64; 2];
    let dc_next = [3, 4];
    for k in 0..2 {
        dho[k] = (memory[k] + 1) * dh[k] * (3 * output[k]);
        dc[k] = output[k] * dh[k] * (2 * memory[k]) + dc_next[k];
        dhf[k] = memory[k] * dc[k] * (3 * forget[k]);
        dhi[k] = candidate[k] * dc[k] * (3 * input[k]);
        dhc[k] = input[k] * dc[k] * (2 * candidate[k]);
    }
    assert_eq!(dho, [568260, 1455216]);
    assert_eq!(dc, [378003, 968196]);

    let f_sum = dhf[0] + 2 * dhf[1];
    let i_sum = dhi[0] + 2 * dhi[1];
    let g_sum = dhc[0] + 2 * dhc[1];
    let o_sum = dho[0] + 2 * dho[1];
    let mut dx = [0i64; 3];
    for j in 0..3 {
        dx[j] = (3 * f_sum + j as i64) + (2 * i_sum + j as i64) + (g_sum + j as i64)
            + (4 * o_sum + j as i64);
    }
    assert_eq!(out, Some(wholes(&[dx[2]])));
    assert_eq!(cell.states.d_prev_hidden, vec![wholes(&[1, 2]), wholes(&[dx[0], dx[1]])]);
    assert_eq!(
        cell.states.d_prev_memory,
        vec![wholes(&[3, 4]), wholes(&[45 * dc[0], 46 * dc[1]])]
    );
    // Each gate has learnt at the rate given.
    assert_eq!(cell.v_gate.weight, 11);
    assert_eq!(cell.f_gate.weight, 13);
    assert_eq!(cell.i_gate.weight, 12);
    assert_eq!(cell.g_gate.weight, 11);
    assert_eq!(cell.o_gate.weight, 14);
    // The forward part of the ledger is as it was.
    assert_eq!(cell.states.index, 1);
    assert_eq!(cell.states.memory_states, vec![wholes(&[450, 496])]);
    assert!(cell.states.errors.is_empty());
    assert!(cell.is_valid());
}

#[test]
fn step_back_returns_input_size_values() {
    for (input_size, memory_size, output_size) in [(1, 1, 1), (2, 3, 1), (3, 2, 5), (4, 7, 2)] {
        let mut cell = Cell::new(input_size, memory_size, output_size);
        assert!(cell.forward(&vec![Whole(1); input_size as usize]).is_some());
        cell.states.d_prev_hidden.push(vec![Whole(0); memory_size as usize]);
        cell.states.d_prev_memory.push(vec![Whole(0); memory_size as usize]);
        let out = cell.step_back(&vec![Whole(1); output_size as usize], Whole(0), 0).unwrap();
        assert_eq!(out.len(), input_size as usize);
        assert_eq!(cell.states.d_prev_hidden[1].len(), memory_size as usize);
        assert_eq!(cell.states.d_prev_memory[1].len(), memory_size as usize);
    }
}

#[test]
fn step_back_reports_missing_history_for_a_step_not_taken() {
    let mut cell = stepped_cell();
    let before = format!("{:?}", cell);
    assert_eq!(cell.step_back(&wholes(&[7]), Whole(10), 1), None);
    assert_eq!(cell.step_back(&wholes(&[7]), Whole(10), 2), None);
    assert_eq!(cell.step_back(&wholes(&[7]), Whole(10), usize::MAX), None);
    assert_eq!(format!("{:?}", cell), before);
}

#[test]
fn step_back_reports_missing_history_on_a_new_cell() {
    let mut cell = small_cell();
    cell.states.d_prev_hidden.push(wholes(&[0, 0]));
    cell.states.d_prev_memory.push(wholes(&[0, 0]));
    assert_eq!(cell.step_back(&wholes(&[7]), Whole(10), 0), None);
    assert_eq!(cell.v_gate.backwards, 0);
}

#[test]
fn step_back_reports_missing_history_without_seeds() {
    let mut cell = small_cell();
    assert!(cell.forward(&wholes(&[5])).is_some());
    assert_eq!(cell.step_back(&wholes(&[7]), Whole(10), 0), None);
    cell.states.d_prev_hidden.push(wholes(&[0, 0]));
    assert_eq!(cell.step_back(&wholes(&[7]), Whole(10), 0), None);
    assert_eq!(cell.v_gate.backwards, 0);
    cell.states.d_prev_memory.push(wholes(&[0, 0]));
    assert!(cell.step_back(&wholes(&[7]), Whole(10), 0).is_some());
}

#[test]
fn step_back_rejects_errors_of_the_wrong_length() {
    let mut cell = stepped_cell();
    let before = format!("{:?}", cell);
    assert_eq!(cell.step_back(&wholes(&[7, 7]), Whole(10), 0), None);
    assert_eq!(cell.step_back(&wholes(&[]), Whole(10), 0), None);
    assert_eq!(format!("{:?}", cell), before);
}

#[test]
fn step_back_fails_where_the_projection_fails() {
    let mut cell = stepped_cell();
    cell.v_gate.fail_backward = true;
    assert_eq!(cell.step_back(&wholes(&[7]), Whole(10), 0), None);
    assert_eq!(cell.v_gate.backwards, 1);
    assert_eq!(cell.f_gate.backwards, 0);
    assert_eq!(cell.states.d_prev_hidden.len(), 1);
    assert_eq!(cell.states.d_prev_memory.len(), 1);
}

#[test]
fn step_back_calls_the_gates_in_order() {
    let mut cell = stepped_cell();
    cell.g_gate.fail_backward = true;
    assert_eq!(cell.step_back(&wholes(&[7]), Whole(10), 0), None);
    assert_eq!(cell.v_gate.backwards, 1);
    assert_eq!(cell.f_gate.backwards, 1);
    assert_eq!(cell.i_gate.backwards, 1);
    assert_eq!(cell.g_gate.backwards, 1);
    assert_eq!(cell.o_gate.backwards, 0);
    assert_eq!(cell.f_gate.weight, 13);
    assert_eq!(cell.states.d_prev_hidden.len(), 1);
}

#[test]
fn step_back_fails_where_a_gate_returns_the_wrong_length() {
    let mut cell = stepped_cell();
    cell.i_gate.extra = 1;
    assert_eq!(cell.step_back(&wholes(&[7]), Whole(10), 0), None);
    assert_eq!(cell.o_gate.backwards, 1);
    assert_eq!(cell.states.d_prev_hidden.len(), 1);

    let mut cell = stepped_cell();
    cell.v_gate.extra = 1;
    assert_eq!(cell.step_back(&wholes(&[7]), Whole(10), 0), None);
    assert_eq!(cell.f_gate.backwards, 0);
    assert!(cell.is_valid());
}

#[test]
fn backward_seeds_zeros_and_finds_no_step_at_index() {
    let mut cell = small_cell();
    assert!(cell.forward(&wholes(&[5])).is_some());
    assert_eq!(cell.backward(&wholes(&[7]), Whole(10)), None);
    assert_eq!(cell.states.d_prev_memory, vec![wholes(&[0, 0])]);
    assert_eq!(cell.states.d_prev_hidden, vec![wholes(&[0, 0])]);
    assert_eq!(cell.states.index, 1);
    assert_eq!(cell.v_gate.backwards, 0);
    assert!(cell.is_valid());
}

#[test]
fn reset_clears_everything_but_the_gates() {
    let mut cell = stepped_cell();
    cell.reset();
    assert_eq!(cell.memory, wholes(&[0, 0]));
    assert_eq!(cell.hidden, wholes(&[0, 0]));
    assert_eq!(cell.states.index, 0);
    assert!(cell.states.memory_states.is_empty());
    assert!(cell.states.f_gate_output.is_empty());
    assert!(cell.states.d_prev_hidden.is_empty());
    assert!(cell.states.d_prev_memory.is_empty());
    assert_eq!((cell.input_size, cell.memory_size, cell.output_size), (1, 2, 1));
    for gate in [&cell.g_gate, &cell.i_gate, &cell.f_gate, &cell.o_gate, &cell.v_gate] {
        assert_eq!(gate.resets, 1);
        assert_eq!(gate.forwards, 0);
    }
    assert_eq!(cell.f_gate.weight, 3);
    assert!(cell.is_valid());
}

#[test]
fn reset_twice_is_reset_once() {
    let mut once = stepped_cell();
    once.reset();
    let mut twice = stepped_cell();
    twice.reset();
    twice.reset();
    assert_eq!(once.memory, twice.memory);
    assert_eq!(once.hidden, twice.hidden);
    assert_eq!(format!("{:?}", once.states), format!("{:?}", twice.states));
    assert_eq!(twice.states.index, 0);
    // A cell that has been reset answers as a new one with the same weights.
    assert_eq!(once.forward(&wholes(&[5])), Some(wholes(&[87694])));
    assert_eq!(twice.forward(&wholes(&[5])), Some(wholes(&[87694])));
}

#[test]
fn clone_copies_the_gates_and_not_the_history() {
    let cell = stepped_cell();
    let copy = cell.clone();
    assert_eq!((copy.input_size, copy.memory_size, copy.output_size), (1, 2, 1));
    assert_eq!(copy.memory, wholes(&[0, 0]));
    assert_eq!(copy.hidden, wholes(&[0, 0]));
    assert_eq!(copy.states.index, 0);
    assert!(copy.states.memory_states.is_empty());
    assert!(copy.states.d_prev_hidden.is_empty());
    assert_eq!(copy.g_gate, cell.g_gate);
    assert_eq!(copy.i_gate, cell.i_gate);
    assert_eq!(copy.f_gate, cell.f_gate);
    assert_eq!(copy.o_gate, cell.o_gate);
    assert_eq!(copy.v_gate, cell.v_gate);
    // The cell that was cloned keeps its history.
    assert_eq!(cell.states.index, 1);
    assert_eq!(cell.memory, wholes(&[450, 496]));
    assert!(copy.is_valid());
}

#[test]
fn crossover_breeds_each_gate() {
    let child = stepped_cell();
    let mut parent = small_cell();
    parent.g_gate.weight = 10;
    parent.v_gate.weight = 20;
    let bred = Cell::crossover(&child, &parent, &100, Whole(2)).unwrap();
    assert_eq!(bred.g_gate.weight, 1 + 10 * 2 + 100);
    assert_eq!(bred.i_gate.weight, 2 + 2 * 2 + 100);
    assert_eq!(bred.f_gate.weight, 3 + 3 * 2 + 100);
    assert_eq!(bred.o_gate.weight, 4 + 4 * 2 + 100);
    assert_eq!(bred.v_gate.weight, 1 + 20 * 2 + 100);
    assert_eq!((bred.input_size, bred.memory_size, bred.output_size), (1, 2, 1));
    assert_eq!(bred.memory, wholes(&[0, 0]));
    assert_eq!(bred.hidden, wholes(&[0, 0]));
    assert_eq!(bred.states.index, 0);
    assert!(bred.states.memory_states.is_empty());
    assert!(bred.is_valid());
}

#[test]
fn crossover_fails_where_a_gate_cannot_be_bred() {
    let parent = small_cell();
    for failing in 0..5 {
        let mut child = small_cell();
        match failing {
            0 => child.g_gate.fail_crossover = true,
            1 => child.i_gate.fail_crossover = true,
            2 => child.f_gate.fail_crossover = true,
            3 => child.o_gate.fail_crossover = true,
            _ => child.v_gate.fail_crossover = true,
        }
        assert!(Cell::crossover(&child, &parent, &0, Whole(1)).is_none());
    }
}

#[test]
fn distance_adds_the_distances_of_the_gates() {
    let one = small_cell();
    let mut two = small_cell();
    assert_eq!(Cell::distance(&one, &two, &3), Whole(0));
    two.g_gate.weight = 11;
    two.i_gate.weight = 0;
    two.f_gate.weight = 7;
    two.o_gate.weight = 5;
    two.v_gate.weight = -1;
    assert_eq!(Cell::distance(&one, &two, &3), Whole(3 * (10 + 2 + 4 + 1 + 2)));
    assert_eq!(Cell::distance(&two, &one, &1), Whole(19));
}

#[test]
fn tracer_calls_reach_every_gate() {
    let mut cell = stepped_cell();
    cell.add_tracer();
    for gate in [&cell.g_gate, &cell.i_gate, &cell.f_gate, &cell.o_gate, &cell.v_gate] {
        assert!(gate.tracing);
    }
    cell.set_trace_index(4);
    for gate in [&cell.g_gate, &cell.i_gate, &cell.f_gate, &cell.o_gate, &cell.v_gate] {
        assert_eq!(gate.trace_index, 4);
    }
    // The ledger still counts the forward steps taken.
    assert_eq!(cell.states.index, 1);
    cell.remove_tracer();
    for gate in [&cell.g_gate, &cell.i_gate, &cell.f_gate, &cell.o_gate, &cell.v_gate] {
        assert!(!gate.tracing);
    }
    assert_eq!(cell.memory, wholes(&[450, 496]));
}

#[test]
fn is_valid_finds_a_broken_cell() {
    let mut cell = stepped_cell();
    assert!(cell.is_valid());
    cell.memory.push(Whole(1));
    assert!(!cell.is_valid());

    let mut cell = stepped_cell();
    cell.states.index = 5;
    assert!(!cell.is_valid());

    let mut cell = stepped_cell();
    cell.states.d_prev_hidden.push(wholes(&[1, 2, 3]));
    assert!(!cell.is_valid());

    let mut cell = stepped_cell();
    cell.input_size = u32::MAX;
    assert!(!cell.is_valid());
}

#[test]
fn ledger_records_what_it_is_given() {
    let mut ledger: LSTMState<Whole> = LSTMState::new();
    assert_eq!(ledger.index, 0);
    assert!(ledger.is_valid(2));
    ledger.update_forward(
        wholes(&[1, 2]),
        wholes(&[3, 4]),
        wholes(&[5, 6]),
        wholes(&[7, 8]),
        wholes(&[9, 10]),
    );
    assert_eq!(ledger.index, 1);
    assert_eq!(ledger.f_gate_output, vec![wholes(&[1, 2])]);
    assert_eq!(ledger.i_gate_output, vec![wholes(&[3, 4])]);
    assert_eq!(ledger.s_gate_output, vec![wholes(&[5, 6])]);
    assert_eq!(ledger.o_gate_output, vec![wholes(&[7, 8])]);
    assert_eq!(ledger.memory_states, vec![wholes(&[9, 10])]);
    assert!(ledger.errors.is_empty());
    assert!(ledger.is_valid(2));
    assert!(!ledger.is_valid(3));

    ledger.update_backward(wholes(&[11]));
    ledger.update_backward(wholes(&[12, 13]));
    assert_eq!(ledger.errors, vec![wholes(&[11]), wholes(&[12, 13])]);
    assert_eq!(ledger.index, 1);
    assert!(ledger.is_valid(2));
}
