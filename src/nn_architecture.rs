//! The fixed shape of the network: its layers, their sizes and activations.

use vstd::prelude::*;

verus! {

/// Inputs of the network: the observation of the game.
pub const INPUT_SIZE: usize = 7;

/// Neurons of the first hidden layer.
pub const NEURONS_PER_LAYER_1: usize = 32;

/// Neurons of the second hidden layer.
pub const NEURONS_PER_LAYER_2: usize = 64;

/// Outputs of the network: one for each choice of move.
pub const OUTPUT_SIZE: usize = 3;

/// The function a layer applies to each of its sums.
#[derive(Debug, Clone, Copy, PartialEq, Eq, Structural)]
pub enum Activation {
    Relu,
    Sigmoid,
}

/// One layer: `output_dim` neurons, each reading `input_dim` values.
#[derive(Debug, Clone, Copy, PartialEq, Eq, Structural)]
pub struct LayerConfig {
    pub input_dim: usize,
    pub output_dim: usize,
    pub activation: Activation,
}

/// The layers of the network, from input to output.
#[allow(non_camel_case_types)]
#[derive(Debug)]
pub struct NN_Architecture {
    pub layers: Vec<LayerConfig>,
}

/// The layers of the network that every candidate uses.
pub open spec fn standard_layers() -> Seq<LayerConfig> {
    seq![
        LayerConfig { input_dim: INPUT_SIZE, output_dim: NEURONS_PER_LAYER_1, activation: Activation::Relu },
        LayerConfig { input_dim: NEURONS_PER_LAYER_1, output_dim: NEURONS_PER_LAYER_2, activation: Activation::Relu },
        LayerConfig { input_dim: NEURONS_PER_LAYER_2, output_dim: OUTPUT_SIZE, activation: Activation::Sigmoid },
    ]
}

/// A usable list of layers: at least one, none of them empty, each reading
/// what the one before it writes.
pub open spec fn layers_wf(layers: Seq<LayerConfig>) -> bool {
    &&& layers.len() > 0
    &&& forall|i: int| 0 <= i < layers.len() ==> #[trigger] layers[i].input_dim > 0 && layers[i].output_dim > 0
    &&& forall|i: int| 0 < i < layers.len() ==> #[trigger] layers[i].input_dim == layers[i - 1].output_dim
}

impl NN_Architecture {
    /// The standard network: seven inputs, hidden layers of 32 and 64 neurons
    /// with ReLU, and three sigmoid outputs.
    pub fn new() -> (r: Self)
        ensures
            r.layers@ == standard_layers(),
            layers_wf(r.layers@),
    {
        let layers: Vec<LayerConfig> = vec![
            LayerConfig { input_dim: INPUT_SIZE, output_dim: NEURONS_PER_LAYER_1, activation: Activation::Relu },
            LayerConfig { input_dim: NEURONS_PER_LAYER_1, output_dim: NEURONS_PER_LAYER_2, activation: Activation::Relu },
            LayerConfig { input_dim: NEURONS_PER_LAYER_2, output_dim: OUTPUT_SIZE, activation: Activation::Sigmoid },
        ];
        assert(layers@ == standard_layers());
        NN_Architecture { layers }
    }

    /// A copy that shares nothing with `self`.
    pub fn duplicate(&self) -> (r: Self)
        ensures
            r.layers@ == self.layers@,
    {
        let mut layers: Vec<LayerConfig> = Vec::new();
        let mut i: usize = 0;
        while i < self.layers.len()
            invariant
                0 <= i <= self.layers.len(),
                layers@ == self.layers@.subrange(0, i as int),
            decreases self.layers.len() - i,
        {
            layers.push(self.layers[i]);
            i = i + 1;
            assert(layers@ == self.layers@.subrange(0, i as int));
        }
        assert(self.layers@.subrange(0, self.layers@.len() as int) == self.layers@);
        NN_Architecture { layers }
    }
}

} // verus!
