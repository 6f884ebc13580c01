use vstd::prelude::*;

use rand::distributions::uniform::{SampleUniform, UniformFloat, UniformSampler};

use crate::chromosome::Chromosome;
use crate::network::{fits, network_code, unit_neuron, weight_count, LayerTopology, Network};

verus! {

/// The layers of a brain fed by an eye of `eye_cells` cells: one input per
/// cell, a hidden layer twice as wide, and two outputs, speed and rotation.
pub open spec fn brain_topology(eye_cells: nat) -> Seq<LayerTopology> {
    seq![
        LayerTopology { neurons: eye_cells as usize },
        LayerTopology { neurons: (2 * eye_cells) as usize },
        LayerTopology { neurons: 2 },
    ]
}

/// The network that steers an agent, read from and written to a chromosome.
#[derive(Debug)]
pub struct Brain<T> {
    nn: Network<T>,
}

impl<T> Brain<T> {
    pub closed spec fn network_spec(&self) -> Network<T> {
        self.nn
    }

    /// The layers of a brain fed by an eye of `eye_cells` cells.
    pub fn topology(eye_cells: usize) -> (r: Vec<LayerTopology>)
        requires
            eye_cells <= usize::MAX / 2,
        ensures
            r@ == brain_topology(eye_cells as nat),
    {
        let r = vec![
            LayerTopology { neurons: eye_cells },
            LayerTopology { neurons: 2 * eye_cells },
            LayerTopology { neurons: 2 },
        ];
        proof {
            assert(r@ =~= brain_topology(eye_cells as nat));
        }
        r
    }

    /// The network itself.
    pub fn network(&self) -> (r: &Network<T>)
        ensures
            *r == self.network_spec(),
    {
        &self.nn
    }
}

impl<T: Copy + PartialOrd + From<i8> + SampleUniform> Brain<T> where UniformFloat<T>: UniformSampler {
    /// A brain for an eye of `eye_cells` cells with random weights.
    pub fn random<R: rand::RngCore + ?Sized>(rng: &mut R, eye_cells: usize) -> (r: Self)
        requires
            eye_cells <= usize::MAX / 2,
        ensures
            fits(r.network_spec()@, brain_topology(eye_cells as nat)),
            forall|i: int, j: int|
                0 <= i < r.network_spec()@.len() && 0 <= j < r.network_spec()@[i].len() ==> unit_neuron(
                    #[trigger] r.network_spec()@[i][j],
                ),
    {
        let layers = Self::topology(eye_cells);
        Brain { nn: Network::random(rng, layers.as_slice()) }
    }
}

impl<T: Copy> Brain<T> {
    /// The brain for an eye of `eye_cells` cells whose network's flat weight
    /// sequence is the genes of `chromosome`.
    pub fn from_chromosome(chromosome: Chromosome<T>, eye_cells: usize) -> (r: Self)
        requires
            eye_cells <= usize::MAX / 2,
            chromosome@.len() == weight_count(brain_topology(eye_cells as nat)),
        ensures
            fits(r.network_spec()@, brain_topology(eye_cells as nat)),
            network_code(r.network_spec()@) == chromosome@,
    {
        let layers = Self::topology(eye_cells);
        Brain { nn: Network::from_weights(layers.as_slice(), chromosome.into_genes()) }
    }

    /// The chromosome whose genes are the network's flat weight sequence.
    pub fn as_chromosome(&self) -> (r: Chromosome<T>)
        ensures
            r@ == network_code(self.network_spec()@),
    {
        Chromosome::new(self.nn.weights())
    }
}

} // verus!
