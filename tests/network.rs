use evolution::{count_weights, Brain, Chromosome, LayerTopology, Network, Neuron};
use rand::SeedableRng;
use rand_chacha::ChaCha8Rng;

fn seeded() -> ChaCha8Rng {
    ChaCha8Rng::from_seed(Default::default())
}

fn close(a: f32, b: f32) -> bool {
    a == b || (a - b).abs() <= f32::EPSILON || (a - b).abs() <= a.abs().max(b.abs()) * f32::EPSILON
}

fn topology(sizes: &[usize]) -> Vec<LayerTopology> {
    sizes.iter().map(|&neurons| LayerTopology { neurons }).collect()
}

#[test]
fn random() {
    let mut rng = seeded();
    let neuron: Neuron<f32> = Neuron::random(&mut rng, 4);
    assert!(close(neuron.bias, -0.6255188));
    let expected = [0.67383957, 0.8181262, 0.26284897, 0.5238807];
    assert_eq!(neuron.weights.len(), expected.len());
    for (w, e) in neuron.weights.iter().zip(expected.iter()) {
        assert!(close(*w, *e));
    }
}

#[test]
fn propagate() {
    let neuron = Neuron { bias: 0.5f32, weights: vec![-0.3, 0.8] };
    assert!(close(neuron.propagate(&[-10.0, -10.0]), 0.0));
    assert!(close(neuron.propagate(&[0.5, 1.0]), 0.5 * -0.3 + 1.0 * 0.8 + 0.5));
}

#[test]
fn neuron_output_is_exact() {
    let neuron = Neuron { bias: 0.5f32, weights: vec![-0.3, 0.8] };
    assert_eq!(neuron.propagate(&[0.5, 1.0]), 0.5 * -0.3 + 1.0 * 0.8 + 0.5);
    assert_eq!(neuron.propagate(&[-10.0, -10.0]), 0.0);
}

#[test]
fn weights_lists_bias_then_weights_per_neuron() {
    // 2 inputs, 2 hidden neurons, 1 output
    let flat: Vec<f32> = vec![0.1, 0.2, 0.3, 0.4, 0.5, 0.6, 0.7, 0.8, 0.9];
    let network = Network::from_weights(&topology(&[2, 2, 1]), flat.clone());
    assert_eq!(network.weights(), flat);
}

#[test]
fn from_weights_then_propagate_gives_the_expected_value() {
    let flat: Vec<f32> = vec![0.0, 1.0, 2.0, 1.0, -1.0, 0.5, 0.5, 2.0, 3.0];
    let network = Network::from_weights(&topology(&[2, 2, 1]), flat);
    // hidden: max(0, 0 + 1*1 + 2*2) = 5, max(0, 1 + 1*-1 + 2*0.5) = 1
    // output: max(0, 0.5 + 5*2 + 1*3) = 13.5
    assert_eq!(network.propagate(vec![1.0, 2.0]), vec![13.5]);
}

#[test]
fn decoding_the_weights_gives_back_the_network() {
    let mut rng = seeded();
    let layers = topology(&[3, 5, 4, 2]);
    let network: Network<f32> = Network::random(&mut rng, &layers);
    let weights = network.weights();
    assert_eq!(weights.len(), 5 * 4 + 4 * 6 + 2 * 5);
    let decoded = Network::from_weights(&layers, weights.clone());
    assert_eq!(
        decoded.weights().iter().map(|w| w.to_bits()).collect::<Vec<u32>>(),
        weights.iter().map(|w| w.to_bits()).collect::<Vec<u32>>()
    );
    for inputs in [vec![0.5, -1.0, 2.0], vec![0.0, 0.0, 0.0], vec![3.0, 1.0, -0.25]] {
        let a = network.propagate(inputs.clone());
        let b = decoded.propagate(inputs);
        assert_eq!(a.len(), 2);
        assert_eq!(
            a.iter().map(|v| v.to_bits()).collect::<Vec<u32>>(),
            b.iter().map(|v| v.to_bits()).collect::<Vec<u32>>()
        );
    }
}

#[test]
fn random_networks_are_reproducible_and_in_range() {
    let layers = topology(&[4, 3, 2]);
    let a: Network<f32> = Network::random(&mut seeded(), &layers);
    let b: Network<f32> = Network::random(&mut seeded(), &layers);
    assert_eq!(a.weights(), b.weights());
    assert_eq!(a.weights().len(), 3 * 5 + 2 * 4);
    assert!(a.weights().iter().all(|w| (-1.0..=1.0).contains(w)));
}

#[test]
fn random_network_draws_in_weight_order() {
    // the first neuron of a random network is the neuron drawn first
    let mut rng = seeded();
    let network: Network<f32> = Network::random(&mut rng, &topology(&[4, 1]));
    let neuron: Neuron<f32> = Neuron::random(&mut seeded(), 4);
    let mut expected = vec![neuron.bias];
    expected.extend(neuron.weights.iter());
    assert_eq!(network.weights(), expected);
}

#[test]
fn propagate_yields_one_value_per_output_neuron() {
    let mut rng = seeded();
    let network: Network<f32> = Network::random(&mut rng, &topology(&[2, 6, 3]));
    let out = network.propagate(vec![0.3, 0.7]);
    assert_eq!(out.len(), 3);
    assert!(out.iter().all(|v| *v >= 0.0));
}

#[test]
fn neuron_from_weights_reads_from_the_start_position() {
    let flat = [9.0f32, 9.0, 0.5, -0.3, 0.8, 9.0];
    let neuron = Neuron::from_weights(2, &flat, 2);
    assert_eq!(neuron.bias, 0.5);
    assert_eq!(neuron.weights, vec![-0.3, 0.8]);
}

#[test]
fn layer_from_weights_returns_the_next_position() {
    let flat = [1.0f32, 2.0, 3.0, 4.0, 5.0, 6.0, 7.0];
    let (layer, next) = evolution::Layer::from_weights(2, 2, &flat, 1);
    assert_eq!(next, 7);
    assert_eq!(layer.propagate(vec![1.0, 0.0]), vec![2.0 + 3.0, 5.0 + 6.0]);
}

#[test]
fn network_from_layers_keeps_them_in_order() {
    let first = evolution::Layer::from_weights(1, 1, &[0.0f32, 2.0], 0).0;
    let second = evolution::Layer::from_weights(1, 1, &[1.0f32, 3.0], 0).0;
    let network = Network::new(vec![first, second]);
    assert_eq!(network.weights(), vec![0.0, 2.0, 1.0, 3.0]);
    assert_eq!(network.propagate(vec![2.0]), vec![13.0]);
}

#[test]
fn count_weights_counts_bias_and_weights_of_every_neuron() {
    assert_eq!(count_weights(&topology(&[2, 2, 1])), Some(9));
    assert_eq!(count_weights(&topology(&[3, 5, 4, 2])), Some(5 * 4 + 4 * 6 + 2 * 5));
    assert_eq!(count_weights(&topology(&[7])), Some(0));
    assert_eq!(count_weights(&topology(&[usize::MAX, 0])), Some(0));
    assert_eq!(count_weights(&topology(&[usize::MAX, 1])), None);
    assert_eq!(count_weights(&topology(&[1, usize::MAX, 3])), None);
}

#[test]
fn brain_topology_is_eye_hidden_and_two_outputs() {
    let layers = Brain::<f32>::topology(9);
    let sizes: Vec<usize> = layers.iter().map(|l| l.neurons).collect();
    assert_eq!(sizes, vec![9, 18, 2]);
}

#[test]
fn brain_chromosome_round_trip() {
    let mut rng = seeded();
    let brain: Brain<f32> = Brain::random(&mut rng, 3);
    let chromosome = brain.as_chromosome();
    assert_eq!(chromosome.len(), 6 * 4 + 2 * 7);
    let again = Brain::from_chromosome(chromosome.clone(), 3);
    assert_eq!(again.as_chromosome().as_slice(), chromosome.as_slice());
    let inputs = vec![0.2, 0.9, -0.4];
    assert_eq!(brain.network().propagate(inputs.clone()), again.network().propagate(inputs));
}

#[test]
fn brain_from_chromosome_uses_the_genes_as_weights() {
    let genes: Vec<f32> = (0..(2 * 2 + 2 * 3)).map(|i| i as f32 / 10.0).collect();
    let brain = Brain::from_chromosome(Chromosome::new(genes.clone()), 1);
    assert_eq!(brain.network().weights(), genes);
    assert_eq!(brain.network().propagate(vec![1.0]).len(), 2);
}

#[test]
fn integer_neuron_follows_the_formula() {
    let neuron = Neuron { bias: 5i64, weights: vec![-3, 8] };
    assert_eq!(neuron.propagate(&[5, 10]), 5 + 5 * -3 + 10 * 8);
    assert_eq!(neuron.propagate(&[10, -10]), 0);
}
