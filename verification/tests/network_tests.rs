use evosim::layer::Layer;
use evosim::network::{LayerTopology, Network, NetworkError};
use evosim::neuron::Neuron;
use rand::SeedableRng;

fn topo(sizes: &[usize]) -> Vec<LayerTopology> {
    let mut v = Vec::new();
    for &s in sizes {
        v.push(LayerTopology { neurons: s });
    }
    v
}

#[test]
fn random_neuron() {
    let mut rng = rand::rngs::StdRng::seed_from_u64(0);
    let neuron = Neuron::random(&mut rng, 4);

    assert_eq!(neuron.weights.len(), 4);
    assert!(-65536 <= neuron.bias && neuron.bias <= 65536);
    for &w in &neuron.weights {
        assert!((0..=65536).contains(&w));
    }
}

#[test]
fn propagete_neuron() {
    // bias 0.5, weights [-0.3, 0.8] in fixed point.
    let neuron = Neuron {
        bias: 32768,
        weights: vec![-19661, 52429],
    };

    // Inputs of -10.0 drive the weighted sum negative: the rectifier
    // must clip the output to exactly zero.
    assert_eq!(neuron.propagate(&vec![-655360, -655360]), 0);

    // Inputs [0.5, 1.0]: (-0.3 * 0.5) + (0.8 * 1.0) + 0.5, exactly, in
    // fixed-point arithmetic.
    assert_eq!(neuron.propagate(&vec![32768, 65536]), -9830 + 52429 + 32768);
}

#[test]
fn random_layer() {
    let mut rng = rand::rngs::StdRng::seed_from_u64(0);
    let layer = Layer::random(&mut rng, 4, 1);

    assert_eq!(layer.neurons.len(), 1);
    assert_eq!(layer.neurons[0].weights.len(), 4);
    assert!(-65536 <= layer.neurons[0].bias && layer.neurons[0].bias <= 65536);
    for &w in &layer.neurons[0].weights {
        assert!((0..=65536).contains(&w));
    }
}

#[test]
fn propagete_layer() {
    let layer = Layer {
        neurons: vec![
            Neuron {
                bias: 32768,
                weights: vec![-19661, 52429],
            },
            Neuron {
                bias: 6554,
                weights: vec![13107, -6554],
            },
        ],
    };

    let out = layer.propagate(&vec![32768, 65536]);
    assert_eq!(out, vec![75367, 6553]);
}

#[test]
fn random_network() {
    let mut rng = rand::rngs::StdRng::seed_from_u64(0);
    let network = Network::random(&mut rng, &topo(&[2, 4]));

    assert_eq!(network.layers.len(), 1);
    assert_eq!(network.layers[0].neurons.len(), 4);
    assert_eq!(network.layers[0].neurons[0].weights.len(), 2);
}

#[test]
fn propagate_network() {
    // Two identity-ish layers: each neuron passes one input through.
    let genes: Vec<i64> = vec![
        0, 65536, 0, // layer 1, neuron 1
        0, 0, 65536, // layer 1, neuron 2
        0, 65536, 0, // layer 2, neuron 1
        0, 0, 65536, // layer 2, neuron 2
    ];
    let network = Network::from_weights(&topo(&[2, 2, 2]), &genes).unwrap();
    let out = network.propagate(vec![123, 456]);
    assert_eq!(out, vec![123, 456]);
}

#[test]
fn weights_roundtrip_exact() {
    let mut rng = rand::rngs::StdRng::seed_from_u64(7);
    let network = Network::random(&mut rng, &topo(&[3, 5, 2]));

    let encoded = network.weights();
    assert_eq!(encoded.len(), 5 * (1 + 3) + 2 * (1 + 5));

    let decoded = Network::from_weights(&topo(&[3, 5, 2]), &encoded).unwrap();
    // Decoding the encoded genes reproduces the same genes...
    assert_eq!(decoded.weights(), encoded);
    // ...and the same propagate behaviour.
    let input = vec![100, -200, 300];
    assert_eq!(decoded.propagate(input.clone()), network.propagate(input));
}

#[test]
fn weights_encode_order() {
    // bias first, then weights, neuron by neuron, layer by layer.
    let genes: Vec<i64> = vec![10, 11, 12, 20, 21, 22, 30, 31, 32];
    let network = Network::from_weights(&topo(&[2, 2, 1]), &genes).unwrap();
    assert_eq!(network.weights(), genes);
    assert_eq!(network.layers[0].neurons[0].bias, 10);
    assert_eq!(network.layers[0].neurons[0].weights, vec![11, 12]);
    assert_eq!(network.layers[0].neurons[1].bias, 20);
    assert_eq!(network.layers[1].neurons[0].weights, vec![31, 32]);
}

#[test]
fn propagation_determinism() {
    let genes: Vec<i64> = vec![5, -7, 9, 11, -13, 17, 19, -23, 29];
    let a = Network::from_weights(&topo(&[2, 2, 1]), &genes).unwrap();
    let b = Network::from_weights(&topo(&[2, 2, 1]), &genes).unwrap();
    let input = vec![31337, -4242];
    assert_eq!(a.propagate(input.clone()), b.propagate(input));
}

#[test]
fn from_weights_not_enough() {
    let genes: Vec<i64> = vec![1, 2];
    match Network::from_weights(&topo(&[2, 1]), &genes) {
        Err(NetworkError::NotEnoughWeights) => {}
        _ => panic!("expected NotEnoughWeights"),
    }
}

#[test]
fn from_weights_too_many() {
    let genes: Vec<i64> = vec![1, 2, 3, 4];
    match Network::from_weights(&topo(&[2, 1]), &genes) {
        Err(NetworkError::TooManyWeights) => {}
        _ => panic!("expected TooManyWeights"),
    }
}
