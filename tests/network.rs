use lib_simulation::{LayerTopology, NetworkError, NeuralNetwork};
use rand_chacha::ChaCha8Rng;
use rand::{Rng, SeedableRng};

fn topology(sizes: &[usize]) -> Vec<LayerTopology> {
    sizes.iter().map(|&neurons| LayerTopology { neurons }).collect()
}

#[test]
fn can_not_create_network_without_layers_topology() {
    let invalid_network = NeuralNetwork::<f32>::gene_count(&topology(&[]));
    assert!(invalid_network.is_err());
}

#[test]
fn can_not_create_network_with_one_layer_topology() {
    let invalid_network = NeuralNetwork::<f32>::gene_count(&topology(&[42]));
    assert!(invalid_network.is_err());
}

#[test]
fn gene_count_of_a_three_layer_topology() {
    // 4 neurons of 1 weight, then 2 neurons of 4 weights, each with a bias.
    assert_eq!(NeuralNetwork::<f32>::gene_count(&topology(&[1, 4, 2])), Ok(4 * 2 + 2 * 5));
    assert_eq!(NeuralNetwork::<f32>::gene_count(&topology(&[3, 0])), Ok(0));
}

#[test]
fn gene_count_that_overflows_is_too_large() {
    assert_eq!(
        NeuralNetwork::<f32>::gene_count(&topology(&[usize::MAX, 2])),
        Err(NetworkError::TooLarge)
    );
    assert_eq!(
        NeuralNetwork::<f32>::gene_count(&topology(&[usize::MAX, 0])),
        Ok(0)
    );
}

#[test]
fn from_weights_reads_bias_then_weights_per_neuron() {
    let genes: Vec<f32> = (0..13).map(|i| i as f32).collect();
    let network = NeuralNetwork::from_weights(&topology(&[2, 3, 1]), &genes).unwrap();
    let layers = network.get_layers();
    assert_eq!(layers.len(), 2);
    let first = layers[0].get_neurons();
    assert_eq!(first.len(), 3);
    assert_eq!(*first[0].bias(), 0.0);
    assert_eq!(first[0].get_weights(), &[1.0, 2.0]);
    assert_eq!(*first[1].bias(), 3.0);
    assert_eq!(first[1].get_weights(), &[4.0, 5.0]);
    assert_eq!(*first[2].bias(), 6.0);
    assert_eq!(first[2].get_weights(), &[7.0, 8.0]);
    let second = layers[1].get_neurons();
    assert_eq!(second.len(), 1);
    assert_eq!(*second[0].bias(), 9.0);
    assert_eq!(second[0].get_weights(), &[10.0, 11.0, 12.0]);
}

#[test]
fn from_weights_ignores_extra_genes() {
    let genes: Vec<f32> = (0..20).map(|i| i as f32).collect();
    let network = NeuralNetwork::from_weights(&topology(&[2, 3, 1]), &genes).unwrap();
    assert_eq!(network.weights(), genes[..13].to_vec());
}

#[test]
fn from_weights_with_too_few_genes_is_a_dimension_mismatch() {
    let genes: Vec<f32> = vec![0.5; 12];
    assert!(matches!(
        NeuralNetwork::from_weights(&topology(&[2, 3, 1]), &genes),
        Err(NetworkError::DimensionMismatch)
    ));
}

#[test]
fn from_weights_without_layers_fails() {
    let genes: Vec<f32> = vec![0.5; 4];
    assert!(matches!(
        NeuralNetwork::from_weights(&topology(&[]), &genes),
        Err(NetworkError::TooFewLayers)
    ));
}

#[test]
fn from_weights_of_input_layer_only_has_no_layers() {
    let network = NeuralNetwork::<f32>::from_weights(&topology(&[5]), &[]).unwrap();
    assert_eq!(network.get_layers().len(), 0);
    assert!(network.weights().is_empty());
}

#[test]
fn random_genes_build_layers_of_the_topology() {
    let mut rng = ChaCha8Rng::seed_from_u64(140516);
    let layers = topology(&[2, 3, 5, 2]);
    let count = NeuralNetwork::<f32>::gene_count(&layers).unwrap();
    let genes: Vec<f32> = (0..count).map(|_| rng.gen()).collect();
    let network = NeuralNetwork::from_weights(&layers, &genes).unwrap();
    let built = network.get_layers();
    assert_eq!(built.len(), 3);
    let expected = [(3, 2), (5, 3), (2, 5)];
    for (layer, &(neurons, weights)) in built.iter().zip(expected.iter()) {
        assert_eq!(layer.get_neurons().len(), neurons);
        for neuron in layer.get_neurons() {
            assert_eq!(neuron.get_weights().len(), weights);
        }
    }
}

#[test]
fn weights_round_trip_through_from_weights() {
    let mut rng = ChaCha8Rng::seed_from_u64(91295);
    let layers = topology(&[1, 4, 2]);
    let count = NeuralNetwork::<f32>::gene_count(&layers).unwrap();
    let genes: Vec<f32> = (0..count).map(|_| rng.gen()).collect();
    let network = NeuralNetwork::from_weights(&layers, &genes).unwrap();
    let flat = network.weights();
    assert_eq!(flat, genes);
    let rebuilt = NeuralNetwork::from_weights(&layers, &flat).unwrap();
    assert_eq!(rebuilt.weights(), flat);
    for (a, b) in network.get_layers().iter().zip(rebuilt.get_layers()) {
        for (n, m) in a.get_neurons().iter().zip(b.get_neurons()) {
            assert_eq!(n.bias(), m.bias());
            assert_eq!(n.get_weights(), m.get_weights());
        }
    }
}
