// Construction, shape, and weight placement of the network model.

use rand::RngExt;

fn bits(x: f64) -> u64 {
    x.to_bits()
}

fn weight_list(n: usize) -> Vec<u64> {
    // distinct, recognisable values
    (0..n).map(|i| bits(0.001 * (i as f64 + 1.0))).collect()
}

#[test]
fn required_weights_exact() {
    assert_eq!(nn::required_weights(&vec![2, 3, 1]), Some(13));
    assert_eq!(nn::required_weights(&vec![3, 2]), Some(8));
    assert_eq!(nn::required_weights(&vec![10, 10, 10]), Some(220));
    assert_eq!(nn::required_weights(&vec![7]), Some(0));
    assert_eq!(nn::required_weights(&vec![]), Some(0));
}

#[test]
fn layer_sizes_valid_cases() {
    assert!(nn::layer_sizes_valid(&vec![2, 3, 1]));
    assert!(nn::layer_sizes_valid(&vec![1, 1]));
    assert!(!nn::layer_sizes_valid(&vec![2]));
    assert!(!nn::layer_sizes_valid(&vec![]));
    assert!(!nn::layer_sizes_valid(&vec![2, 0, 1]));
    assert!(!nn::layer_sizes_valid(&vec![0, 3]));
}

#[test]
fn construction_shape() {
    let sizes = vec![2u32, 3, 1];
    let ws = weight_list(13);
    let net = nn::NN::new(&sizes, &ws).ok().unwrap();
    assert_eq!(net.num_inputs, 2);
    assert_eq!(net.layers.len(), 2);
    assert_eq!(net.layers[0].len(), 3);
    for node in net.layers[0].iter() {
        assert_eq!(node.len(), 3);
    }
    assert_eq!(net.layers[1].len(), 1);
    assert_eq!(net.layers[1][0].len(), 4);
}

#[test]
fn construction_placement_in_order() {
    let sizes = vec![2u32, 2, 1];
    // layer 0: 2 nodes of 3 weights; layer 1: 1 node of 3 weights
    let ws = weight_list(9);
    let net = nn::NN::new(&sizes, &ws).ok().unwrap();
    assert_eq!(net.layers[0][0], ws[0..3].to_vec());
    assert_eq!(net.layers[0][1], ws[3..6].to_vec());
    assert_eq!(net.layers[1][0], ws[6..9].to_vec());
}

#[test]
fn construction_rejects_short_size_list() {
    assert!(matches!(
        nn::NN::new(&vec![2], &vec![]),
        Err(nn::NnError::TooFewLayers)
    ));
    assert!(matches!(
        nn::NN::new(&vec![], &vec![]),
        Err(nn::NnError::TooFewLayers)
    ));
}

#[test]
fn construction_rejects_zero_layer() {
    assert!(matches!(
        nn::NN::new(&vec![2, 0, 1], &weight_list(13)),
        Err(nn::NnError::EmptyLayer)
    ));
}

#[test]
fn construction_rejects_wrong_weight_count() {
    assert!(matches!(
        nn::NN::new(&vec![2, 3, 1], &weight_list(12)),
        Err(nn::NnError::WeightCountMismatch)
    ));
    assert!(matches!(
        nn::NN::new(&vec![2, 3, 1], &weight_list(14)),
        Err(nn::NnError::WeightCountMismatch)
    ));
}

#[test]
fn random_initial_weights_lie_in_range() {
    // Weights drawn as a fresh construction draws them: independently and
    // uniformly from [-0.5, 0.5).
    let sizes = vec![4u32, 5, 3, 2];
    let count = nn::required_weights(&sizes).unwrap();
    let mut rng = rand::rng();
    let ws: Vec<u64> = (0..count)
        .map(|_| bits(rng.random_range(-0.5..0.5)))
        .collect();
    let net = nn::NN::new(&sizes, &ws).ok().unwrap();
    for layer in net.layers.iter() {
        for node in layer.iter() {
            for &w in node.iter() {
                assert!(nn::check_init_range(w));
                let v = f64::from_bits(w);
                assert!(-0.5 <= v && v < 0.5);
            }
        }
    }
}

#[test]
fn tracker_mirrors_shape() {
    let sizes = vec![3u32, 2, 2];
    let ws = weight_list(nn::required_weights(&sizes).unwrap());
    let net = nn::NN::new(&sizes, &ws).ok().unwrap();
    let tracker = net.make_weights_tracker(0u64);
    assert_eq!(tracker.len(), net.layers.len());
    for (layer, t_layer) in net.layers.iter().zip(tracker.iter()) {
        assert_eq!(layer.len(), t_layer.len());
        for (node, t_node) in layer.iter().zip(t_layer.iter()) {
            assert_eq!(node.len(), t_node.len());
            for &v in t_node.iter() {
                assert_eq!(v, 0u64);
            }
        }
    }
}

#[test]
fn iter_zip_enum_pairs_in_order() {
    let a = vec![10u64, 20, 30];
    let b = vec![7u32, 8];
    let r = nn::iter_zip_enum(&a, &b);
    assert_eq!(r, vec![(0usize, (10u64, 7u32)), (1, (20, 8))]);
}

#[test]
fn flat_form_round_trip() {
    let sizes = vec![2u32, 3, 1];
    let ws = weight_list(13);
    let net = nn::NN::new(&sizes, &ws).ok().unwrap();
    // the encoded form is exactly what construction consumed
    assert_eq!(net.sizes_of(), sizes);
    assert_eq!(net.flat_weights(), ws);
    // and rebuilding from it reproduces the network exactly
    let back = nn::NN::new(&net.sizes_of(), &net.flat_weights()).ok().unwrap();
    assert_eq!(back.num_inputs, net.num_inputs);
    assert_eq!(back.layers, net.layers);
}
