// End-to-end training scenarios.  The floating-point passes (forward
// evaluation, backpropagation, momentum updates) are implemented here in
// the harness on decoded values; the network model, its validation, the
// halting rule and the chunk schedule all come from the library.

type Layers = Vec<Vec<Vec<f64>>>;

fn decode(net: &nn::NN) -> Layers {
    net.layers
        .iter()
        .map(|l| l.iter().map(|n| n.iter().map(|&w| f64::from_bits(w)).collect()).collect())
        .collect()
}

// deterministic pseudo-random weights in [-0.5, 0.5)
fn mixed_weights(n: usize) -> Vec<u64> {
    let mut state: u64 = 0x2545_f491_4f6c_dd1d;
    let mut ws = Vec::new();
    for _ in 0..n {
        state = state.wrapping_mul(6364136223846793005).wrapping_add(1442695040888963407);
        let v = ((state >> 11) as f64) / ((1u64 << 53) as f64) - 0.5;
        ws.push(v.to_bits());
    }
    ws
}

fn sigmoid(y: f64) -> f64 {
    1f64 / (1f64 + (-y).exp())
}

fn do_run(layers: &Layers, inputs: &[f64]) -> Vec<Vec<f64>> {
    let mut results = vec![inputs.to_vec()];
    for (i, layer) in layers.iter().enumerate() {
        let mut layer_results = Vec::new();
        for node in layer.iter() {
            let mut total = node[0];
            for (w, v) in node[1..].iter().zip(results[i].iter()) {
                total += w * v;
            }
            layer_results.push(sigmoid(total));
        }
        results.push(layer_results);
    }
    results
}

fn calc_error(results: &[Vec<f64>], targets: &[f64]) -> f64 {
    let last = &results[results.len() - 1];
    let mut total = 0f64;
    for (&r, &t) in last.iter().zip(targets.iter()) {
        total += (t - r).powi(2);
    }
    total / (last.len() as f64)
}

fn calc_updates(layers: &Layers, results: &[Vec<f64>], targets: &[f64]) -> Layers {
    let mut errors: Vec<Vec<f64>> = Vec::new();
    let mut updates: Layers = Vec::new();
    let mut next_nodes: Option<&Vec<Vec<f64>>> = None;
    for (li, (nodes, layer_results)) in
        layers.iter().zip(results[1..].iter()).enumerate().rev()
    {
        let prev_results = &results[li];
        let mut layer_errors = Vec::new();
        let mut layer_updates = Vec::new();
        for (ni, (node, &result)) in nodes.iter().zip(layer_results.iter()).enumerate() {
            let node_error = if li == layers.len() - 1 {
                result * (1f64 - result) * (targets[ni] - result)
            } else {
                let mut sum = 0f64;
                let next_errors = &errors[errors.len() - 1];
                for (next_node, &e) in next_nodes.unwrap().iter().zip(next_errors.iter()) {
                    sum += next_node[ni + 1] * e;
                }
                result * (1f64 - result) * sum
            };
            let mut node_updates = Vec::new();
            for wi in 0..node.len() {
                let prev = if wi == 0 { 1f64 } else { prev_results[wi - 1] };
                node_updates.push(node_error * prev);
            }
            layer_errors.push(node_error);
            layer_updates.push(node_updates);
        }
        errors.push(layer_errors);
        updates.push(layer_updates);
        next_nodes = Some(nodes);
    }
    updates.reverse();
    updates
}

fn apply_updates(
    layers: &mut Layers,
    updates: &Layers,
    prev_deltas: &mut Layers,
    rate: f64,
    momentum: f64,
) {
    for i in 0..layers.len() {
        for j in 0..layers[i].len() {
            for k in 0..layers[i][j].len() {
                let delta = rate * updates[i][j][k] + momentum * prev_deltas[i][j][k];
                layers[i][j][k] += delta;
                prev_deltas[i][j][k] = delta;
            }
        }
    }
}

fn zero_tracker(layers: &Layers) -> Layers {
    layers
        .iter()
        .map(|l| l.iter().map(|n| vec![0f64; n.len()]).collect())
        .collect()
}

// One incremental training call; returns the final error and the epochs run.
fn train_incremental(
    layers: &mut Layers,
    examples: &[(Vec<f64>, Vec<f64>)],
    rate: f64,
    momentum: f64,
    halt: nn::HaltCondition,
) -> (f64, u32) {
    let mut prev_deltas = zero_tracker(layers);
    let mut epochs = 0u32;
    let mut error = 0f64;
    loop {
        if nn::should_halt(&halt, epochs, error.to_bits(), 0) {
            break;
        }
        error = 0f64;
        for (inputs, targets) in examples.iter() {
            let results = do_run(layers, inputs);
            let updates = calc_updates(layers, &results, targets);
            error += calc_error(&results, targets);
            apply_updates(layers, &updates, &mut prev_deltas, rate, momentum);
        }
        epochs += 1;
    }
    (error, epochs)
}

// One chunked training call (single-threaded), combining each group's
// updates before applying them; the group schedule comes from the library.
fn train_chunk(
    layers: &mut Layers,
    examples: &[(Vec<f64>, Vec<f64>)],
    rate: f64,
    momentum: f64,
    halt: nn::HaltCondition,
    chunk_size: usize,
) -> (f64, u32) {
    let mut prev_deltas = zero_tracker(layers);
    let mut epochs = 0u32;
    let mut error = 0f64;
    let bounds = nn::chunk_bounds(examples.len(), chunk_size);
    loop {
        if nn::should_halt(&halt, epochs, error.to_bits(), 0) {
            break;
        }
        error = 0f64;
        for &(lo, hi) in bounds.iter() {
            let mut combined = zero_tracker(layers);
            let mut group_err = 0f64;
            for (inputs, targets) in examples[lo..hi].iter() {
                let results = do_run(layers, inputs);
                let updates = calc_updates(layers, &results, targets);
                group_err += calc_error(&results, targets);
                for i in 0..combined.len() {
                    for j in 0..combined[i].len() {
                        for k in 0..combined[i][j].len() {
                            combined[i][j][k] += updates[i][j][k];
                        }
                    }
                }
            }
            error += group_err;
            apply_updates(layers, &combined, &mut prev_deltas, rate, momentum);
        }
        epochs += 1;
    }
    (error, epochs)
}

fn xor_examples() -> Vec<(Vec<f64>, Vec<f64>)> {
    vec![
        (vec![0f64, 0f64], vec![0f64]),
        (vec![0f64, 1f64], vec![1f64]),
        (vec![1f64, 0f64], vec![1f64]),
        (vec![1f64, 1f64], vec![0f64]),
    ]
}

#[test]
fn xor_end_to_end() {
    let sizes = vec![2u32, 3, 1];
    let net = nn::NN::new(&sizes, &mixed_weights(nn::required_weights(&sizes).unwrap()))
        .ok()
        .unwrap();
    let examples = xor_examples();
    // the request the library would dispatch
    let mut opts = net.train();
    assert_eq!(opts.rate(0.3f64.to_bits()), Ok(()));
    assert_eq!(opts.momentum(0.1f64.to_bits()), Ok(()));
    assert_eq!(opts.halt_condition(nn::HaltCondition::Epochs(10000)), Ok(()));
    let bit_examples: Vec<(Vec<u64>, Vec<u64>)> = examples
        .iter()
        .map(|(i, o)| {
            (
                i.iter().map(|v| v.to_bits()).collect(),
                o.iter().map(|v| v.to_bits()).collect(),
            )
        })
        .collect();
    assert_eq!(net.validate_training(&bit_examples, &opts), Ok(()));

    let mut layers = decode(&net);
    let (_, epochs) = train_incremental(&mut layers, &examples, 0.3, 0.1, opts.halt_condition);
    assert_eq!(epochs, 10000);
    for (inputs, outputs) in examples.iter() {
        let results = do_run(&layers, inputs);
        let got = results[results.len() - 1][0].round();
        assert_eq!(got, outputs[0], "wrong output for {:?}", inputs);
    }
}

#[test]
fn epoch_halt_runs_exactly_that_many_epochs() {
    let sizes = vec![2u32, 3, 1];
    let net = nn::NN::new(&sizes, &mixed_weights(13)).ok().unwrap();
    let mut layers = decode(&net);
    let (_, epochs) =
        train_incremental(&mut layers, &xor_examples(), 0.3, 0.1, nn::HaltCondition::Epochs(7));
    assert_eq!(epochs, 7);
}

#[test]
fn error_halt_stops_at_first_epoch_at_or_below_target() {
    let sizes = vec![2u32, 3, 1];
    let net = nn::NN::new(&sizes, &mixed_weights(13)).ok().unwrap();
    // a generous target: one full epoch must still run first
    let mut layers = decode(&net);
    let (error, epochs) =
        train_incremental(&mut layers, &xor_examples(), 0.3, 0.1, nn::HaltCondition::MSE(10.0f64.to_bits()));
    assert_eq!(epochs, 1);
    assert!(error <= 10.0);
}

#[test]
fn single_example_chunk_equals_incremental() {
    // with one example both strategies apply exactly one combined update
    // per epoch, so one epoch leaves the same error and the same weights
    let sizes = vec![2u32, 3, 1];
    let net = nn::NN::new(&sizes, &mixed_weights(13)).ok().unwrap();
    let examples = vec![(vec![0.25f64, 0.75f64], vec![1f64])];

    let mut inc_layers = decode(&net);
    let (inc_err, _) =
        train_incremental(&mut inc_layers, &examples, 0.3, 0.1, nn::HaltCondition::Epochs(1));

    let mut chk_layers = decode(&net);
    let (chk_err, _) = train_chunk(
        &mut chk_layers,
        &examples,
        0.3,
        0.1,
        nn::HaltCondition::Epochs(1),
        examples.len(),
    );

    assert_eq!(inc_err.to_bits(), chk_err.to_bits());
    assert_eq!(
        format!("{:?}", inc_layers),
        format!("{:?}", chk_layers)
    );
}
