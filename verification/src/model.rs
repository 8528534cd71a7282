use vstd::prelude::*;

use crate::bits;

verus! {

/// The reason a request was rejected.  Every invalid condition the library
/// detects is fatal for the operation that met it; the operation reports the
/// condition and leaves its inputs unchanged.
#[derive(Clone, Copy, Debug, PartialEq, Eq, Structural)]
pub enum NnError {
    /// Fewer than two layer sizes were supplied at construction.
    TooFewLayers,
    /// A supplied layer size was zero.
    EmptyLayer,
    /// The supplied weight list does not hold exactly one value per weight.
    WeightCountMismatch,
    /// The learning rate was not strictly positive.
    NonPositiveRate,
    /// The momentum coefficient was not strictly positive.
    NonPositiveMomentum,
    /// A log interval was supplied but was zero.
    ZeroLogInterval,
    /// An epoch-count halt condition was supplied with a zero count.
    ZeroEpochs,
    /// A target-error halt condition was supplied with a non-positive target.
    NonPositiveErrorTarget,
    /// Incremental learning was requested with a thread count other than one.
    IncrementalNotSingleThreaded,
    /// An example's input vector does not match the input-layer size.
    BadInputLength,
    /// An example's target vector does not match the output-layer size.
    BadOutputLength,
}

/// A fully-connected feedforward network.
///
/// `layers` holds every layer after the input layer, in order; each layer
/// holds one entry per node; each node holds one weight pattern per input
/// from the preceding layer, preceded by the bias weight at index zero.
/// Weight values are carried as binary64 bit patterns (see the `bits`
/// module); the arithmetic on the decoded values happens outside this crate.
pub struct NN {
    pub layers: Vec<Vec<Vec<u64>>>,
    pub num_inputs: u32,
}

/// A layer-size list is acceptable: at least an input layer and one further
/// layer, and no layer empty.
pub open spec fn size_list_valid(sizes: Seq<u32>) -> bool {
    &&& sizes.len() >= 2
    &&& forall|i: int| 0 <= i < sizes.len() ==> #[trigger] sizes[i] != 0
}

/// Total number of weights a network over `sizes` stores: for every layer
/// after the first, one node per unit, and one weight per node for each unit
/// of the preceding layer plus the bias.
pub open spec fn weights_needed(sizes: Seq<u32>) -> int
    decreases sizes.len(),
{
    if sizes.len() < 2 {
        0
    } else {
        weights_needed(sizes.drop_last()) + (sizes[sizes.len() - 2] + 1) * sizes[
            sizes.len() - 1
        ]
    }
}

/// Position of weight `k` of node `j` of stored layer `i` in the flat
/// weight list that construction consumes, layer by layer, node by node,
/// bias first.
pub open spec fn weight_index(sizes: Seq<u32>, i: int, j: int, k: int) -> int {
    weights_needed(sizes.take(i + 1)) + j * (sizes[i] + 1) + k
}

/// `i, j, k` address a stored weight of `net`.
pub open spec fn valid_index(net: NN, i: int, j: int, k: int) -> bool {
    &&& 0 <= i < net.layers@.len()
    &&& 0 <= j < net.layers@[i]@.len()
    &&& 0 <= k < net.layers@[i]@[j]@.len()
}

/// `net` is exactly the network built over `sizes` from the flat weight
/// list `ws`: one stored layer per size after the first, one node per unit,
/// each node one weight longer than the preceding layer, and the weights
/// drawn from `ws` in construction order.
pub open spec fn built_from(net: NN, sizes: Seq<u32>, ws: Seq<u64>) -> bool {
    &&& size_list_valid(sizes)
    &&& ws.len() == weights_needed(sizes)
    &&& net.num_inputs == sizes[0]
    &&& net.layers@.len() == sizes.len() - 1
    &&& forall|i: int| 0 <= i < net.layers@.len() ==> #[trigger] net.layers@[i]@.len()
        == sizes[i + 1]
    &&& forall|i: int, j: int|
        0 <= i < net.layers@.len() && 0 <= j < net.layers@[i]@.len()
            ==> #[trigger] net.layers@[i]@[j]@.len() == sizes[i] + 1
    &&& forall|i: int, j: int, k: int|
        valid_index(net, i, j, k) ==> #[trigger] net.layers@[i]@[j]@[k] == ws[weight_index(
            sizes,
            i,
            j,
            k,
        )]
}

impl NN {
    /// The shape invariant every network of this library keeps: at least one
    /// stored layer, no layer empty, and each node exactly one weight longer
    /// than the layer before it (the input layer for the first stored layer).
    pub open spec fn wf(self) -> bool {
        &&& self.layers@.len() >= 1
        &&& self.num_inputs >= 1
        &&& forall|i: int|
            0 <= i < self.layers@.len() ==> 1 <= #[trigger] self.layers@[i]@.len() <= u32::MAX
        &&& forall|j: int|
            0 <= j < self.layers@[0]@.len() ==> #[trigger] self.layers@[0]@[j]@.len()
                == self.num_inputs + 1
        &&& forall|i: int, j: int|
            1 <= i < self.layers@.len() && 0 <= j < self.layers@[i]@.len()
                ==> #[trigger] self.layers@[i]@[j]@.len() == self.layers@[i - 1]@.len() + 1
    }

    /// Number of nodes in the output layer.
    pub open spec fn output_len(self) -> int {
        self.layers@[self.layers@.len() - 1]@.len() as int
    }

    /// The layer-size list this network stands over: the input-layer size,
    /// then the width of each stored layer.
    pub open spec fn sizes_spec(self) -> Seq<u32> {
        Seq::new(
            self.layers@.len() + 1,
            |i: int|
                if i == 0 {
                    self.num_inputs
                } else {
                    self.layers@[i - 1]@.len() as u32
                },
        )
    }
}

/// Decides whether a layer-size list is acceptable for construction.
pub fn layer_sizes_valid(sizes: &Vec<u32>) -> (ok: bool)
    ensures
        ok == size_list_valid(sizes@),
{
    if sizes.len() < 2 {
        return false;
    }
    let n = sizes.len();
    let mut i: usize = 0;
    while i < n
        invariant
            n == sizes@.len(),
            0 <= i <= n,
            forall|a: int| 0 <= a < i ==> #[trigger] sizes@[a] != 0,
        decreases n - i,
    {
        if sizes[i] == 0 {
            return false;
        }
        i += 1;
    }
    true
}

proof fn lemma_wn_step(sizes: Seq<u32>, n: int)
    requires
        2 <= n <= sizes.len(),
    ensures
        weights_needed(sizes.take(n)) == weights_needed(sizes.take(n - 1)) + (sizes[n - 2] + 1)
            * sizes[n - 1],
{
    assert(sizes.take(n).drop_last() =~= sizes.take(n - 1));
    assert(sizes.take(n)[n - 2] == sizes[n - 2]);
    assert(sizes.take(n)[n - 1] == sizes[n - 1]);
}

proof fn lemma_wn_nonneg(sizes: Seq<u32>)
    ensures
        weights_needed(sizes) >= 0,
    decreases sizes.len(),
{
    if sizes.len() >= 2 {
        lemma_wn_nonneg(sizes.drop_last());
        let a = sizes[sizes.len() - 2] as int;
        let b = sizes[sizes.len() - 1] as int;
        assert((a + 1) * b >= 0) by (nonlinear_arith)
            requires
                a >= 0,
                b >= 0,
        ;
    }
}

proof fn lemma_wn_take_mono(sizes: Seq<u32>, m: int, n: int)
    requires
        0 <= m <= n <= sizes.len(),
    ensures
        weights_needed(sizes.take(m)) <= weights_needed(sizes.take(n)),
    decreases n - m,
{
    if m < n {
        lemma_wn_take_mono(sizes, m, n - 1);
        if n >= 2 {
            lemma_wn_step(sizes, n);
            let a = sizes[n - 2] as int;
            let b = sizes[n - 1] as int;
            assert((a + 1) * b >= 0) by (nonlinear_arith)
                requires
                    a >= 0,
                    b >= 0,
            ;
        } else {
            assert(sizes.take(n).len() < 2);
            assert(sizes.take(m).len() < 2);
        }
    }
}

/// Every weight position of a valid shape lies inside the flat weight list.
proof fn lemma_weight_index_bound(sizes: Seq<u32>, i: int, j: int, k: int)
    requires
        size_list_valid(sizes),
        0 <= i <= sizes.len() - 2,
        0 <= j < sizes[i + 1],
        0 <= k < sizes[i] + 1,
    ensures
        weights_needed(sizes.take(i + 1)) <= weight_index(sizes, i, j, k),
        0 <= weight_index(sizes, i, j, k) < weights_needed(sizes),
{
    let w = sizes[i] + 1;
    let cur = sizes[i + 1] as int;
    assert(0 <= j * w && j * w + k < w * cur) by (nonlinear_arith)
        requires
            0 <= j < cur,
            0 <= k < w,
            1 <= w,
    ;
    lemma_wn_nonneg(sizes.take(i + 1));
    lemma_wn_step(sizes, i + 2);
    lemma_wn_take_mono(sizes, i + 2, sizes.len() as int);
    assert(sizes.take(sizes.len() as int) =~= sizes);
}

/// Computes the number of weights a network over `sizes` stores, or `None`
/// where that number does not fit the machine's word.
pub fn required_weights(sizes: &Vec<u32>) -> (r: Option<usize>)
    ensures
        r is Some <==> weights_needed(sizes@) <= usize::MAX,
        r is Some ==> r->0 == weights_needed(sizes@),
{
    let n = sizes.len();
    let mut total: u128 = 0;
    let mut i: usize = 1;
    if n < 2 {
        return Some(0);
    }
    proof {
        assert(sizes@.take(1int).len() < 2);
    }
    while i < n
        invariant
            n == sizes@.len(),
            2 <= n,
            1 <= i <= n,
            total == weights_needed(sizes@.take(i as int)),
            total <= (i - 1) as int * 0x1_0000_0000_0000_0000,
        decreases n - i,
    {
        let prev: u64 = sizes[i - 1] as u64;
        let cur: u64 = sizes[i] as u64;
        proof {
            assert((prev + 1) as int * cur as int <= 0x1_0000_0000_0000_0000) by (nonlinear_arith)
                requires
                    prev + 1 <= 0x1_0000_0000,
                    cur < 0x1_0000_0000,
            ;
            assert(i as int * 0x1_0000_0000_0000_0000 <= 0xFFFF_FFFF_FFFF_FFFF
                * 0x1_0000_0000_0000_0000) by (nonlinear_arith)
                requires
                    i as int <= 0xFFFF_FFFF_FFFF_FFFF,
            ;
            lemma_wn_step(sizes@, i as int + 1);
        }
        let term: u128 = ((prev + 1) as u128) * (cur as u128);
        total = total + term;
        i += 1;
    }
    proof {
        assert(sizes@.take(n as int) =~= sizes@);
    }
    if total <= usize::MAX as u128 {
        Some(total as usize)
    } else {
        None
    }
}

} // verus!

verus! {

impl NN {
    /// Builds the network over the given layer sizes from a flat list of
    /// weight patterns, consumed in order: layer by layer, node by node,
    /// bias weight first.  The first size is the input layer; every later
    /// size adds a stored layer.  Rejects a list of fewer than two sizes,
    /// a zero size, and a weight list of the wrong length, in that order,
    /// and otherwise returns exactly the network `built_from` describes.
    pub fn new(layers_sizes: &Vec<u32>, weights: &Vec<u64>) -> (r: Result<NN, NnError>)
        ensures
            r is Ok <==> size_list_valid(layers_sizes@) && weights@.len() == weights_needed(
                layers_sizes@,
            ),
            (match r {
                Ok(net) => built_from(net, layers_sizes@, weights@) && net.wf(),
                Err(_) => true,
            }),
            layers_sizes@.len() < 2 ==> r == Err::<NN, NnError>(NnError::TooFewLayers),
            layers_sizes@.len() >= 2 && !size_list_valid(layers_sizes@) ==> r == Err::<
                NN,
                NnError,
            >(NnError::EmptyLayer),
            size_list_valid(layers_sizes@) && weights@.len() != weights_needed(layers_sizes@)
                ==> r == Err::<NN, NnError>(NnError::WeightCountMismatch),
    {
        if layers_sizes.len() < 2 {
            return Err(NnError::TooFewLayers);
        }
        if !layer_sizes_valid(layers_sizes) {
            return Err(NnError::EmptyLayer);
        }
        let wl: usize = weights.len();
        let count_ok: bool = match required_weights(layers_sizes) {
            Some(c) => c == wl,
            None => false,
        };
        if !count_ok {
            return Err(NnError::WeightCountMismatch);
        }
        let ghost s = layers_sizes@;
        let total_w: usize = weights.len();
        let n_layers: usize = layers_sizes.len() - 1;
        let mut layers: Vec<Vec<Vec<u64>>> = Vec::new();
        let mut pos: usize = 0;
        let mut li: usize = 0;
        proof {
            assert(s.take(1int).len() < 2);
        }
        while li < n_layers
            invariant
                s == layers_sizes@,
                s.len() == n_layers + 1,
                size_list_valid(s),
                total_w == weights@.len(),
                weights@.len() == weights_needed(s),
                0 <= li <= n_layers,
                layers@.len() == li,
                pos == weights_needed(s.take(li as int + 1)),
                pos <= weights@.len(),
                forall|a: int| 0 <= a < li ==> #[trigger] layers@[a]@.len() == s[a + 1],
                forall|a: int, b: int|
                    0 <= a < li && 0 <= b < layers@[a]@.len() ==> #[trigger] layers@[a]@[b]@.len()
                        == s[a] + 1,
                forall|a: int, b: int, c: int|
                    0 <= a < li && 0 <= b < layers@[a]@.len() && 0 <= c < layers@[a]@[b]@.len()
                        ==> #[trigger] layers@[a]@[b]@[c] == weights@[weight_index(s, a, b, c)],
            decreases n_layers - li,
        {
            let prev: u32 = layers_sizes[li];
            let cur: u32 = layers_sizes[li + 1];
            let mut layer: Vec<Vec<u64>> = Vec::new();
            let mut j: u64 = 0;
            while j < cur as u64
                invariant
                    s == layers_sizes@,
                    s.len() == n_layers + 1,
                    size_list_valid(s),
                    total_w == weights@.len(),
                    weights@.len() == weights_needed(s),
                    0 <= li < n_layers,
                    prev == s[li as int],
                    cur == s[li as int + 1],
                    0 <= j <= cur,
                    layer@.len() == j,
                    pos == weights_needed(s.take(li as int + 1)) + j as int * (prev as int + 1),
                    pos <= weights@.len(),
                    forall|b: int| 0 <= b < j ==> #[trigger] layer@[b]@.len() == prev + 1,
                    forall|b: int, c: int|
                        0 <= b < j && 0 <= c < layer@[b]@.len() ==> #[trigger] layer@[b]@[c]
                            == weights@[weight_index(s, li as int, b, c)],
                decreases cur - j,
            {
                let mut node: Vec<u64> = Vec::new();
                let mut k: u64 = 0;
                while k < prev as u64 + 1
                    invariant
                        s == layers_sizes@,
                        s.len() == n_layers + 1,
                        size_list_valid(s),
                        total_w == weights@.len(),
                        weights@.len() == weights_needed(s),
                        0 <= li < n_layers,
                        prev == s[li as int],
                        cur == s[li as int + 1],
                        0 <= j < cur,
                        0 <= k <= prev + 1,
                        node@.len() == k,
                        pos == weights_needed(s.take(li as int + 1)) + j as int * (prev as int + 1)
                            + k as int,
                        pos <= weights@.len(),
                        forall|c: int|
                            0 <= c < k ==> #[trigger] node@[c] == weights@[weight_index(
                                s,
                                li as int,
                                j as int,
                                c,
                            )],
                    decreases prev + 1 - k,
                {
                    proof {
                        lemma_weight_index_bound(s, li as int, j as int, k as int);
                        assert(pos < total_w);
                    }
                    node.push(weights[pos]);
                    pos = pos + 1;
                    k = k + 1;
                }
                layer.push(node);
                j = j + 1;
                proof {
                    assert(j as int * (prev as int + 1) == (j as int - 1) * (prev as int + 1) + (
                    prev as int + 1)) by (nonlinear_arith);
                    if j < cur {
                        lemma_weight_index_bound(s, li as int, j as int, 0int);
                    } else {
                        lemma_wn_step(s, li as int + 2);
                        lemma_wn_take_mono(s, li as int + 2, s.len() as int);
                        assert(s.take(s.len() as int) =~= s);
                        assert(cur as int * (prev as int + 1) == (prev as int + 1) * cur as int)
                            by (nonlinear_arith);
                    }
                }
            }
            layers.push(layer);
            li = li + 1;
            proof {
                lemma_wn_step(s, li as int + 1);
                assert(cur as int * (prev as int + 1) == (prev as int + 1) * cur as int)
                    by (nonlinear_arith);
                lemma_wn_take_mono(s, li as int + 1, s.len() as int);
                assert(s.take(s.len() as int) =~= s);
            }
        }
        let net = NN { layers, num_inputs: layers_sizes[0] };
        proof {
            assert(s.take(s.len() as int) =~= s);
        }
        Ok(net)
    }
}

/// Every stored weight of a built network is one of the supplied weights;
/// in particular, a network built from a weight list whose every entry lies
/// in the initialization interval [-1/2, 1/2) stores only such weights.
pub proof fn lemma_built_weights_in_range(net: NN, sizes: Seq<u32>, ws: Seq<u64>)
    requires
        built_from(net, sizes, ws),
        forall|n: int| 0 <= n < ws.len() ==> bits::in_init_range(#[trigger] ws[n]),
    ensures
        forall|i: int, j: int, k: int|
            valid_index(net, i, j, k) ==> bits::in_init_range(
                #[trigger] net.layers@[i]@[j]@[k],
            ),
{
    assert forall|i: int, j: int, k: int|
        valid_index(net, i, j, k) implies bits::in_init_range(
        net.layers@[i]@[j]@[k]) by {
        assert(net.layers@[i]@.len() == sizes[i + 1]);
        assert(net.layers@[i]@[j]@.len() == sizes[i] + 1);
        lemma_weight_index_bound(sizes, i, j, k);
        assert(net.layers@[i]@[j]@[k] == ws[weight_index(sizes, i, j, k)]);
    }
}

impl NN {
    /// Builds a structure shaped exactly like this network's weight storage
    /// with every entry equal to `place_holder`.  Training uses such a
    /// structure to hold the previous update applied to each weight and to
    /// accumulate pending updates.
    pub fn make_weights_tracker<T: Copy>(&self, place_holder: T) -> (t: Vec<Vec<Vec<T>>>)
        ensures
            t@.len() == self.layers@.len(),
            forall|i: int| 0 <= i < t@.len() ==> #[trigger] t@[i]@.len() == self.layers@[i]@.len(),
            forall|i: int, j: int|
                0 <= i < t@.len() && 0 <= j < t@[i]@.len() ==> #[trigger] t@[i]@[j]@.len()
                    == self.layers@[i]@[j]@.len(),
            forall|i: int, j: int, k: int|
                0 <= i < t@.len() && 0 <= j < t@[i]@.len() && 0 <= k < t@[i]@[j]@.len()
                    ==> #[trigger] t@[i]@[j]@[k] == place_holder,
    {
        let mut network_level: Vec<Vec<Vec<T>>> = Vec::new();
        let mut i: usize = 0;
        while i < self.layers.len()
            invariant
                0 <= i <= self.layers@.len(),
                network_level@.len() == i,
                forall|a: int|
                    0 <= a < i ==> #[trigger] network_level@[a]@.len() == self.layers@[a]@.len(),
                forall|a: int, b: int|
                    0 <= a < i && 0 <= b < network_level@[a]@.len()
                        ==> #[trigger] network_level@[a]@[b]@.len() == self.layers@[a]@[b]@.len(),
                forall|a: int, b: int, c: int|
                    0 <= a < i && 0 <= b < network_level@[a]@.len() && 0 <= c
                        < network_level@[a]@[b]@.len() ==> #[trigger] network_level@[a]@[b]@[c]
                        == place_holder,
            decreases self.layers@.len() - i,
        {
            let mut layer_level: Vec<Vec<T>> = Vec::new();
            let mut j: usize = 0;
            while j < self.layers[i].len()
                invariant
                    0 <= i < self.layers@.len(),
                    0 <= j <= self.layers@[i as int]@.len(),
                    layer_level@.len() == j,
                    forall|b: int|
                        0 <= b < j ==> #[trigger] layer_level@[b]@.len()
                            == self.layers@[i as int]@[b]@.len(),
                    forall|b: int, c: int|
                        0 <= b < j && 0 <= c < layer_level@[b]@.len()
                            ==> #[trigger] layer_level@[b]@[c] == place_holder,
                decreases self.layers@[i as int]@.len() - j,
            {
                let mut node_level: Vec<T> = Vec::new();
                let mut k: usize = 0;
                while k < self.layers[i][j].len()
                    invariant
                        0 <= i < self.layers@.len(),
                        0 <= j < self.layers@[i as int]@.len(),
                        0 <= k <= self.layers@[i as int]@[j as int]@.len(),
                        node_level@.len() == k,
                        forall|c: int| 0 <= c < k ==> #[trigger] node_level@[c] == place_holder,
                    decreases self.layers@[i as int]@[j as int]@.len() - k,
                {
                    node_level.push(place_holder);
                    k = k + 1;
                }
                layer_level.push(node_level);
                j = j + 1;
            }
            network_level.push(layer_level);
            i = i + 1;
        }
        network_level
    }
}

/// Pairs the entries of two lists position by position, tagging each pair
/// with its index; stops at the end of the shorter list.
pub fn iter_zip_enum<S: Copy, T: Copy>(s: &Vec<S>, t: &Vec<T>) -> (r: Vec<(usize, (S, T))>)
    ensures
        r@.len() == if s@.len() <= t@.len() {
            s@.len()
        } else {
            t@.len()
        },
        forall|i: int| 0 <= i < r@.len() ==> #[trigger] r@[i] == (i as usize, (s@[i], t@[i])),
{
    let n: usize = if s.len() <= t.len() {
        s.len()
    } else {
        t.len()
    };
    let mut r: Vec<(usize, (S, T))> = Vec::new();
    let mut i: usize = 0;
    while i < n
        invariant
            n == if s@.len() <= t@.len() {
                s@.len()
            } else {
                t@.len()
            },
            0 <= i <= n,
            r@.len() == i,
            forall|a: int| 0 <= a < i ==> #[trigger] r@[a] == (a as usize, (s@[a], t@[a])),
        decreases n - i,
    {
        r.push((i, (s[i], t[i])));
        i = i + 1;
    }
    r
}

} // verus!

verus! {

impl NN {
    /// The layer-size list this network stands over, as `NN::new` took it:
    /// the input-layer size first, then the width of each stored layer.
    /// With `flat_weights` this pair is the network's whole content.
    #[verifier::loop_isolation(false)]
    pub fn sizes_of(&self) -> (r: Vec<u32>)
        requires
            self.wf(),
        ensures
            r@ == self.sizes_spec(),
            size_list_valid(r@),
    {
        let mut r: Vec<u32> = Vec::new();
        r.push(self.num_inputs);
        let mut i: usize = 0;
        while i < self.layers.len()
            invariant
                self.wf(),
                0 <= i <= self.layers@.len(),
                r@.len() == i + 1,
                forall|a: int| #![trigger r@[a]] 0 <= a < i + 1 ==> r@[a] == self.sizes_spec()[a],
            decreases self.layers@.len() - i,
        {
            r.push(self.layers[i].len() as u32);
            i = i + 1;
        }
        proof {
            assert(r@ =~= self.sizes_spec());
        }
        r
    }

    /// The network's weights as the flat list `NN::new` consumes: layer by
    /// layer, node by node, bias weight first.  Together with `sizes_of`
    /// this is the encoded form of the network, and rebuilding from the
    /// pair reproduces the network exactly (`lemma_built_from_unique`).
    #[verifier::loop_isolation(false)]
    #[verifier::rlimit(50)]
    pub fn flat_weights(&self) -> (r: Vec<u64>)
        requires
            self.wf(),
        ensures
            built_from(*self, self.sizes_spec(), r@),
    {
        let ghost s = self.sizes_spec();
        proof {
            assert(s.take(1int).len() < 2);
            assert forall|a: int, b: int|
                0 <= a < self.layers@.len() && 0 <= b < self.layers@[a]@.len()
                    implies #[trigger] self.layers@[a]@[b]@.len() == s[a] + 1 by {
                if a == 0 {
                    assert(self.layers@[0]@[b]@.len() == self.num_inputs + 1);
                } else {
                    assert(self.layers@[a]@[b]@.len() == self.layers@[a - 1]@.len() + 1);
                }
            }
        }
        let mut r: Vec<u64> = Vec::new();
        let mut li: usize = 0;
        while li < self.layers.len()
            invariant
                self.wf(),
                s == self.sizes_spec(),
                size_list_valid(s),
                forall|a: int, b: int|
                    0 <= a < self.layers@.len() && 0 <= b < self.layers@[a]@.len()
                        ==> #[trigger] self.layers@[a]@[b]@.len() == s[a] + 1,
                0 <= li <= self.layers@.len(),
                r@.len() == weights_needed(s.take(li as int + 1)),
                forall|a: int, b: int, c: int|
                    #![auto]
                    0 <= a < li && 0 <= b < self.layers@[a]@.len() && 0 <= c
                        < self.layers@[a]@[b]@.len() ==> 0 <= weight_index(s, a, b, c) < r@.len()
                        && r@[weight_index(s, a, b, c)] == self.layers@[a]@[b]@[c],
            decreases self.layers@.len() - li,
        {
            let ghost li0 = li as int;
            let mut j: usize = 0;
            while j < self.layers[li].len()
                invariant
                    self.wf(),
                    s == self.sizes_spec(),
                    size_list_valid(s),
                    forall|a: int, b: int|
                        0 <= a < self.layers@.len() && 0 <= b < self.layers@[a]@.len()
                            ==> #[trigger] self.layers@[a]@[b]@.len() == s[a] + 1,
                    0 <= li < self.layers@.len(),
                    li == li0,
                    0 <= j <= self.layers@[li0]@.len(),
                    r@.len() == weights_needed(s.take(li0 + 1)) + j as int * (s[li0] + 1),
                    forall|a: int, b: int, c: int|
                        #![auto]
                        0 <= a < li && 0 <= b < self.layers@[a]@.len() && 0 <= c
                            < self.layers@[a]@[b]@.len() ==> 0 <= weight_index(s, a, b, c) < r@.len()
                            && r@[weight_index(s, a, b, c)] == self.layers@[a]@[b]@[c],
                    forall|b: int, c: int|
                        #![auto]
                        0 <= b < j && 0 <= c < self.layers@[li0]@[b]@.len() ==> weight_index(
                            s,
                            li0,
                            b,
                            c,
                        ) >= 0 && weight_index(s, li0, b, c) < r@.len() && r@[weight_index(s, li0, b, c)] == self.layers@[li0]@[b]@[c],
                decreases self.layers@[li0]@.len() - j,
            {
                let ghost j0 = j as int;
                let mut k: usize = 0;
                while k < self.layers[li][j].len()
                    invariant
                        self.wf(),
                        s == self.sizes_spec(),
                        size_list_valid(s),
                        forall|a: int, b: int|
                            0 <= a < self.layers@.len() && 0 <= b < self.layers@[a]@.len()
                                ==> #[trigger] self.layers@[a]@[b]@.len() == s[a] + 1,
                        0 <= li < self.layers@.len(),
                        li == li0,
                        j == j0,
                        0 <= j < self.layers@[li0]@.len(),
                        0 <= k <= self.layers@[li0]@[j0]@.len(),
                        r@.len() == weights_needed(s.take(li0 + 1)) + j as int * (s[li0] + 1)
                            + k as int,
                        forall|a: int, b: int, c: int|
                            #![auto]
                            0 <= a < li && 0 <= b < self.layers@[a]@.len() && 0 <= c
                                < self.layers@[a]@[b]@.len() ==> 0 <= weight_index(s, a, b, c)
                                < r@.len() && r@[weight_index(s, a, b, c)]
                                == self.layers@[a]@[b]@[c],
                        forall|b: int, c: int|
                            #![auto]
                            0 <= b < j && 0 <= c < self.layers@[li0]@[b]@.len() ==> weight_index(
                                s,
                                li0,
                                b,
                                c,
                            ) >= 0 && weight_index(s, li0, b, c) < r@.len() && r@[weight_index(s, li0, b, c)]
                                == self.layers@[li0]@[b]@[c],
                        forall|c: int|
                            #![auto]
                            0 <= c < k ==> 0 <= weight_index(s, li0, j0, c) < r@.len() && r@[weight_index(
                                s,
                                li0,
                                j0,
                                c,
                            )] == self.layers@[li0]@[j0]@[c],
                    decreases self.layers@[li0]@[j0]@.len() - k,
                {
                    let ghost r0 = r@;
                    r.push(self.layers[li][j][k]);
                    proof {
                        assert(r@ == r0.push(self.layers@[li0]@[j0]@[k as int]));
                        assert forall|a: int, b: int, c: int|
                            0 <= a < li && 0 <= b < self.layers@[a]@.len() && 0 <= c
                                < self.layers@[a]@[b]@.len() implies 0 <= weight_index(s, a, b, c)
                            < r@.len() && r@[weight_index(s, a, b, c)]
                            == #[trigger] self.layers@[a]@[b]@[c] by {
                            assert(0 <= weight_index(s, a, b, c) < r0.len());
                            assert(r0[weight_index(s, a, b, c)] == self.layers@[a]@[b]@[c]);
                        }
                        assert forall|b: int, c: int|
                            0 <= b < j && 0 <= c < self.layers@[li0]@[b]@.len() implies weight_index(
                            s,
                            li0,
                            b,
                            c,
                        ) >= 0 && weight_index(s, li0, b, c) < r@.len() && r@[weight_index(s, li0, b, c)]
                            == #[trigger] self.layers@[li0]@[b]@[c] by {
                            assert(0 <= weight_index(s, li0, b, c) < r0.len());
                            assert(r0[weight_index(s, li0, b, c)] == self.layers@[li0]@[b]@[c]);
                        }
                        assert forall|c: int|
                            0 <= c < k + 1 implies 0 <= weight_index(s, li0, j0, c) < r@.len()
                            && r@[weight_index(s, li0, j0, c)]
                            == #[trigger] self.layers@[li0]@[j0]@[c] by {
                            if c < k {
                                assert(r0[weight_index(s, li0, j0, c)]
                                    == self.layers@[li0]@[j0]@[c]);
                            } else {
                                assert(weight_index(s, li0, j0, c) == r0.len());
                            }
                        }
                    }
                    k = k + 1;
                }
                j = j + 1;
                proof {
                    assert(j as int * (s[li0] + 1) == (j as int - 1) * (s[li0] + 1) + (s[li0] + 1))
                        by (nonlinear_arith);
                    assert forall|b: int, c: int|
                        0 <= b < j && 0 <= c < self.layers@[li0]@[b]@.len() implies weight_index(
                        s,
                        li0,
                        b,
                        c,
                    ) >= 0 && weight_index(s, li0, b, c) < r@.len() && r@[weight_index(s, li0, b, c)]
                        == #[trigger] self.layers@[li0]@[b]@[c] by {
                        if b == j0 {
                            assert(self.layers@[li0]@[j0]@[c] == self.layers@[li0]@[b]@[c]);
                        }
                    }
                }
            }
            li = li + 1;
            proof {
                lemma_wn_step(s, li as int + 1);
                let w = s[li0] + 1;
                let cur = s[li0 + 1] as int;
                assert(self.layers@[li0]@.len() as int * w == weights_needed(s.take(li as int + 1))
                    - weights_needed(s.take(li0 + 1))) by {
                    assert(self.layers@[li0]@.len() == s[li0 + 1]);
                    assert(s[li0 + 1] as int * w == w * s[li0 + 1] as int) by (nonlinear_arith);
                }
                assert forall|a: int, b: int, c: int|
                    0 <= a < li && 0 <= b < self.layers@[a]@.len() && 0 <= c
                        < self.layers@[a]@[b]@.len() implies weight_index(s, a, b, c) < r@.len()
                    && r@[weight_index(s, a, b, c)] == #[trigger] self.layers@[a]@[b]@[c] by {
                    if a == li0 {
                        assert(self.layers@[li0]@[b]@[c] == self.layers@[a]@[b]@[c]);
                    }
                }
            }
        }
        proof {
            assert(s.take(s.len() as int) =~= s);
        }
        r
    }
}

/// The flat form determines the network: two networks built over the same
/// sizes from the same weight list agree on the input size, on every layer
/// and node width, and on the weight at every position.  So a network
/// rebuilt from its encoded form (`sizes_of`, `flat_weights`) reproduces
/// the network it came from, value for value.
pub proof fn lemma_built_from_unique(a: NN, b: NN, sizes: Seq<u32>, ws: Seq<u64>)
    requires
        built_from(a, sizes, ws),
        built_from(b, sizes, ws),
    ensures
        a.num_inputs == b.num_inputs,
        a.layers@.len() == b.layers@.len(),
        forall|i: int|
            0 <= i < a.layers@.len() ==> #[trigger] a.layers@[i]@.len() == b.layers@[i]@.len(),
        forall|i: int, j: int|
            0 <= i < a.layers@.len() && 0 <= j < a.layers@[i]@.len()
                ==> #[trigger] a.layers@[i]@[j]@.len() == b.layers@[i]@[j]@.len(),
        forall|i: int, j: int, k: int|
            valid_index(a, i, j, k) ==> #[trigger] a.layers@[i]@[j]@[k] == b.layers@[i]@[j]@[k],
{
    assert forall|i: int, j: int, k: int|
        valid_index(a, i, j, k) implies #[trigger] a.layers@[i]@[j]@[k]
        == b.layers@[i]@[j]@[k] by {
        assert(a.layers@[i]@.len() == sizes[i + 1]);
        assert(a.layers@[i]@[j]@.len() == sizes[i] + 1);
        assert(valid_index(b, i, j, k));
    }
}

} // verus!
