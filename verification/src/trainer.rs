use vstd::prelude::*;

use crate::bits;
use crate::model::NN;
use crate::model::NnError;

verus! {

/// When to stop training; checked once per completed epoch, never before at
/// least one full pass over the examples has run.
#[derive(Clone, Copy, Debug, PartialEq, Eq, Structural)]
pub enum HaltCondition {
    /// Stop once exactly this many epochs have run.
    Epochs(u32),
    /// Stop once the epoch's accumulated error (given as a binary64 bit
    /// pattern) is at or below this target pattern's value.
    MSE(u64),
    /// Stop at the first epoch boundary at or after this many milliseconds
    /// of training time have elapsed.
    Timer(i64),
}

/// How weight updates are applied while training.
#[derive(Clone, Copy, Debug, PartialEq, Eq, Structural)]
pub enum LearningMode {
    /// Apply an update immediately after each example; single-threaded only.
    Incremental,
    /// Combine the updates of a group of examples and apply them at once;
    /// groups may be evaluated by several threads.
    Chunk,
}

/// Bit pattern of the default learning rate, three tenths.
pub const DEFAULT_LEARNING_RATE_BITS: u64 = 0x3FD3_3333_3333_3333;

/// Bit pattern of the default momentum coefficient, zero.
pub const DEFAULT_MOMENTUM_BITS: u64 = 0;

/// Default number of epochs to train for.
pub const DEFAULT_EPOCHS: u32 = 1000;

/// Default number of examples evaluated per group in chunked training.
pub const DEFAULT_CHUNK_SIZE: usize = 10;

/// The options of one training call.  Obtained from `NN::train` with every
/// field at its default; each setter validates its value and stores it, and
/// the unverified training driver reads the stored options.
#[derive(Clone, Copy, Debug)]
pub struct Trainer {
    /// Learning rate as a binary64 bit pattern; strictly positive.
    pub rate: u64,
    /// Momentum coefficient as a binary64 bit pattern.
    pub momentum: u64,
    /// Log the accumulated error every this many epochs; `None` is silent.
    pub log_interval: Option<u32>,
    /// When training stops.
    pub halt_condition: HaltCondition,
    /// How updates are applied.
    pub learning_mode: LearningMode,
    /// Worker threads for chunked training.
    pub num_threads: usize,
    /// Examples per group in chunked training.
    pub chunk_size: usize,
}

/// The options every training call starts from.
pub open spec fn default_trainer() -> Trainer {
    Trainer {
        rate: DEFAULT_LEARNING_RATE_BITS,
        momentum: DEFAULT_MOMENTUM_BITS,
        log_interval: None,
        halt_condition: HaltCondition::Epochs(DEFAULT_EPOCHS),
        learning_mode: LearningMode::Incremental,
        num_threads: 1,
        chunk_size: DEFAULT_CHUNK_SIZE,
    }
}

impl NN {
    /// Begins a training request on this network: returns the options value
    /// holding every default, ready for the setters below.
    pub fn train(&self) -> (t: Trainer)
        ensures
            t == default_trainer(),
    {
        Trainer {
            rate: DEFAULT_LEARNING_RATE_BITS,
            momentum: DEFAULT_MOMENTUM_BITS,
            log_interval: None,
            halt_condition: HaltCondition::Epochs(DEFAULT_EPOCHS),
            learning_mode: LearningMode::Incremental,
            num_threads: 1,
            chunk_size: DEFAULT_CHUNK_SIZE,
        }
    }
}

impl Trainer {
    /// Sets the learning rate (a binary64 bit pattern); rejected unless the
    /// rate is strictly positive.
    pub fn rate(&mut self, rate: u64) -> (r: Result<(), NnError>)
        ensures
            r is Ok <==> bits::positive_bits(rate),
            r is Ok ==> *final(self) == (Trainer { rate: rate, ..*old(self) }),
            r is Err ==> *final(self) == *old(self) && r == Err::<(), NnError>(
                NnError::NonPositiveRate,
            ),
    {
        if bits::cmp_positive_bits(rate) {
            self.rate = rate;
            Ok(())
        } else {
            Err(NnError::NonPositiveRate)
        }
    }

    /// Sets the momentum coefficient (a binary64 bit pattern); rejected
    /// unless the coefficient is strictly positive.  The default momentum is
    /// zero and never passes through this check; an explicitly set momentum
    /// of zero is rejected all the same.
    pub fn momentum(&mut self, momentum: u64) -> (r: Result<(), NnError>)
        ensures
            r is Ok <==> bits::positive_bits(momentum),
            r is Ok ==> *final(self) == (Trainer { momentum: momentum, ..*old(self) }),
            r is Err ==> *final(self) == *old(self) && r == Err::<(), NnError>(
                NnError::NonPositiveMomentum,
            ),
    {
        if bits::cmp_positive_bits(momentum) {
            self.momentum = momentum;
            Ok(())
        } else {
            Err(NnError::NonPositiveMomentum)
        }
    }

    /// Sets how often (in epochs) the accumulated error is logged; `None`
    /// silences logging, and a present interval of zero is rejected.
    pub fn log_interval(&mut self, log_interval: Option<u32>) -> (r: Result<(), NnError>)
        ensures
            r is Ok <==> log_interval != Some(0u32),
            r is Ok ==> *final(self) == (Trainer { log_interval: log_interval, ..*old(self) }),
            r is Err ==> *final(self) == *old(self) && r == Err::<(), NnError>(
                NnError::ZeroLogInterval,
            ),
    {
        match log_interval {
            Some(interval) if interval < 1 => Err(NnError::ZeroLogInterval),
            _ => {
                self.log_interval = log_interval;
                Ok(())
            },
        }
    }

    /// Sets when training stops: an epoch count must be positive, an error
    /// target's value must be strictly positive, and a timer needs no check.
    pub fn halt_condition(&mut self, halt_condition: HaltCondition) -> (r: Result<(), NnError>)
        ensures
            r is Ok <==> (match halt_condition {
                HaltCondition::Epochs(n) => n > 0,
                HaltCondition::MSE(target) => bits::positive_bits(target),
                HaltCondition::Timer(_) => true,
            }),
            r is Ok ==> *final(self) == (Trainer {
                halt_condition: halt_condition,
                ..*old(self)
            }),
            r is Err ==> *final(self) == *old(self),
            (match halt_condition {
                HaltCondition::Epochs(n) => n == 0 ==> r == Err::<(), NnError>(NnError::ZeroEpochs),
                HaltCondition::MSE(target) => !bits::positive_bits(target) ==> r == Err::<
                    (),
                    NnError,
                >(NnError::NonPositiveErrorTarget),
                HaltCondition::Timer(_) => true,
            }),
    {
        match halt_condition {
            HaltCondition::Epochs(n) => {
                if n == 0 {
                    return Err(NnError::ZeroEpochs);
                }
            },
            HaltCondition::MSE(target) => {
                if !bits::cmp_positive_bits(target) {
                    return Err(NnError::NonPositiveErrorTarget);
                }
            },
            HaltCondition::Timer(_) => {},
        }
        self.halt_condition = halt_condition;
        Ok(())
    }

    /// Sets how updates are applied; no validation here — the cross-field
    /// rule against multi-threaded incremental training is enforced at
    /// dispatch by `NN::validate_training`.
    pub fn learning_mode(&mut self, learning_mode: LearningMode)
        ensures
            *final(self) == (Trainer { learning_mode: learning_mode, ..*old(self) }),
    {
        self.learning_mode = learning_mode;
    }

    /// Sets the number of worker threads used by chunked training.
    pub fn num_threads(&mut self, num_threads: usize)
        ensures
            *final(self) == (Trainer { num_threads: num_threads, ..*old(self) }),
    {
        self.num_threads = num_threads;
    }

    /// Sets the number of examples evaluated per group in chunked training.
    pub fn chunk_size(&mut self, chunk_size: usize)
        ensures
            *final(self) == (Trainer { chunk_size: chunk_size, ..*old(self) }),
    {
        self.chunk_size = chunk_size;
    }
}

/// The error of the finished epoch is due to be logged: a log interval is
/// set, at least one epoch has completed, and the epoch count is a multiple
/// of the interval.
pub open spec fn logging_due(log_interval: Option<u32>, epochs: u32) -> bool {
    match log_interval {
        Some(interval) => interval > 0 && epochs > 0 && epochs % interval == 0,
        None => false,
    }
}

/// Decides `logging_due` for the epoch that just completed.
pub fn should_log(log_interval: Option<u32>, epochs: u32) -> (b: bool)
    ensures
        b == logging_due(log_interval, epochs),
{
    match log_interval {
        Some(interval) => interval > 0 && epochs > 0 && epochs % interval == 0,
        None => false,
    }
}

/// Training is due to stop: at least one epoch has completed, and the halt
/// condition is met — the epoch counter has reached a fixed count, or the
/// epoch's accumulated error is at or below the target value, or the
/// configured duration has elapsed.  Checked only at epoch boundaries, so a
/// training call never stops mid-epoch and never before one full pass.
pub open spec fn halt_due(halt: HaltCondition, epochs: u32, error_bits: u64, elapsed_ms: i64) -> bool {
    epochs > 0 && (match halt {
        HaltCondition::Epochs(n) => epochs == n,
        HaltCondition::MSE(target) => bits::le_bits(error_bits, target),
        HaltCondition::Timer(ms) => elapsed_ms >= ms,
    })
}

/// Decides `halt_due` at an epoch boundary.  `error_bits` is the bit
/// pattern of the accumulated error of the epoch that just completed;
/// `elapsed_ms` the milliseconds since the training call began.
pub fn should_halt(halt: &HaltCondition, epochs: u32, error_bits: u64, elapsed_ms: i64) -> (b: bool)
    ensures
        b == halt_due(*halt, epochs, error_bits, elapsed_ms),
{
    if epochs == 0 {
        return false;
    }
    match halt {
        HaltCondition::Epochs(n) => epochs == *n,
        HaltCondition::MSE(target) => bits::cmp_le_bits(error_bits, *target),
        HaltCondition::Timer(ms) => elapsed_ms >= *ms,
    }
}

/// `r` is the grouping of `len` examples into consecutive chunks of
/// `chunk_size`: groups in order, covering every index once, every group
/// full except possibly the last.
pub open spec fn chunk_layout(r: Seq<(usize, usize)>, len: int, chunk_size: int) -> bool {
    &&& (r.len() == 0 <==> len == 0)
    &&& (r.len() >= 1 ==> r[0].0 == 0 && r[r.len() - 1].1 == len)
    &&& forall|i: int| #![trigger r[i]] 0 <= i < r.len() ==> r[i].0 < r[i].1 <= len
    &&& forall|i: int| #![trigger r[i]] 0 <= i < r.len() - 1 ==> r[i].1 == r[i + 1].0
    &&& forall|i: int| #![trigger r[i]] 0 <= i < r.len() - 1 ==> r[i].1 - r[i].0 == chunk_size
    &&& forall|i: int| #![trigger r[i]] 0 <= i < r.len() ==> r[i].1 - r[i].0 <= chunk_size
}

/// Splits `len` examples into the consecutive half-open index ranges that
/// chunked training processes in order, each of `chunk_size` examples but
/// for a possibly smaller final range.
pub fn chunk_bounds(len: usize, chunk_size: usize) -> (r: Vec<(usize, usize)>)
    requires
        chunk_size >= 1,
    ensures
        chunk_layout(r@, len as int, chunk_size as int),
{
    let mut r: Vec<(usize, usize)> = Vec::new();
    let mut start: usize = 0;
    while start < len
        invariant
            chunk_size >= 1,
            start <= len,
            (r@.len() == 0 <==> start == 0),
            r@.len() >= 1 ==> r@[0].0 == 0 && r@[r@.len() - 1].1 == start,
            forall|i: int| #![trigger r@[i]] 0 <= i < r@.len() ==> r@[i].0 < r@[i].1 <= start,
            forall|i: int| #![trigger r@[i]] 0 <= i < r@.len() - 1 ==> r@[i].1 == r@[i + 1].0,
            forall|i: int|
                #![trigger r@[i]]
                0 <= i < r@.len() - 1 ==> r@[i].1 - r@[i].0 == chunk_size,
            forall|i: int|
                #![trigger r@[i]]
                0 <= i < r@.len() ==> r@[i].1 - r@[i].0 <= chunk_size,
            r@.len() >= 1 ==> (r@[r@.len() - 1].1 - r@[r@.len() - 1].0 == chunk_size || r@[r@.len()
                - 1].1 == len),
        decreases len - start,
    {
        let remaining = len - start;
        let end = if remaining < chunk_size {
            len
        } else {
            start + chunk_size
        };
        r.push((start, end));
        start = end;
    }
    r
}

/// Degenerate chunked schedule: with the chunk size at least the number of
/// examples, an epoch has exactly one group, covering every example — so
/// the epoch applies exactly one combined update, computed from every
/// example against the same starting weights.
pub proof fn lemma_single_chunk(r: Seq<(usize, usize)>, len: usize, chunk_size: usize)
    requires
        chunk_layout(r, len as int, chunk_size as int),
        1 <= len <= chunk_size,
    ensures
        r =~= seq![(0usize, len)],
{
    assert(r.len() >= 1);
    if r.len() >= 2 {
        assert(r[0].1 - r[0].0 == chunk_size);
        assert(r[0].1 <= len);
        assert(r[1].0 == r[0].1);
        assert(r[1].1 > r[1].0);
        assert(r[1].1 <= len);
        assert(false);
    }
    assert(r[0].0 == 0 && r[0].1 == len);
}


/// The shape check a training request makes on every example, in order:
/// the first example whose input does not fit the input layer, or (checked
/// second for that example) whose target does not fit the output layer,
/// decides the error.
pub open spec fn examples_check(n_in: int, n_out: int, exs: Seq<(Vec<u64>, Vec<u64>)>) -> Result<
    (),
    NnError,
>
    decreases exs.len(),
{
    if exs.len() == 0 {
        Ok(())
    } else if exs[0].0@.len() != n_in {
        Err(NnError::BadInputLength)
    } else if exs[0].1@.len() != n_out {
        Err(NnError::BadOutputLength)
    } else {
        examples_check(n_in, n_out, exs.drop_first())
    }
}

/// Everything the terminal training action checks before any training
/// happens: first the examples against the network's layers, then the rule
/// that incremental learning is single-threaded.
pub open spec fn dispatch_check(net: NN, exs: Seq<(Vec<u64>, Vec<u64>)>, t: Trainer) -> Result<
    (),
    NnError,
> {
    if examples_check(net.num_inputs as int, net.output_len(), exs) is Err {
        examples_check(net.num_inputs as int, net.output_len(), exs)
    } else if t.learning_mode == LearningMode::Incremental && t.num_threads != 1 {
        Err(NnError::IncrementalNotSingleThreaded)
    } else {
        Ok(())
    }
}

impl NN {
    /// Validates a training request and decides the dispatch: every
    /// example's input must match the input-layer size and its target the
    /// output-layer size, and incremental learning is permitted only with a
    /// thread count of one.  Returns `Ok` exactly when training may begin;
    /// the unverified driver runs the epochs only after this check.
    pub fn validate_training(
        &self,
        examples: &Vec<(Vec<u64>, Vec<u64>)>,
        t: &Trainer,
    ) -> (r: Result<(), NnError>)
        requires
            self.wf(),
        ensures
            r == dispatch_check(*self, examples@, *t),
    {
        let ghost n_in = self.num_inputs as int;
        let n_layers = self.layers.len();
        let n_out = self.layers[n_layers - 1].len();
        proof {
            assert(examples@.skip(0int) =~= examples@);
        }
        let mut i: usize = 0;
        while i < examples.len()
            invariant
                self.wf(),
                n_in == self.num_inputs as int,
                n_out as int == self.output_len(),
                0 <= i <= examples@.len(),
                examples_check(n_in, n_out as int, examples@) == examples_check(
                    n_in,
                    n_out as int,
                    examples@.skip(i as int),
                ),
            decreases examples@.len() - i,
        {
            let ex = &examples[i];
            proof {
                assert(examples@.skip(i as int)[0] == examples@[i as int]);
                assert(examples@.skip(i as int).drop_first() =~= examples@.skip(i as int + 1));
            }
            if ex.0.len() != self.num_inputs as usize {
                return Err(NnError::BadInputLength);
            }
            if ex.1.len() != n_out {
                return Err(NnError::BadOutputLength);
            }
            i += 1;
        }
        if matches!(t.learning_mode, LearningMode::Incremental) && t.num_threads != 1 {
            return Err(NnError::IncrementalNotSingleThreaded);
        }
        Ok(())
    }
}

} // verus!
