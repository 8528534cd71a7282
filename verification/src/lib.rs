//! A small fully-connected feedforward neural-network library: the layered
//! weight model, construction and validation, the training-options builder,
//! and the decision logic of the training loop, all specified over a
//! bit-pattern model of double-precision values (see the `bits` module).
//! The numeric passes that interpret those patterns run outside this crate
//! and consult the functions here for every decision.

pub mod bits;
pub mod model;
pub mod trainer;

pub use bits::check_init_range;
pub use bits::cmp_le_bits;
pub use bits::cmp_positive_bits;
pub use model::iter_zip_enum;
pub use model::layer_sizes_valid;
pub use model::lemma_built_from_unique;
pub use model::lemma_built_weights_in_range;
pub use model::required_weights;
pub use model::NnError;
pub use model::NN;
pub use trainer::chunk_bounds;
pub use trainer::lemma_single_chunk;
pub use trainer::should_halt;
pub use trainer::should_log;
pub use trainer::HaltCondition;
pub use trainer::LearningMode;
pub use trainer::Trainer;
pub use trainer::DEFAULT_CHUNK_SIZE;
pub use trainer::DEFAULT_EPOCHS;
pub use trainer::DEFAULT_LEARNING_RATE_BITS;
pub use trainer::DEFAULT_MOMENTUM_BITS;
