//! An averaged Perceptron: a binary linear classifier through the origin,
//! trained on fixed-dimension feature vectors labelled +1 or -1.
//!
//! Feature values are fixed-point integers. The training rule only looks at
//! the sign of dot products, which a common positive scale of the features
//! does not change, so the engine computes exactly in integer arithmetic and
//! reports the model as a direction; a host that wants a unit vector divides
//! by its length.

pub mod engine;
pub mod error;
pub mod laws;
pub mod sample;
pub mod vector;

pub use engine::{Perceptron, PerceptronState, PerceptronView};
pub use error::PerceptronError;
pub use sample::{Label, Sample, SampleSet};
pub use vector::{dot_product, is_correctly_classified};
