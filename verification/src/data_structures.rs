//! Generic supporting structures: they do not depend on anything specific to
//! the search engine.

pub mod random;
pub mod true_false_vectors;
pub mod vector_pool;

pub use random::RandomGenerator;
pub use true_false_vectors::TFVectors;
pub use vector_pool::VectorPool;
