//! Sets whose membership test is only approximately correct: a reported
//! member may be absent, but a reported non-member is certainly absent.

pub mod approximate_set_trait;
pub mod ored_integer_set;

pub use approximate_set_trait::ApproximateSet;
pub use ored_integer_set::OredIntegerSet;
