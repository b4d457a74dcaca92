//! Engine compatibility warnings.
pub mod warnings;
