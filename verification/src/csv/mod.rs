//! The rows of the input and output files, as values.
pub mod account;
pub mod tx;
