//! Proofs about the model that the executable code and the stated laws rest on.
pub mod additive;
pub mod division;
pub mod multiplicative;
pub mod ring;
pub mod seqs;
pub mod sums;
