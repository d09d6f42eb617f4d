pub mod prover;
