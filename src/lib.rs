//! A proof-gated ballot registry: registered voters cast one yes/no vote
//! each, after a zero-knowledge proof that they know the secret behind
//! their published commitment.
pub mod commitment;
pub mod error;
pub mod laws;
pub mod registry;

pub use commitment::compute_hash;
pub use error::VotingError;
pub use registry::{Voter, VotingSystem};
