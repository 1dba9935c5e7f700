use vstd::prelude::*;

verus! {

/// Why an operation of the registry was refused.
#[derive(Debug, Clone, PartialEq, Eq)]
pub enum VotingError {
    /// The identity was never registered.
    VoterNotRegistered,
    /// The proof was well formed, but the proof system rejected it.
    InvalidProof,
    /// A ballot was already recorded for the identity.
    AlreadyVoted,
    /// The proof system itself failed (key material, internal fault).
    ZoKratesError(String),
    /// The proof payload could not be read.
    SerializationError(String),
}

impl VotingError {
    /// A short human-readable description of the error.
    pub fn message(&self) -> (r: String)
        ensures
            r@ == match self {
                VotingError::VoterNotRegistered => "Voter not registered"@,
                VotingError::InvalidProof => "Invalid proof"@,
                VotingError::AlreadyVoted => "Voter has already voted"@,
                VotingError::ZoKratesError(m) => "ZoKrates error: "@ + m@,
                VotingError::SerializationError(m) => "Serialization error: "@ + m@,
            },
    {
        match self {
            VotingError::VoterNotRegistered => "Voter not registered".to_owned(),
            VotingError::InvalidProof => "Invalid proof".to_owned(),
            VotingError::AlreadyVoted => "Voter has already voted".to_owned(),
            VotingError::ZoKratesError(m) => {
                let mut s = "ZoKrates error: ".to_owned();
                s.append(m.as_str());
                s
            },
            VotingError::SerializationError(m) => {
                let mut s = "Serialization error: ".to_owned();
                s.append(m.as_str());
                s
            },
        }
    }
}

} // verus!
