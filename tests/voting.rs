use zkp_voting_system::{compute_hash, VotingError, VotingSystem};

// The proof system's answer on a proof that it accepts.
fn accepted() -> Result<bool, VotingError> {
    Ok(true)
}

#[test]
fn test_voter_registration() {
    let mut system = VotingSystem::new().unwrap();
    system.register_voter("Alice");
    assert!(system
        .get_registered_voters()
        .contains(&"Alice".to_string()));
}

#[test]
fn test_voting_process() {
    let mut system = VotingSystem::new().unwrap();
    system.register_voter("Bob");

    let (secret, public_input) = system.proof_witness("Bob").unwrap();
    assert_eq!(system.vote_public_input("Bob"), Ok(compute_hash(secret)));
    assert_eq!(public_input, compute_hash(secret));
    assert_eq!(Some(hex::encode(&public_input)), system.get_voter_hash("Bob"));
    assert!(system.cast_vote("Bob", true, accepted()).is_ok());

    let (yes_votes, no_votes) = system.count_votes();
    assert_eq!(yes_votes, 1);
    assert_eq!(no_votes, 0);
}

#[test]
fn test_double_voting() {
    let mut system = VotingSystem::new().unwrap();
    system.register_voter("Charlie");

    assert!(system.proof_witness("Charlie").is_ok());
    assert!(system.cast_vote("Charlie", true, accepted()).is_ok());
    assert!(system.cast_vote("Charlie", false, accepted()).is_err());
}

#[test]
fn test_unregistered_voter() {
    let system = VotingSystem::new().unwrap();
    assert!(system.proof_witness("Dave").is_err());
}

#[test]
fn test_invalid_proof() {
    let mut system = VotingSystem::new().unwrap();
    system.register_voter("Eve");

    let invalid_proof = "invalid_proof_string";
    let verdict = Err(VotingError::SerializationError(format!(
        "expected value at line 1 column 1 in {}",
        invalid_proof
    )));
    assert!(system.cast_vote("Eve", true, verdict).is_err());
}

#[test]
fn test_voter_hash_consistency() {
    let mut system = VotingSystem::new().unwrap();
    system.register_voter("Frank");

    let hash1 = system.get_voter_hash("Frank");
    let hash2 = system.get_voter_hash("Frank");

    assert_eq!(hash1, hash2);
}
