use zkp_voting_system::commitment::u64_to_le_bytes;
use zkp_voting_system::{compute_hash, VotingError, VotingSystem};

fn decode_hex(s: &str) -> Vec<u8> {
    (0..s.len() / 2)
        .map(|i| u8::from_str_radix(&s[2 * i..2 * i + 2], 16).unwrap())
        .collect()
}

#[test]
fn registered_voter_has_lowercase_hex_commitment() {
    let mut system = VotingSystem::new().unwrap();
    system.register_voter("Grace");
    let h = system.get_voter_hash("Grace").unwrap();
    assert_eq!(h.len(), 64);
    assert!(h.chars().all(|c| c.is_ascii_digit() || ('a'..='f').contains(&c)));
    assert_eq!(system.get_voter_hash("Grace"), Some(h));
}

#[test]
fn unregistered_voter_has_no_commitment() {
    let mut system = VotingSystem::new().unwrap();
    system.register_voter("Grace");
    assert_eq!(system.get_voter_hash("Heidi"), None);
}

#[test]
fn commitment_is_a_function_of_the_secret() {
    let mut a = VotingSystem::new().unwrap();
    let mut b = VotingSystem::new().unwrap();
    a.register_voter_with_secret("Ivan", 42);
    b.register_voter_with_secret("Judy", 42);
    assert_eq!(a.get_voter_hash("Ivan"), b.get_voter_hash("Judy"));
    b.register_voter_with_secret("Judy", 43);
    assert_ne!(a.get_voter_hash("Ivan"), b.get_voter_hash("Judy"));
}

#[test]
fn public_input_is_the_published_commitment() {
    let mut system = VotingSystem::new().unwrap();
    system.register_voter_with_secret("Ken", 7);
    let digest = decode_hex(&system.get_voter_hash("Ken").unwrap());
    assert_eq!(digest.len(), 32);
    assert_eq!(compute_hash(7), digest);
    assert_eq!(system.proof_witness("Ken"), Ok((7, digest.clone())));
    assert_eq!(system.vote_public_input("Ken"), Ok(digest));
    assert_ne!(compute_hash(7), u64_to_le_bytes(7));
    assert_ne!(compute_hash(7), compute_hash(8));
}

#[test]
fn little_endian_conversions() {
    assert_eq!(
        u64_to_le_bytes(0x0102_0304_0506_0708),
        vec![8, 7, 6, 5, 4, 3, 2, 1]
    );
    assert_eq!(u64_to_le_bytes(0), vec![0; 8]);
    assert_eq!(u64_to_le_bytes(u64::MAX), vec![0xff; 8]);
}

#[test]
fn one_proof_one_vote() {
    let mut system = VotingSystem::new().unwrap();
    system.register_voter("Mallory");
    assert_eq!(system.cast_vote("Mallory", true, Ok(true)), Ok(()));
    assert_eq!(
        system.cast_vote("Mallory", false, Ok(true)),
        Err(VotingError::AlreadyVoted)
    );
    assert_eq!(
        system.vote_public_input("Mallory"),
        Err(VotingError::AlreadyVoted)
    );
    assert_eq!(system.count_votes(), (1, 0));
}

#[test]
fn unregistered_voter_cannot_vote() {
    let mut system = VotingSystem::new().unwrap();
    system.register_voter("Niaj");
    assert_eq!(system.cast_vote("Niaj", false, Ok(true)), Ok(()));
    for verdict in [Ok(true), Ok(false), Err(VotingError::InvalidProof)] {
        assert_eq!(
            system.cast_vote("Olivia", true, verdict),
            Err(VotingError::VoterNotRegistered)
        );
    }
    assert_eq!(
        system.vote_public_input("Olivia"),
        Err(VotingError::VoterNotRegistered)
    );
    assert_eq!(system.count_votes(), (0, 1));
    assert!(!system.has_voted("Olivia"));
}

#[test]
fn rejected_evidence_records_nothing() {
    let mut system = VotingSystem::new().unwrap();
    system.register_voter("Peggy");
    let unreadable = Err(VotingError::SerializationError(
        "not a real proof".to_string(),
    ));
    assert_eq!(
        system.cast_vote("Peggy", true, unreadable.clone()),
        unreadable.map(|_| ())
    );
    assert_eq!(
        system.cast_vote("Peggy", true, Ok(false)),
        Err(VotingError::InvalidProof)
    );
    let broken = Err(VotingError::ZoKratesError("key mismatch".to_string()));
    assert_eq!(
        system.cast_vote("Peggy", true, broken),
        Err(VotingError::ZoKratesError("key mismatch".to_string()))
    );
    assert!(!system.has_voted("Peggy"));
    assert_eq!(system.count_votes(), (0, 0));
    assert_eq!(system.cast_vote("Peggy", true, Ok(true)), Ok(()));
    assert!(system.has_voted("Peggy"));
}

#[test]
fn tally_matches_recorded_choices() {
    let mut system = VotingSystem::new().unwrap();
    assert_eq!(system.count_votes(), (0, 0));
    let choices = [true, false, true, true, false];
    for (i, choice) in choices.iter().enumerate() {
        let id = format!("voter{}", i);
        system.register_voter(&id);
        assert_eq!(system.cast_vote(&id, *choice, Ok(true)), Ok(()));
    }
    assert_eq!(system.count_votes(), (3, 2));
}

#[test]
fn example_scenario() {
    let mut system = VotingSystem::new().unwrap();
    system.register_voter("Alice");
    system.register_voter("Bob");
    assert!(system.vote_public_input("Alice").is_ok());
    assert_eq!(system.cast_vote("Alice", true, Ok(true)), Ok(()));
    assert!(system.vote_public_input("Bob").is_ok());
    assert_eq!(system.cast_vote("Bob", false, Ok(true)), Ok(()));
    assert_eq!(system.count_votes(), (1, 1));
    assert!(system.has_voted("Alice"));
    assert!(!system.has_voted("Carol"));
}

#[test]
fn reregistration_replaces_the_secret_and_keeps_one_entry() {
    let mut system = VotingSystem::new().unwrap();
    system.register_voter_with_secret("Rupert", 1);
    let first = system.get_voter_hash("Rupert");
    system.register_voter_with_secret("Sybil", 2);
    system.register_voter_with_secret("Rupert", 3);
    assert_ne!(system.get_voter_hash("Rupert"), first);
    assert_eq!(system.proof_witness("Rupert"), Ok((3, compute_hash(3))));
    let mut ids = system.get_registered_voters();
    ids.sort();
    assert_eq!(ids, vec!["Rupert".to_string(), "Sybil".to_string()]);
}

#[test]
fn error_messages() {
    assert_eq!(
        VotingError::VoterNotRegistered.message(),
        "Voter not registered"
    );
    assert_eq!(VotingError::InvalidProof.message(), "Invalid proof");
    assert_eq!(VotingError::AlreadyVoted.message(), "Voter has already voted");
    assert_eq!(
        VotingError::ZoKratesError("x".to_string()).message(),
        "ZoKrates error: x"
    );
    assert_eq!(
        VotingError::SerializationError("y".to_string()).message(),
        "Serialization error: y"
    );
}
