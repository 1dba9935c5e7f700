//! The ballot registry: who may vote (each identity with its secret) and
//! the append-only log of ballots, gated on the proof system's verdict.
use crate::commitment::{commitment_digest, commitment_hex, commitment_string, compute_hash, hex_of};
use crate::error::VotingError;
use vstd::prelude::*;

verus! {

/// A ballot log: (identity, choice) in the order the ballots were cast.
pub type BallotLog = Seq<(Seq<char>, bool)>;

/// Whether `log` holds a ballot of `id`.
pub open spec fn has_ballot(log: BallotLog, id: Seq<char>) -> bool {
    exists|i: int| 0 <= i < log.len() && (#[trigger] log[i]).0 == id
}

/// How many ballots of `log` carry `choice`.
pub open spec fn choice_count(log: BallotLog, choice: bool) -> nat
    decreases log.len(),
{
    if log.len() == 0 {
        0
    } else {
        choice_count(log.drop_last(), choice) + if log.last().1 == choice {
            1nat
        } else {
            0nat
        }
    }
}

/// The outcome of a cast by `id`, given the proof system's verdict on the
/// proof it brought: the gates come first, then the verdict.
pub open spec fn cast_outcome(
    secrets: Map<Seq<char>, u64>,
    log: BallotLog,
    id: Seq<char>,
    verdict: Result<bool, VotingError>,
) -> Result<(), VotingError> {
    if !secrets.contains_key(id) {
        Err(VotingError::VoterNotRegistered)
    } else if has_ballot(log, id) {
        Err(VotingError::AlreadyVoted)
    } else {
        match verdict {
            Err(e) => Err(e),
            Ok(true) => Ok(()),
            Ok(false) => Err(VotingError::InvalidProof),
        }
    }
}

/// The ballot log after that cast: one ballot more on success, else as it was.
pub open spec fn log_after_cast(
    secrets: Map<Seq<char>, u64>,
    log: BallotLog,
    id: Seq<char>,
    vote: bool,
    verdict: Result<bool, VotingError>,
) -> BallotLog {
    if cast_outcome(secrets, log, id, verdict) is Ok {
        log.push((id, vote))
    } else {
        log
    }
}

/// A call that changes the registry; the others (`get_voter_hash`,
/// `proof_witness`, `vote_public_input`, `count_votes`, `has_voted`,
/// `get_registered_voters`) take `&self` and change nothing.
pub enum Call {
    /// `register_voter` of `id`, which drew `secret`.
    Register { id: Seq<char>, secret: u64 },
    /// `cast_vote` by `id` for `vote`, with the proof system's `verdict`.
    Cast { id: Seq<char>, vote: bool, verdict: Result<bool, VotingError> },
}

/// The secrets and the ballot log after one call.
pub open spec fn after_call(secrets: Map<Seq<char>, u64>, log: BallotLog, call: Call) -> (
    Map<Seq<char>, u64>,
    BallotLog,
) {
    match call {
        Call::Register { id, secret } => (secrets.insert(id, secret), log),
        Call::Cast { id, vote, verdict } => (
            secrets,
            log_after_cast(secrets, log, id, vote, verdict),
        ),
    }
}

/// The secrets and the ballot log after a sequence of calls, in order.
pub open spec fn after_calls(secrets: Map<Seq<char>, u64>, log: BallotLog, calls: Seq<Call>) -> (
    Map<Seq<char>, u64>,
    BallotLog,
)
    decreases calls.len(),
{
    if calls.len() == 0 {
        (secrets, log)
    } else {
        let before = after_calls(secrets, log, calls.drop_last());
        after_call(before.0, before.1, calls.last())
    }
}

/// How many casts for `choice` in a sequence of calls succeeded.
pub open spec fn accepted_casts(
    secrets: Map<Seq<char>, u64>,
    log: BallotLog,
    calls: Seq<Call>,
    choice: bool,
) -> nat
    decreases calls.len(),
{
    if calls.len() == 0 {
        0
    } else {
        let before = after_calls(secrets, log, calls.drop_last());
        accepted_casts(secrets, log, calls.drop_last(), choice) + match calls.last() {
            Call::Cast { id, vote, verdict } => if vote == choice && cast_outcome(
                before.0,
                before.1,
                id,
                verdict,
            ) is Ok {
                1nat
            } else {
                0nat
            },
            Call::Register { .. } => 0nat,
        }
    }
}

/// A registered participant: an identity and the secret it proves knowledge of.
pub struct Voter {
    id: String,
    secret: u64,
}

struct Ballot {
    id: String,
    vote: bool,
}

/// The registry of voters and the ballots they cast. Every change takes
/// `&mut self`, so the check that an identity has not voted and the
/// recording of its ballot are one exclusive step.
pub struct VotingSystem {
    voters: Vec<Voter>,
    votes: Vec<Ballot>,
    registered: Ghost<Map<Seq<char>, u64>>,
}

impl VotingSystem {
    /// The secret of each registered identity.
    pub closed spec fn secrets(&self) -> Map<Seq<char>, u64> {
        self.registered@
    }

    /// The ballots cast so far, in order.
    pub closed spec fn ballots(&self) -> BallotLog {
        self.votes@.map_values(|b: Ballot| (b.id@, b.vote))
    }

    /// The registered identities, in order of first registration.
    pub closed spec fn identities(&self) -> Seq<Seq<char>> {
        self.voters@.map_values(|v: Voter| v.id@)
    }

    /// The published commitment of `id`, if it is registered.
    pub open spec fn commitment_of(&self, id: Seq<char>) -> Option<Seq<char>> {
        if self.secrets().contains_key(id) {
            Some(commitment_hex(self.secrets()[id]))
        } else {
            None
        }
    }

    /// Well-formedness: the ghost map of secrets is the vector of voters,
    /// with each identity once, and each ballot belongs to a registered
    /// identity that has no other ballot.
    pub closed spec fn wf(&self) -> bool {
        &&& self.registered@.dom().finite()
        &&& forall|i: int|
            0 <= i < self.votes.len() ==> self.registered@.contains_key(
                (#[trigger] self.votes@[i]).id@,
            )
        &&& forall|i: int|
            0 <= i < self.voters.len() ==> {
                &&& self.registered@.contains_key(#[trigger] self.voters@[i].id@)
                &&& self.registered@[self.voters@[i].id@] == self.voters@[i].secret
            }
        &&& forall|k: Seq<char>|
            #[trigger] self.registered@.contains_key(k) ==> exists|i: int|
                0 <= i < self.voters.len() && (#[trigger] self.voters@[i]).id@ == k
        &&& forall|i: int, j: int|
            0 <= i < j < self.voters.len() ==> (#[trigger] self.voters@[i]).id@ != (
            #[trigger] self.voters@[j]).id@
        &&& forall|i: int, j: int|
            0 <= i < j < self.votes.len() ==> (#[trigger] self.votes@[i]).id@ != (
            #[trigger] self.votes@[j]).id@
    }

    /// An empty registry.
    pub fn new() -> (r: Result<Self, VotingError>)
        ensures
            r matches Ok(s) && s.wf() && s.secrets() == Map::<Seq<char>, u64>::empty()
                && s.ballots() == Seq::<(Seq<char>, bool)>::empty(),
    {
        let s = VotingSystem { voters: Vec::new(), votes: Vec::new(), registered: Ghost(Map::empty()) };
        assert(s.ballots() =~= Seq::<(Seq<char>, bool)>::empty());
        Ok(s)
    }

    /// The position of `id` among the voters, if it is registered.
    fn find_voter(&self, id: &String) -> (r: Option<usize>)
        requires
            self.wf(),
        ensures
            match r {
                Some(i) => i < self.voters.len() && self.voters@[i as int].id@ == id@
                    && self.secrets().contains_key(id@),
                None => !self.secrets().contains_key(id@),
            },
    {
        let mut i: usize = 0;
        while i < self.voters.len()
            invariant
                self.wf(),
                i <= self.voters.len(),
                forall|j: int| 0 <= j < i ==> (#[trigger] self.voters@[j]).id@ != id@,
            decreases self.voters.len() - i,
        {
            if self.voters[i].id == *id {
                assert(self.registered@.contains_key(self.voters@[i as int].id@));
                return Some(i);
            }
            i = i + 1;
        }
        None
    }

    /// The position of the ballot of `id`, if it has voted.
    fn find_ballot(&self, id: &String) -> (r: Option<usize>)
        ensures
            match r {
                Some(i) => i < self.votes.len() && self.votes@[i as int].id@ == id@
                    && has_ballot(self.ballots(), id@),
                None => !has_ballot(self.ballots(), id@),
            },
    {
        let mut i: usize = 0;
        while i < self.votes.len()
            invariant
                i <= self.votes.len(),
                forall|j: int| 0 <= j < i ==> (#[trigger] self.votes@[j]).id@ != id@,
            decreases self.votes.len() - i,
        {
            if self.votes[i].id == *id {
                assert(self.ballots()[i as int].0 == id@);
                return Some(i);
            }
            i = i + 1;
        }
        assert forall|j: int| 0 <= j < self.ballots().len() implies (
        #[trigger] self.ballots()[j]).0 != id@ by {
            assert(self.votes@[j].id@ != id@);
        }
        None
    }

    /// Registers `id` with the given secret; a second registration of the
    /// same identity replaces its secret.
    pub fn register_voter_with_secret(&mut self, id: &str, secret: u64)
        requires
            old(self).wf(),
        ensures
            final(self).wf(),
            final(self).secrets() == old(self).secrets().insert(id@, secret),
            final(self).ballots() == old(self).ballots(),
            (final(self).secrets(), final(self).ballots()) == after_call(
                old(self).secrets(),
                old(self).ballots(),
                Call::Register { id: id@, secret },
            ),
    {
        let key = id.to_owned();
        let ghost old_voters = self.voters@;
        match self.find_voter(&key) {
            Some(i) => {
                self.voters.set(i, Voter { id: key, secret });
                proof {
                    self.registered@ = self.registered@.insert(id@, secret);
                    assert forall|j: int| 0 <= j < self.voters.len() && j != i implies
                        #[trigger] self.voters@[j] == old_voters[j] by {}
                    assert forall|j: int, k: int|
                        0 <= j < k < self.voters.len() implies (#[trigger] self.voters@[j]).id@
                        != (#[trigger] self.voters@[k]).id@ by {
                        assert(old_voters[j].id@ != old_voters[k].id@);
                    }
                    assert forall|k: Seq<char>| #[trigger]
                        self.registered@.contains_key(k) implies exists|j: int|
                        0 <= j < self.voters.len() && (#[trigger] self.voters@[j]).id@ == k by {
                        if k != id@ {
                            let j = choose|j: int|
                                0 <= j < old_voters.len() && (#[trigger] old_voters[j]).id@ == k;
                            assert(self.voters@[j].id@ == k);
                        } else {
                            assert(self.voters@[i as int].id@ == k);
                        }
                    }
                }
            },
            None => {
                self.voters.push(Voter { id: key, secret });
                proof {
                    self.registered@ = self.registered@.insert(id@, secret);
                    let n = old_voters.len() as int;
                    assert forall|j: int| 0 <= j < n implies #[trigger] self.voters@[j]
                        == old_voters[j] by {}
                    assert forall|j: int| 0 <= j < n implies (#[trigger] old_voters[j]).id@
                        != id@ by {
                        assert(old(self).registered@.contains_key(old_voters[j].id@));
                    }
                    assert forall|j: int, k: int|
                        0 <= j < k < self.voters.len() implies (#[trigger] self.voters@[j]).id@
                        != (#[trigger] self.voters@[k]).id@ by {
                        if k < n {
                            assert(old_voters[j].id@ != old_voters[k].id@);
                        } else {
                            assert(old_voters[j].id@ != id@);
                        }
                    }
                    assert forall|k: Seq<char>| #[trigger]
                        self.registered@.contains_key(k) implies exists|j: int|
                        0 <= j < self.voters.len() && (#[trigger] self.voters@[j]).id@ == k by {
                        if k != id@ {
                            let j = choose|j: int|
                                0 <= j < old_voters.len() && (#[trigger] old_voters[j]).id@ == k;
                            assert(self.voters@[j].id@ == k);
                        } else {
                            assert(self.voters@[n].id@ == k);
                        }
                    }
                }
            },
        }
    }

    /// Registers `id` under a fresh random secret; a second registration of
    /// the same identity replaces its secret.
    pub fn register_voter(&mut self, id: &str)
        requires
            old(self).wf(),
        ensures
            final(self).wf(),
            final(self).secrets().contains_key(id@),
            final(self).secrets() == old(self).secrets().insert(id@, final(self).secrets()[id@]),
            final(self).ballots() == old(self).ballots(),
            (final(self).secrets(), final(self).ballots()) == after_call(
                old(self).secrets(),
                old(self).ballots(),
                Call::Register { id: id@, secret: final(self).secrets()[id@] },
            ),
    {
        let secret = random_secret();
        self.register_voter_with_secret(id, secret);
    }

    /// The published commitment of `id`, or `None` if it is not registered.
    pub fn get_voter_hash(&self, id: &str) -> (r: Option<String>)
        requires
            self.wf(),
        ensures
            r is None <==> self.commitment_of(id@) is None,
            r matches Some(h) ==> self.commitment_of(id@) == Some(h@) && h@.len() == 64,
    {
        let key = id.to_owned();
        match self.find_voter(&key) {
            Some(i) => Some(commitment_string(self.voters[i].secret)),
            None => None,
        }
    }

    /// What a proof for `id` is built from: its secret and the commitment
    /// digest that the proof binds it to, the one `get_voter_hash` publishes
    /// in hex.
    pub fn proof_witness(&self, id: &str) -> (r: Result<(u64, Vec<u8>), VotingError>)
        requires
            self.wf(),
        ensures
            !self.secrets().contains_key(id@) ==> r == Err::<(u64, Vec<u8>), VotingError>(
                VotingError::VoterNotRegistered,
            ),
            self.secrets().contains_key(id@) ==> (r matches Ok(w) && w.0 == self.secrets()[id@]
                && w.1@ == commitment_digest(self.secrets()[id@])),
            r matches Ok(w) ==> self.commitment_of(id@) == Some(hex_of(w.1@)),
    {
        let key = id.to_owned();
        match self.find_voter(&key) {
            Some(i) => {
                let secret = self.voters[i].secret;
                Ok((secret, compute_hash(secret)))
            },
            None => Err(VotingError::VoterNotRegistered),
        }
    }

    /// The gates of a cast by `id`, in order: it must be registered and must
    /// not have voted. When both hold, the public input that its proof is to
    /// be verified against: the commitment digest of its secret, the one
    /// `get_voter_hash` publishes in hex.
    pub fn vote_public_input(&self, id: &str) -> (r: Result<Vec<u8>, VotingError>)
        requires
            self.wf(),
        ensures
            !self.secrets().contains_key(id@) ==> r == Err::<Vec<u8>, VotingError>(
                VotingError::VoterNotRegistered,
            ),
            self.secrets().contains_key(id@) && has_ballot(self.ballots(), id@) ==> r == Err::<
                Vec<u8>,
                VotingError,
            >(VotingError::AlreadyVoted),
            self.secrets().contains_key(id@) && !has_ballot(self.ballots(), id@) ==> (r matches Ok(
                d,
            ) && d@ == commitment_digest(self.secrets()[id@])),
            r matches Ok(d) ==> self.commitment_of(id@) == Some(hex_of(d@)),
    {
        let key = id.to_owned();
        match self.find_voter(&key) {
            None => Err(VotingError::VoterNotRegistered),
            Some(i) => {
                if self.find_ballot(&key).is_some() {
                    Err(VotingError::AlreadyVoted)
                } else {
                    Ok(compute_hash(self.voters[i].secret))
                }
            },
        }
    }

    /// Casts `vote` for `id`. `verdict` is the proof system's answer on the
    /// proof that `id` brought, checked against `vote_public_input(id)`:
    /// `Ok(true)` accepted, `Ok(false)` rejected, `Err` when the proof could
    /// not be read or the proof system failed. The ballot is recorded only
    /// when the gates pass and the proof was accepted; otherwise nothing
    /// changes.
    pub fn cast_vote(&mut self, id: &str, vote: bool, verdict: Result<bool, VotingError>) -> (r:
        Result<(), VotingError>)
        requires
            old(self).wf(),
        ensures
            final(self).wf(),
            r == cast_outcome(old(self).secrets(), old(self).ballots(), id@, verdict),
            final(self).secrets() == old(self).secrets(),
            r is Ok ==> has_ballot(final(self).ballots(), id@),
            final(self).ballots() == log_after_cast(
                old(self).secrets(),
                old(self).ballots(),
                id@,
                vote,
                verdict,
            ),
            (final(self).secrets(), final(self).ballots()) == after_call(
                old(self).secrets(),
                old(self).ballots(),
                Call::Cast { id: id@, vote, verdict },
            ),
    {
        let key = id.to_owned();
        if self.find_voter(&key).is_none() {
            return Err(VotingError::VoterNotRegistered);
        }
        if self.find_ballot(&key).is_some() {
            return Err(VotingError::AlreadyVoted);
        }
        let accepted = match verdict {
            Ok(b) => b,
            Err(e) => {
                return Err(e);
            },
        };
        if !accepted {
            return Err(VotingError::InvalidProof);
        }
        let ghost old_votes = self.votes@;
        self.votes.push(Ballot { id: key, vote });
        proof {
            assert(self.ballots() =~= old(self).ballots().push((id@, vote)));
            assert(self.ballots()[old_votes.len() as int].0 == id@);
            assert forall|k: Seq<char>| #[trigger]
                self.registered@.contains_key(k) implies exists|j: int|
                0 <= j < self.voters.len() && (#[trigger] self.voters@[j]).id@ == k by {
                let j = choose|j: int|
                    0 <= j < old(self).voters.len() && (#[trigger] old(self).voters@[j]).id@ == k;
                assert(self.voters@[j].id@ == k);
            }
            assert forall|j: int| 0 <= j < old_votes.len() implies (
            #[trigger] old_votes[j]).id@ != id@ by {
                assert(old(self).ballots()[j].0 == old_votes[j].id@);
            }
            assert forall|j: int, k: int|
                0 <= j < k < self.votes.len() implies (#[trigger] self.votes@[j]).id@
                != (#[trigger] self.votes@[k]).id@ by {
                if k < old_votes.len() {
                    assert(old_votes[j].id@ != old_votes[k].id@);
                } else {
                    assert(old_votes[j].id@ != id@);
                }
            }
        }
        Ok(())
    }

    /// The tally: (ballots for yes, ballots for no).
    pub fn count_votes(&self) -> (r: (usize, usize))
        requires
            self.wf(),
        ensures
            r.0 == choice_count(self.ballots(), true),
            r.1 == choice_count(self.ballots(), false),
            r.0 + r.1 == self.ballots().len(),
            r.0 + r.1 <= self.secrets().dom().len(),
    {
        let mut yes: usize = 0;
        let mut no: usize = 0;
        let mut i: usize = 0;
        while i < self.votes.len()
            invariant
                i <= self.votes.len(),
                yes == choice_count(self.ballots().take(i as int), true),
                no == choice_count(self.ballots().take(i as int), false),
                yes + no == i,
            decreases self.votes.len() - i,
        {
            assert(self.ballots().take(i + 1).drop_last() =~= self.ballots().take(i as int));
            if self.votes[i].vote {
                yes = yes + 1;
            } else {
                no = no + 1;
            }
            i = i + 1;
        }
        assert(self.ballots().take(i as int) =~= self.ballots());
        proof {
            self.one_ballot_per_voter();
        }
        (yes, no)
    }

    /// The registered identities, each once.
    pub fn get_registered_voters(&self) -> (r: Vec<String>)
        requires
            self.wf(),
        ensures
            r@.map_values(|s: String| s@) == self.identities(),
            r@.map_values(|s: String| s@).to_set() == self.secrets().dom(),
            r@.map_values(|s: String| s@).no_duplicates(),
    {
        let mut out: Vec<String> = Vec::new();
        let mut i: usize = 0;
        while i < self.voters.len()
            invariant
                self.wf(),
                i <= self.voters.len(),
                out.len() == i,
                forall|j: int| 0 <= j < i ==> (#[trigger] out@[j])@ == self.voters@[j].id@,
            decreases self.voters.len() - i,
        {
            out.push(self.voters[i].id.clone());
            i = i + 1;
        }
        let ghost ids = out@.map_values(|s: String| s@);
        proof {
            assert(ids =~= self.identities());
            assert forall|j: int| 0 <= j < ids.len() implies #[trigger] ids[j]
                == self.voters@[j].id@ by {}
            assert forall|k: Seq<char>| #[trigger] ids.to_set().contains(k) <==> self.secrets().dom().contains(k) by {
                if ids.to_set().contains(k) {
                    let j = choose|j: int| 0 <= j < ids.len() && ids[j] == k;
                    assert(self.registered@.contains_key(self.voters@[j].id@));
                }
                if self.secrets().dom().contains(k) {
                    let j = choose|j: int|
                        0 <= j < self.voters.len() && (#[trigger] self.voters@[j]).id@ == k;
                    assert(ids[j] == k);
                    assert(ids.contains(k));
                }
            }
            assert(ids.to_set() =~= self.secrets().dom());
            assert forall|j: int, k: int| 0 <= j < ids.len() && 0 <= k < ids.len() && j != k
                implies ids[j] != ids[k] by {
                if j < k {
                    assert(self.voters@[j].id@ != self.voters@[k].id@);
                } else {
                    assert(self.voters@[k].id@ != self.voters@[j].id@);
                }
            }
        }
        out
    }

    /// Whether a ballot of `id` has been recorded.
    pub fn has_voted(&self, id: &str) -> (r: bool)
        ensures
            r == has_ballot(self.ballots(), id@),
    {
        let key = id.to_owned();
        self.find_ballot(&key).is_some()
    }

    /// Each identity has at most one ballot, and only registered identities
    /// have one; so there are no more ballots than registered identities.
    pub proof fn one_ballot_per_voter(&self)
        requires
            self.wf(),
        ensures
            forall|i: int, j: int|
                0 <= i < j < self.ballots().len() ==> (#[trigger] self.ballots()[i]).0 != (
                #[trigger] self.ballots()[j]).0,
            forall|i: int|
                0 <= i < self.ballots().len() ==> self.secrets().contains_key(
                    (#[trigger] self.ballots()[i]).0,
                ),
            self.ballots().len() <= self.secrets().dom().len(),
    {
        let ids = self.ballots().map_values(|b: (Seq<char>, bool)| b.0);
        assert forall|i: int, j: int| 0 <= i < j < self.ballots().len() implies (
        #[trigger] self.ballots()[i]).0 != (#[trigger] self.ballots()[j]).0 by {
            assert(self.votes@[i].id@ != self.votes@[j].id@);
        }
        assert forall|i: int| 0 <= i < self.ballots().len() implies self.secrets().contains_key(
            (#[trigger] self.ballots()[i]).0,
        ) by {
            assert(self.registered@.contains_key(self.votes@[i].id@));
        }
        assert(ids.no_duplicates()) by {
            assert forall|i: int, j: int| 0 <= i < ids.len() && 0 <= j < ids.len() && i != j implies ids[i] != ids[j] by {
                if i < j {
                    assert(self.ballots()[i].0 != self.ballots()[j].0);
                } else {
                    assert(self.ballots()[j].0 != self.ballots()[i].0);
                }
            }
        }
        ids.unique_seq_to_set();
        assert(ids.to_set().subset_of(self.secrets().dom())) by {
            assert forall|k: Seq<char>| ids.to_set().contains(k) implies self.secrets().dom().contains(k) by {
                let i = choose|i: int| 0 <= i < ids.len() && ids[i] == k;
                assert(self.secrets().contains_key(self.ballots()[i].0));
            }
        }
        vstd::set_lib::lemma_len_subset(ids.to_set(), self.secrets().dom());
    }
}

/// Relies on `rand::random`: a value drawn from the thread-local generator;
/// nothing is promised of it.
#[verifier::external_body]
fn random_secret() -> (r: u64) {
    rand::random::<u64>()
}

} // verus!
