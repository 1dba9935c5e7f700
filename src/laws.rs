//! Laws of the registry, stated over the models that the operations'
//! contracts use: the map of secrets and the ballot log.
use crate::commitment::commitment_hex;
use crate::error::VotingError;
use crate::registry::{
    accepted_casts, after_calls, cast_outcome, choice_count, has_ballot, log_after_cast, BallotLog,
    Call, VotingSystem,
};
use vstd::prelude::*;

verus! {

/// A registration with `secret` (what `register_voter` does, whatever the
/// secret drawn) leaves the identity with a commitment, and that commitment
/// is the one of its secret.
pub proof fn registration_yields_commitment(
    before: VotingSystem,
    after: VotingSystem,
    id: Seq<char>,
    secret: u64,
)
    requires
        after.secrets() == before.secrets().insert(id, secret),
    ensures
        after.commitment_of(id) == Some(commitment_hex(secret)),
{
}

/// Without a new registration of `id`, its commitment stays the same: any
/// two states with the same secrets (a cast keeps them) give the same answer.
pub proof fn commitment_is_deterministic(s1: VotingSystem, s2: VotingSystem, id: Seq<char>)
    requires
        s2.secrets() == s1.secrets(),
    ensures
        s1.commitment_of(id) == s2.commitment_of(id),
{
}

/// A registered identity that has not voted casts once with an accepted
/// proof; any later cast by it, whatever the proof, fails with
/// `AlreadyVoted` and the tally keeps only the first choice.
pub proof fn one_proof_one_vote(
    secrets: Map<Seq<char>, u64>,
    log: BallotLog,
    id: Seq<char>,
    later_verdict: Result<bool, VotingError>,
)
    requires
        secrets.contains_key(id),
        !has_ballot(log, id),
    ensures
        cast_outcome(secrets, log, id, Ok(true)) == Ok::<(), VotingError>(()),
        log_after_cast(secrets, log, id, true, Ok(true)) == log.push((id, true)),
        has_ballot(log.push((id, true)), id),
        cast_outcome(secrets, log.push((id, true)), id, later_verdict) == Err::<(), VotingError>(
            VotingError::AlreadyVoted,
        ),
        log_after_cast(secrets, log.push((id, true)), id, false, later_verdict) == log.push(
            (id, true),
        ),
        choice_count(log.push((id, true)), true) == choice_count(log, true) + 1,
        choice_count(log.push((id, true)), false) == choice_count(log, false),
{
    let log1 = log.push((id, true));
    assert(log1.drop_last() =~= log);
    assert(log1[log.len() as int].0 == id);
}

/// A cast by an unregistered identity fails with `VoterNotRegistered`,
/// whatever the proof, and records nothing.
pub proof fn unregistered_cannot_vote(
    secrets: Map<Seq<char>, u64>,
    log: BallotLog,
    id: Seq<char>,
    vote: bool,
    verdict: Result<bool, VotingError>,
)
    requires
        !secrets.contains_key(id),
    ensures
        cast_outcome(secrets, log, id, verdict) == Err::<(), VotingError>(
            VotingError::VoterNotRegistered,
        ),
        log_after_cast(secrets, log, id, vote, verdict) == log,
{
}

/// Evidence that the proof system rejected, or could not read, never
/// records a ballot: the cast fails and whether `id` has voted is as before.
/// For a registered identity that has not voted, the failure is the
/// rejection itself.
pub proof fn rejected_evidence_records_nothing(
    secrets: Map<Seq<char>, u64>,
    log: BallotLog,
    id: Seq<char>,
    vote: bool,
    verdict: Result<bool, VotingError>,
)
    requires
        verdict == Ok::<bool, VotingError>(false) || verdict is Err,
    ensures
        cast_outcome(secrets, log, id, verdict) is Err,
        log_after_cast(secrets, log, id, vote, verdict) == log,
        has_ballot(log_after_cast(secrets, log, id, vote, verdict), id) == has_ballot(log, id),
        secrets.contains_key(id) && !has_ballot(log, id) ==> cast_outcome(
            secrets,
            log,
            id,
            verdict,
        ) == match verdict {
            Ok(_) => Err::<(), VotingError>(VotingError::InvalidProof),
            Err(e) => Err(e),
        },
{
}

/// Each successful cast adds one to the count of its own choice and leaves
/// the other count as it was; a failed cast changes neither.
pub proof fn tally_follows_casts(
    secrets: Map<Seq<char>, u64>,
    log: BallotLog,
    id: Seq<char>,
    vote: bool,
    verdict: Result<bool, VotingError>,
)
    ensures
        ({
            let after = log_after_cast(secrets, log, id, vote, verdict);
            if cast_outcome(secrets, log, id, verdict) is Ok {
                &&& choice_count(after, vote) == choice_count(log, vote) + 1
                &&& choice_count(after, !vote) == choice_count(log, !vote)
            } else {
                &&& choice_count(after, true) == choice_count(log, true)
                &&& choice_count(after, false) == choice_count(log, false)
            }
        }),
{
    assert(log.push((id, vote)).drop_last() =~= log);
}

/// The two counts of the tally add up to the number of ballots: every
/// recorded ballot is counted once, on the side of its choice.
pub proof fn tally_counts_every_ballot(log: BallotLog)
    ensures
        choice_count(log, true) + choice_count(log, false) == log.len(),
    decreases log.len(),
{
    if log.len() > 0 {
        tally_counts_every_ballot(log.drop_last());
    }
}

/// The tally of a log extended by further ballots is the tally of the log
/// plus the tally of those ballots.
pub proof fn tally_of_appended_ballots(log: BallotLog, more: BallotLog, choice: bool)
    ensures
        choice_count(log + more, choice) == choice_count(log, choice) + choice_count(more, choice),
    decreases more.len(),
{
    if more.len() > 0 {
        assert((log + more).drop_last() =~= log + more.drop_last());
        tally_of_appended_ballots(log, more.drop_last(), choice);
    } else {
        assert(log + more =~= log);
    }
}

/// Over any sequence of calls, the count of each choice grows by exactly
/// the number of casts for that choice that succeeded; from an empty log
/// the tally is those numbers.
pub proof fn tally_over_any_calls(
    secrets: Map<Seq<char>, u64>,
    log: BallotLog,
    calls: Seq<Call>,
    choice: bool,
)
    ensures
        choice_count(after_calls(secrets, log, calls).1, choice) == choice_count(log, choice)
            + accepted_casts(secrets, log, calls, choice),
    decreases calls.len(),
{
    if calls.len() > 0 {
        tally_over_any_calls(secrets, log, calls.drop_last(), choice);
        let before = after_calls(secrets, log, calls.drop_last());
        match calls.last() {
            Call::Cast { id, vote, verdict } => {
                tally_follows_casts(before.0, before.1, id, vote, verdict);
            },
            Call::Register { .. } => {},
        }
    }
}

/// Over any sequence of calls with no new registration of `id`, its secret,
/// and so its commitment, stays the same.
pub proof fn commitment_stable_over_calls(
    secrets: Map<Seq<char>, u64>,
    log: BallotLog,
    calls: Seq<Call>,
    id: Seq<char>,
)
    requires
        secrets.contains_key(id),
        forall|i: int| 0 <= i < calls.len() ==> !(#[trigger] calls[i] matches Call::Register {
            id: r,
            ..
        } && r == id),
    ensures
        after_calls(secrets, log, calls).0.contains_key(id),
        after_calls(secrets, log, calls).0[id] == secrets[id],
        commitment_hex(after_calls(secrets, log, calls).0[id]) == commitment_hex(secrets[id]),
    decreases calls.len(),
{
    if calls.len() > 0 {
        let rest = calls.drop_last();
        assert forall|i: int| 0 <= i < rest.len() implies !(#[trigger] rest[i] matches Call::Register {
            id: r,
            ..
        } && r == id) by {
            assert(rest[i] == calls[i]);
        }
        commitment_stable_over_calls(secrets, log, rest, id);
        assert(calls.last() == calls[calls.len() - 1]);
    }
}

} // verus!
