//! The tally of one vote, how a ballot changes it, and the outcome it gives.
use vstd::prelude::*;
use crate::threshold::VoteThreshold;

verus! {

/// How a voter stands on a proposal.
#[derive(Clone, Copy, Debug, PartialEq, Eq, Structural)]
pub enum VoterView {
    /// Has not voted; never a valid ballot direction.
    NoVote,
    InFavor,
    Against,
    Abstained,
}

/// One ballot: a direction and the power spent on it.
#[derive(Clone, Copy, Debug, PartialEq, Eq, Structural)]
pub struct YesNoVote {
    pub direction: VoterView,
    pub magnitude: u64,
}

/// The outcome of a vote.
#[derive(Clone, Copy, Debug, PartialEq, Eq, Structural)]
pub enum Outcome {
    Voting,
    Approved,
    /// Defined for callers; no transition of the engine reaches it.
    Rejected,
}

/// The running tally of a vote, its fixed threshold and its lifetime.
#[derive(Clone, Copy, Debug, PartialEq, Eq, Structural)]
pub struct VoteState {
    pub in_favor: u64,
    pub against: u64,
    pub turnout: u64,
    pub threshold: VoteThreshold,
    pub initialized: u64,
    pub expires: u64,
}

/// Why an operation of the vote engine failed.
#[derive(Clone, Copy, Debug, PartialEq, Eq, Structural)]
pub enum VoteError {
    /// No outcome is stored for the vote.
    VoteNotInitialized,
    /// The outcome is no longer `Voting`.
    CanOnlyVoteinVotingOutcome,
    /// No state is stored for the vote.
    VoteStateUninitialized,
    /// The ballot came after the vote expired.
    VotePastExpirationTimeSoVotesNotAccepted,
    /// The voter holds no power for the vote, or less than the ballot asks.
    NotEnoughSignalToVote,
    /// The ballot's direction is not in favor, against or abstained.
    VoterViewNotAccountedFor,
    /// A tally or a power total would exceed the power type's range.
    SignalOverflow,
    /// The end of the vote would exceed the clock's range.
    TimeOverflow,
    /// No identifier is left to give to a new vote in the scope.
    IdSpaceExhausted,
    /// Asked for the outcome of a vote that has none.
    NoOutcomeAssociatedWithVoteID,
}

/// Whether a ballot in this direction can be applied.
pub open spec fn direction_supported(d: VoterView) -> bool {
    d == VoterView::InFavor || d == VoterView::Against || d == VoterView::Abstained
}

/// Whether the ballot's magnitude can be added to the tallies it changes.
pub open spec fn ballot_fits(state: VoteState, vote: YesNoVote) -> bool {
    &&& state.turnout + vote.magnitude <= u64::MAX
    &&& vote.direction == VoterView::InFavor ==> state.in_favor + vote.magnitude <= u64::MAX
    &&& vote.direction == VoterView::Against ==> state.against + vote.magnitude <= u64::MAX
}

/// The state after a supported ballot that fits: its magnitude is added to
/// the turnout and to the tally of its direction.
pub open spec fn applied(state: VoteState, vote: YesNoVote) -> VoteState {
    VoteState {
        in_favor: if vote.direction == VoterView::InFavor {
            (state.in_favor + vote.magnitude) as u64
        } else {
            state.in_favor
        },
        against: if vote.direction == VoterView::Against {
            (state.against + vote.magnitude) as u64
        } else {
            state.against
        },
        turnout: (state.turnout + vote.magnitude) as u64,
        ..state
    }
}

/// Whether the tally meets both components of its threshold.
pub open spec fn meets_threshold(state: VoteState) -> bool {
    state.in_favor >= state.threshold.support_required && state.turnout
        >= state.threshold.turnout_required
}

/// The outcome that a tally gives.
pub open spec fn outcome_of(state: VoteState) -> Outcome {
    if meets_threshold(state) {
        Outcome::Approved
    } else {
        Outcome::Voting
    }
}

/// Applies one ballot to a tally. An unsupported direction, or a magnitude
/// that would overflow a tally, fails and changes nothing.
pub fn apply_vote(state: VoteState, vote: YesNoVote) -> (r: Result<VoteState, VoteError>)
    ensures
        !direction_supported(vote.direction) ==> r == Err::<VoteState, VoteError>(
            VoteError::VoterViewNotAccountedFor,
        ),
        direction_supported(vote.direction) && !ballot_fits(state, vote) ==> r == Err::<
            VoteState,
            VoteError,
        >(VoteError::SignalOverflow),
        direction_supported(vote.direction) && ballot_fits(state, vote) ==> r == Ok::<
            VoteState,
            VoteError,
        >(applied(state, vote)),
{
    let new_turnout = match state.turnout.checked_add(vote.magnitude) {
        Some(t) => t,
        None => {
            if let VoterView::NoVote = vote.direction {
                return Err(VoteError::VoterViewNotAccountedFor);
            }
            return Err(VoteError::SignalOverflow);
        },
    };
    match vote.direction {
        VoterView::InFavor => match state.in_favor.checked_add(vote.magnitude) {
            Some(new_in_favor) => Ok(VoteState { in_favor: new_in_favor, turnout: new_turnout, ..state }),
            None => Err(VoteError::SignalOverflow),
        },
        VoterView::Against => match state.against.checked_add(vote.magnitude) {
            Some(new_against) => Ok(VoteState { against: new_against, turnout: new_turnout, ..state }),
            None => Err(VoteError::SignalOverflow),
        },
        VoterView::Abstained => Ok(VoteState { turnout: new_turnout, ..state }),
        VoterView::NoVote => Err(VoteError::VoterViewNotAccountedFor),
    }
}

/// `Approved` when the tally meets both components of its threshold, else
/// `Voting`.
pub fn check_vote_outcome(state: VoteState) -> (r: Outcome)
    ensures
        r == outcome_of(state),
        r == Outcome::Approved <==> meets_threshold(state),
{
    if state.in_favor >= state.threshold.support_required && state.turnout
        >= state.threshold.turnout_required {
        Outcome::Approved
    } else {
        Outcome::Voting
    }
}

/// Whether the vote has expired at time `now`.
pub fn check_vote_expired(state: VoteState, now: u64) -> (r: bool)
    ensures
        r == (now > state.expires),
{
    state.expires < now
}

/// A ballot adds its magnitude to the turnout, whatever its direction, and
/// never lowers any tally; so the outcome a tally gives never returns from
/// `Approved` to `Voting`.
pub proof fn lemma_ballot_monotone(state: VoteState, vote: YesNoVote)
    requires
        direction_supported(vote.direction),
        ballot_fits(state, vote),
    ensures
        applied(state, vote).turnout == state.turnout + vote.magnitude,
        applied(state, vote).in_favor >= state.in_favor,
        applied(state, vote).against >= state.against,
        applied(state, vote).threshold == state.threshold,
        outcome_of(state) == Outcome::Approved ==> outcome_of(applied(state, vote))
            == Outcome::Approved,
{
}

/// The sum of the magnitudes of a sequence of ballots.
pub open spec fn sum_magnitudes(ballots: Seq<YesNoVote>) -> nat
    decreases ballots.len(),
{
    if ballots.len() == 0 {
        0
    } else {
        sum_magnitudes(ballots.drop_last()) + ballots.last().magnitude as nat
    }
}

/// The tally after applying each ballot of the sequence in turn.
pub open spec fn tally_after(state: VoteState, ballots: Seq<YesNoVote>) -> VoteState
    decreases ballots.len(),
{
    if ballots.len() == 0 {
        state
    } else {
        applied(tally_after(state, ballots.drop_last()), ballots.last())
    }
}

/// Whether the in-favor and against tallies are within the turnout.
pub open spec fn tally_consistent(state: VoteState) -> bool {
    state.in_favor + state.against <= state.turnout
}

/// Over any sequence of supported ballots whose magnitudes fit in the power
/// type, each ballot can be applied, and the turnout after the first `i`
/// ballots is the starting turnout plus the sum of their magnitudes, so it
/// never decreases from one ballot to the next.
pub proof fn lemma_turnout_is_sum_of_ballots(state: VoteState, ballots: Seq<YesNoVote>)
    requires
        tally_consistent(state),
        forall|i: int| 0 <= i < ballots.len() ==> direction_supported(#[trigger] ballots[i].direction),
        state.turnout + sum_magnitudes(ballots) <= u64::MAX,
    ensures
        tally_consistent(tally_after(state, ballots)),
        tally_after(state, ballots).turnout == state.turnout + sum_magnitudes(ballots),
        tally_after(state, ballots).threshold == state.threshold,
        forall|i: int|
            0 <= i < ballots.len() ==> ballot_fits(
                #[trigger] tally_after(state, ballots.take(i)),
                ballots[i],
            ),
        forall|i: int, j: int|
            0 <= i <= j <= ballots.len() ==> #[trigger] tally_after(state, ballots.take(i)).turnout
                <= #[trigger] tally_after(state, ballots.take(j)).turnout,
    decreases ballots.len(),
{
    if ballots.len() > 0 {
        let init = ballots.drop_last();
        assert forall|i: int| 0 <= i < init.len() implies direction_supported(
            #[trigger] init[i].direction,
        ) by {
            assert(init[i] == ballots[i]);
        }
        lemma_turnout_is_sum_of_ballots(state, init);
        assert(ballots.take(ballots.len() as int) =~= ballots);
        assert forall|i: int| 0 <= i < ballots.len() implies ballot_fits(
            #[trigger] tally_after(state, ballots.take(i)),
            ballots[i],
        ) by {
            if i < init.len() {
                assert(ballots.take(i) =~= init.take(i));
                assert(init[i] == ballots[i]);
            } else {
                assert(ballots.take(i) =~= init);
            }
        }
        assert forall|i: int, j: int|
            0 <= i <= j <= ballots.len() implies #[trigger] tally_after(state, ballots.take(i)).turnout
            <= #[trigger] tally_after(state, ballots.take(j)).turnout by {
            if j < ballots.len() {
                assert(ballots.take(i) =~= init.take(i));
                assert(ballots.take(j) =~= init.take(j));
            } else if i < ballots.len() {
                assert(ballots.take(i) =~= init.take(i));
                assert(init.take(init.len() as int) =~= init);
                assert(tally_after(state, init.take(i)).turnout <= tally_after(state, init.take(init.len() as int)).turnout);
            }
        }
    }
}

} // verus!
