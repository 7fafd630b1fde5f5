//! The vote engine: unique vote identifiers, power minting, opening votes
//! and casting ballots, over four keyed stores and a counter per scope.
use vstd::prelude::*;
use crate::table::Table;
use crate::threshold::{build_vote_threshold, threshold_for, ThresholdConfig, VoteThreshold};
use crate::vote::{
    apply_vote, applied, ballot_fits, check_vote_expired, check_vote_outcome, direction_supported,
    outcome_of, tally_consistent, Outcome, VoteError, VoteState, VoterView, YesNoVote,
};

verus! {

/// A vote within its (organization, share group) scope.
pub type VoteKey = (u32, u32, u64);

/// A member's power for one vote.
pub type MintKey = (u32, u32, u64, u64);

/// What each member of a group got when their shares were reserved: the
/// member and the reserved amount, or `None` where the reservation failed.
pub type Reservations = Vec<(u64, Option<u64>)>;

/// The stores of the vote engine, seen as maps.
pub struct VoteStoreView {
    /// Per scope, where the search for a free vote identifier starts.
    pub counters: Map<(u32, u32), u64>,
    /// Power minted for each member of each vote.
    pub minted: Map<MintKey, u64>,
    pub states: Map<VoteKey, VoteState>,
    pub outcomes: Map<VoteKey, Outcome>,
    /// How many clock units a vote stays open.
    pub default_vote_length: u64,
}

/// The vote engine's persisted state.
pub struct VoteStore {
    vote_id_counter: Table<(u32, u32), u64>,
    minted_signal: Table<MintKey, u64>,
    vote_states: Table<VoteKey, VoteState>,
    vote_outcome: Table<VoteKey, Outcome>,
    default_vote_length: u64,
}

/// Each vote has both a state and an outcome; its tallies are within its
/// turnout; and its outcome is the one its tally gives, but for a vote that
/// no power has turned out for yet, which is `Voting` from when it opened.
pub open spec fn consistent(v: VoteStoreView) -> bool {
    &&& v.states.dom() == v.outcomes.dom()
    &&& forall|k: VoteKey| #[trigger]
        v.states.contains_key(k) ==> {
            &&& tally_consistent(v.states[k])
            &&& (v.outcomes[k] == outcome_of(v.states[k]) || (v.outcomes[k] == Outcome::Voting
                && v.states[k].turnout == 0))
        }
}

/// From `old` to `new` no vote disappears, no threshold or lifetime changes,
/// no tally decreases, and no `Approved` outcome changes.
pub open spec fn evolves(old: VoteStoreView, new: VoteStoreView) -> bool {
    &&& new.default_vote_length == old.default_vote_length
    &&& forall|k: VoteKey| #[trigger]
        old.states.contains_key(k) ==> {
            &&& new.states.contains_key(k)
            &&& new.states[k].threshold == old.states[k].threshold
            &&& new.states[k].initialized == old.states[k].initialized
            &&& new.states[k].expires == old.states[k].expires
            &&& new.states[k].in_favor >= old.states[k].in_favor
            &&& new.states[k].against >= old.states[k].against
            &&& new.states[k].turnout >= old.states[k].turnout
        }
    &&& forall|k: VoteKey| #[trigger]
        old.outcomes.contains_key(k) && old.outcomes[k] == Outcome::Approved ==> new.outcomes.contains_key(k)
            && new.outcomes[k] == Outcome::Approved
}

/// Whether the scope already holds a vote with this identifier.
pub open spec fn id_taken(v: VoteStoreView, org: u32, share: u32, id: u64) -> bool {
    v.states.contains_key((org, share, id)) || v.outcomes.contains_key((org, share, id))
}

/// Where the search for a free identifier starts in a scope.
pub open spec fn counter_of(v: VoteStoreView, org: u32, share: u32) -> u64 {
    if v.counters.contains_key((org, share)) {
        v.counters[(org, share)]
    } else {
        0
    }
}

/// Whether every identifier from the scope's counter on is taken.
pub open spec fn ids_exhausted(v: VoteStoreView, org: u32, share: u32) -> bool {
    forall|c: u64| counter_of(v, org, share) <= c ==> #[trigger] id_taken(v, org, share, c)
}

/// `id` is what the generator gives for `proposed` in `old`, and `new` is
/// `old` with the counter it leaves: `proposed` itself when it is free, the
/// counter unchanged; else the first free identifier from the counter on,
/// and the counter moved past it.
pub open spec fn id_generated(
    old: VoteStoreView,
    new: VoteStoreView,
    org: u32,
    share: u32,
    proposed: u64,
    id: u64,
) -> bool {
    &&& !id_taken(old, org, share, id)
    &&& if !id_taken(old, org, share, proposed) {
        id == proposed && new == old
    } else {
        &&& counter_of(old, org, share) <= id
        &&& forall|c: u64|
            counter_of(old, org, share) <= c < id ==> #[trigger] id_taken(old, org, share, c)
        &&& new == (VoteStoreView {
            counters: old.counters.insert(
                (org, share),
                if id < u64::MAX {
                    (id + 1) as u64
                } else {
                    id
                },
            ),
            ..old
        })
    }
}

/// The sum of the amounts that were reserved.
pub open spec fn reserved_total(res: Seq<(u64, Option<u64>)>) -> nat
    decreases res.len(),
{
    if res.len() == 0 {
        0
    } else {
        reserved_total(res.drop_last()) + match res.last().1 {
            Some(a) => a as nat,
            None => 0nat,
        }
    }
}

/// The minted power after minting, in order, each reserved amount for its
/// member; a failed reservation mints nothing.
pub open spec fn minted_after(
    m: Map<MintKey, u64>,
    org: u32,
    share: u32,
    vote_id: u64,
    res: Seq<(u64, Option<u64>)>,
) -> Map<MintKey, u64>
    decreases res.len(),
{
    if res.len() == 0 {
        m
    } else {
        let prev = minted_after(m, org, share, vote_id, res.drop_last());
        match res.last().1 {
            Some(a) => prev.insert((org, share, vote_id, res.last().0), a),
            None => prev,
        }
    }
}

/// The state a new vote starts in.
pub open spec fn fresh_state(threshold: VoteThreshold, now: u64, length: u64) -> VoteState {
    VoteState {
        in_favor: 0,
        against: 0,
        turnout: 0,
        threshold,
        initialized: now,
        expires: (now + length) as u64,
    }
}

/// The candidate identifier `open_vote` starts from.
pub open spec fn candidate_id(v: VoteStoreView, org: u32, share: u32, vote_id: Option<u64>) -> Option<u64> {
    match vote_id {
        Some(id) => Some(id),
        None => if counter_of(v, org, share) < u64::MAX {
            Some((counter_of(v, org, share) + 1) as u64)
        } else {
            None
        },
    }
}

/// The error `open_vote` fails with, if any.
pub open spec fn open_error(
    v: VoteStoreView,
    org: u32,
    share: u32,
    vote_id: Option<u64>,
    now: u64,
    res: Seq<(u64, Option<u64>)>,
) -> Option<VoteError> {
    if reserved_total(res) > u64::MAX {
        Some(VoteError::SignalOverflow)
    } else if now + v.default_vote_length > u64::MAX {
        Some(VoteError::TimeOverflow)
    } else if candidate_id(v, org, share, vote_id) is None {
        Some(VoteError::IdSpaceExhausted)
    } else if id_taken(v, org, share, candidate_id(v, org, share, vote_id).unwrap())
        && ids_exhausted(v, org, share) {
        Some(VoteError::IdSpaceExhausted)
    } else {
        None
    }
}

/// The ballot a member casts: the magnitude asked for, or all of the
/// member's minted power when none is given.
pub open spec fn ballot_of(
    v: VoteStoreView,
    key: MintKey,
    direction: VoterView,
    magnitude: Option<u64>,
) -> YesNoVote {
    YesNoVote {
        direction,
        magnitude: match magnitude {
            Some(m) => m,
            None => v.minted[key],
        },
    }
}

/// The error a ballot fails with, if any, checked in this order.
pub open spec fn ballot_error(
    v: VoteStoreView,
    org: u32,
    share: u32,
    vote_id: u64,
    voter: u64,
    direction: VoterView,
    magnitude: Option<u64>,
    now: u64,
) -> Option<VoteError> {
    let k = (org, share, vote_id);
    let mk = (org, share, vote_id, voter);
    if !v.outcomes.contains_key(k) {
        Some(VoteError::VoteNotInitialized)
    } else if v.outcomes[k] != Outcome::Voting {
        Some(VoteError::CanOnlyVoteinVotingOutcome)
    } else if !v.states.contains_key(k) {
        Some(VoteError::VoteStateUninitialized)
    } else if now > v.states[k].expires {
        Some(VoteError::VotePastExpirationTimeSoVotesNotAccepted)
    } else if !v.minted.contains_key(mk) {
        Some(VoteError::NotEnoughSignalToVote)
    } else if magnitude is Some && magnitude.unwrap() > v.minted[mk] {
        Some(VoteError::NotEnoughSignalToVote)
    } else if !direction_supported(direction) {
        Some(VoteError::VoterViewNotAccountedFor)
    } else if !ballot_fits(v.states[k], ballot_of(v, mk, direction, magnitude)) {
        Some(VoteError::SignalOverflow)
    } else {
        None
    }
}

/// The total of a sequence of reservations is at least that of any prefix.
proof fn lemma_reserved_total_prefix(res: Seq<(u64, Option<u64>)>, n: int)
    requires
        0 <= n <= res.len(),
    ensures
        reserved_total(res.take(n)) <= reserved_total(res),
    decreases res.len() - n,
{
    if n < res.len() {
        lemma_reserved_total_prefix(res, n + 1);
        assert(res.take(n + 1).drop_last() =~= res.take(n));
    } else {
        assert(res.take(n) =~= res);
    }
}

/// A ballot on a vote that is open and `Voting`, cast after the vote
/// expires, fails with the expiry error, whoever casts it and whatever it
/// asks; a failed ballot leaves the stores as they were.
pub proof fn lemma_expired_ballot_rejected(
    v: VoteStoreView,
    org: u32,
    share: u32,
    vote_id: u64,
    voter: u64,
    direction: VoterView,
    magnitude: Option<u64>,
    now: u64,
)
    requires
        v.outcomes.contains_key((org, share, vote_id)),
        v.outcomes[(org, share, vote_id)] == Outcome::Voting,
        v.states.contains_key((org, share, vote_id)),
        now > v.states[(org, share, vote_id)].expires,
    ensures
        ballot_error(v, org, share, vote_id, voter, direction, magnitude, now) == Some(
            VoteError::VotePastExpirationTimeSoVotesNotAccepted,
        ),
{
}

/// A ballot whose direction is not in favor, against or abstained always
/// fails; a failed ballot leaves the stores as they were.
pub proof fn lemma_unsupported_ballot_rejected(
    v: VoteStoreView,
    org: u32,
    share: u32,
    vote_id: u64,
    voter: u64,
    direction: VoterView,
    magnitude: Option<u64>,
    now: u64,
)
    requires
        !direction_supported(direction),
    ensures
        ballot_error(v, org, share, vote_id, voter, direction, magnitude, now) is Some,
{
}

/// Evolution composes: over any run of operations each of which evolves the
/// stores, thresholds and lifetimes stay fixed, tallies never decrease, and
/// an `Approved` outcome is never followed by another.
pub proof fn lemma_evolves_transitive(a: VoteStoreView, b: VoteStoreView, c: VoteStoreView)
    requires
        evolves(a, b),
        evolves(b, c),
    ensures
        evolves(a, c),
{
}

impl View for VoteStore {
    type V = VoteStoreView;

    closed spec fn view(&self) -> VoteStoreView {
        VoteStoreView {
            counters: self.vote_id_counter@,
            minted: self.minted_signal@,
            states: self.vote_states@,
            outcomes: self.vote_outcome@,
            default_vote_length: self.default_vote_length,
        }
    }
}

impl VoteStore {
    /// The stores are well formed and consistent.
    pub closed spec fn wf(&self) -> bool {
        &&& self.vote_id_counter.wf()
        &&& self.minted_signal.wf()
        &&& self.vote_states.wf()
        &&& self.vote_outcome.wf()
        &&& consistent(self@)
    }

    /// A well-formed store is consistent: a vote is `Approved` exactly when
    /// its latest tally meets both components of its threshold, but for a
    /// vote still `Voting` that no power has turned out for yet.
    pub proof fn lemma_outcome_matches_tally(&self, k: VoteKey)
        requires
            self.wf(),
            self@.states.contains_key(k),
        ensures
            consistent(self@),
            self@.outcomes.contains_key(k),
            self@.outcomes[k] == Outcome::Approved ==> crate::vote::meets_threshold(self@.states[k]),
            crate::vote::meets_threshold(self@.states[k]) && self@.states[k].turnout > 0
                ==> self@.outcomes[k] == Outcome::Approved,
    {
    }

    /// An empty engine whose votes stay open `default_vote_length` clock
    /// units.
    pub fn new(default_vote_length: u64) -> (r: Self)
        ensures
            r.wf(),
            r@.counters == Map::<(u32, u32), u64>::empty(),
            r@.minted == Map::<MintKey, u64>::empty(),
            r@.states == Map::<VoteKey, VoteState>::empty(),
            r@.outcomes == Map::<VoteKey, Outcome>::empty(),
            r@.default_vote_length == default_vote_length,
    {
        let r = VoteStore {
            vote_id_counter: Table::new(),
            minted_signal: Table::new(),
            vote_states: Table::new(),
            vote_outcome: Table::new(),
            default_vote_length,
        };
        assert(r@.states.dom() =~= r@.outcomes.dom());
        r
    }
    /// The length of a vote, in clock units.
    pub fn default_vote_length(&self) -> (r: u64)
        ensures
            r == self@.default_vote_length,
    {
        self.default_vote_length
    }

    /// Where the search for a free identifier starts in a scope.
    pub fn vote_id_counter(&self, org: u32, share: u32) -> (r: u64)
        requires
            self.wf(),
        ensures
            r == counter_of(self@, org, share),
    {
        match self.vote_id_counter.get(&(org, share)) {
            Some(c) => c,
            None => 0,
        }
    }

    /// The power minted for `who` in a vote, if any.
    pub fn minted_signal(&self, org: u32, share: u32, vote_id: u64, who: u64) -> (r: Option<u64>)
        requires
            self.wf(),
        ensures
            r == (if self@.minted.contains_key((org, share, vote_id, who)) {
                Some(self@.minted[(org, share, vote_id, who)])
            } else {
                None::<u64>
            }),
    {
        self.minted_signal.get(&(org, share, vote_id, who))
    }

    /// The state of a vote, if any.
    pub fn vote_states(&self, org: u32, share: u32, vote_id: u64) -> (r: Option<VoteState>)
        requires
            self.wf(),
        ensures
            r == (if self@.states.contains_key((org, share, vote_id)) {
                Some(self@.states[(org, share, vote_id)])
            } else {
                None::<VoteState>
            }),
    {
        self.vote_states.get(&(org, share, vote_id))
    }

    /// The outcome of a vote, if any.
    pub fn vote_outcome(&self, org: u32, share: u32, vote_id: u64) -> (r: Option<Outcome>)
        requires
            self.wf(),
        ensures
            r == (if self@.outcomes.contains_key((org, share, vote_id)) {
                Some(self@.outcomes[(org, share, vote_id)])
            } else {
                None::<Outcome>
            }),
    {
        self.vote_outcome.get(&(org, share, vote_id))
    }

    /// The outcome of a vote, or `NoOutcomeAssociatedWithVoteID` when the
    /// vote has none.
    pub fn get_vote_outcome(&self, org: u32, share: u32, vote_id: u64) -> (r: Result<Outcome, VoteError>)
        requires
            self.wf(),
        ensures
            r == (if self@.outcomes.contains_key((org, share, vote_id)) {
                Ok::<Outcome, VoteError>(self@.outcomes[(org, share, vote_id)])
            } else {
                Err::<Outcome, VoteError>(VoteError::NoOutcomeAssociatedWithVoteID)
            }),
    {
        match self.vote_outcome.get(&(org, share, vote_id)) {
            Some(o) => Ok(o),
            None => Err(VoteError::NoOutcomeAssociatedWithVoteID),
        }
    }

    /// Whether no vote of the scope has this identifier.
    pub fn id_is_available(&self, org: u32, share: u32, vote_id: u64) -> (r: bool)
        requires
            self.wf(),
        ensures
            r == !id_taken(self@, org, share, vote_id),
    {
        !self.vote_states.contains(&(org, share, vote_id))
    }

    /// An identifier that no vote of the scope has: `proposed` when it is
    /// free, else the first free one from the scope's counter on, moving the
    /// counter past it. Fails only when every identifier from the counter on
    /// is taken.
    pub fn generate_unique_id(&mut self, org: u32, share: u32, proposed: u64) -> (r: Result<u64, VoteError>)
        requires
            old(self).wf(),
        ensures
            final(self).wf(),
            match r {
                Ok(id) => id_generated(old(self)@, final(self)@, org, share, proposed, id),
                Err(e) => {
                    &&& e == VoteError::IdSpaceExhausted
                    &&& id_taken(old(self)@, org, share, proposed)
                    &&& ids_exhausted(old(self)@, org, share)
                    &&& final(self)@ == old(self)@
                },
            },
    {
        if self.id_is_available(org, share, proposed) {
            return Ok(proposed);
        }
        let start = self.vote_id_counter(org, share);
        let mut id_counter: u64 = start;
        while !self.id_is_available(org, share, id_counter)
            invariant
                self.wf(),
                self@ == old(self)@,
                id_taken(self@, org, share, proposed),
                start == counter_of(self@, org, share),
                start <= id_counter,
                forall|c: u64| start <= c < id_counter ==> #[trigger] id_taken(self@, org, share, c),
            decreases u64::MAX - id_counter,
        {
            assert(id_taken(self@, org, share, id_counter));
            if id_counter == u64::MAX {
                assert forall|c: u64| start <= c implies #[trigger] id_taken(self@, org, share, c) by {
                    if c == id_counter {
                        assert(id_taken(self@, org, share, id_counter));
                    }
                }
                return Err(VoteError::IdSpaceExhausted);
            }
            id_counter = id_counter + 1;
        }
        let next = if id_counter < u64::MAX {
            id_counter + 1
        } else {
            id_counter
        };
        let ghost old_view = self@;
        self.vote_id_counter.insert((org, share), next);
        assert(self@ == (VoteStoreView { counters: old_view.counters.insert((org, share), next), ..old_view }));
        Ok(id_counter)
    }

    /// Records `amount` as `who`'s power for a vote, replacing what was
    /// there, with no check against reserved shares. The caller answers for
    /// who may do this and for its accounting.
    pub fn custom_mint_signal(&mut self, org: u32, share: u32, vote_id: u64, who: u64, amount: u64) -> (r: u64)
        requires
            old(self).wf(),
        ensures
            final(self).wf(),
            r == amount,
            final(self)@ == (VoteStoreView {
                minted: old(self)@.minted.insert((org, share, vote_id, who), amount),
                ..old(self)@
            }),
    {
        self.minted_signal.insert((org, share, vote_id, who), amount);
        amount
    }

    /// Mints `who`'s power for a vote from the shares reserved for them:
    /// each reserved share is one unit of power.
    pub fn mint_signal_based_on_existing_share_value(
        &mut self,
        org: u32,
        share: u32,
        vote_id: u64,
        who: u64,
        shares_reserved: u64,
    ) -> (r: u64)
        requires
            old(self).wf(),
        ensures
            final(self).wf(),
            r == shares_reserved,
            final(self)@ == (VoteStoreView {
                minted: old(self)@.minted.insert((org, share, vote_id, who), shares_reserved),
                ..old(self)@
            }),
    {
        let minted_signal: u64 = shares_reserved;
        self.minted_signal.insert((org, share, vote_id, who), minted_signal);
        minted_signal
    }

    /// The total of the reserved amounts, or `None` when it overflows.
    pub fn total_reserved(reservations: &Reservations) -> (r: Option<u64>)
        ensures
            match r {
                Some(t) => t == reserved_total(reservations@),
                None => reserved_total(reservations@) > u64::MAX,
            },
    {
        let mut total: u64 = 0;
        let mut i: usize = 0;
        while i < reservations.len()
            invariant
                i <= reservations@.len(),
                total == reserved_total(reservations@.take(i as int)),
            decreases reservations@.len() - i,
        {
            proof {
                assert(reservations@.take(i + 1).drop_last() =~= reservations@.take(i as int));
            }
            match reservations[i].1 {
                Some(a) => {
                    match total.checked_add(a) {
                        Some(t) => total = t,
                        None => {
                            proof {
                                lemma_reserved_total_prefix(reservations@, i + 1);
                            }
                            return None;
                        },
                    }
                },
                None => {},
            }
            i += 1;
        }
        assert(reservations@.take(i as int) =~= reservations@);
        Some(total)
    }

    /// Mints power for each member whose shares were reserved and returns
    /// the total; a member whose reservation failed is skipped and holds no
    /// power. Fails, minting nothing, when the total would overflow.
    pub fn batch_mint_signal(
        &mut self,
        org: u32,
        share: u32,
        vote_id: u64,
        reservations: &Reservations,
    ) -> (r: Result<u64, VoteError>)
        requires
            old(self).wf(),
        ensures
            final(self).wf(),
            match r {
                Ok(total) => {
                    &&& total == reserved_total(reservations@)
                    &&& final(self)@ == (VoteStoreView {
                        minted: minted_after(old(self)@.minted, org, share, vote_id, reservations@),
                        ..old(self)@
                    })
                },
                Err(e) => {
                    &&& e == VoteError::SignalOverflow
                    &&& reserved_total(reservations@) > u64::MAX
                    &&& final(self)@ == old(self)@
                },
            },
    {
        let total_minted_signal = match Self::total_reserved(reservations) {
            Some(t) => t,
            None => return Err(VoteError::SignalOverflow),
        };
        let ghost old_view = self@;
        let mut i: usize = 0;
        while i < reservations.len()
            invariant
                self.wf(),
                i <= reservations@.len(),
                self@ == (VoteStoreView {
                    minted: minted_after(old_view.minted, org, share, vote_id, reservations@.take(i as int)),
                    ..old_view
                }),
            decreases reservations@.len() - i,
        {
            proof {
                assert(reservations@.take(i + 1).drop_last() =~= reservations@.take(i as int));
            }
            let who = reservations[i].0;
            match reservations[i].1 {
                Some(a) => {
                    self.mint_signal_based_on_existing_share_value(org, share, vote_id, who, a);
                },
                None => {},
            }
            i += 1;
        }
        assert(reservations@.take(i as int) =~= reservations@);
        Ok(total_minted_signal)
    }
    /// Opens a vote: picks a free identifier (the candidate given, else the
    /// one after the scope's counter), mints each member's power from their
    /// reserved shares, fixes the threshold from the total minted, and
    /// stores a zeroed tally with the outcome `Voting`. Fails, changing
    /// nothing, when the total power or the end of the vote would overflow,
    /// or when no identifier is free.
    pub fn open_vote(
        &mut self,
        org: u32,
        share: u32,
        vote_id: Option<u64>,
        threshold_config: ThresholdConfig,
        now: u64,
        reservations: &Reservations,
    ) -> (r: Result<u64, VoteError>)
        requires
            old(self).wf(),
        ensures
            final(self).wf(),
            evolves(old(self)@, final(self)@),
            match open_error(old(self)@, org, share, vote_id, now, reservations@) {
                Some(e) => r == Err::<u64, VoteError>(e) && final(self)@ == old(self)@,
                None => r is Ok && {
                    let id = r->Ok_0;
                    let key = (org, share, id);
                    let threshold = threshold_for(
                        threshold_config,
                        reserved_total(reservations@) as u64,
                        now,
                    );
                    &&& id_generated(
                        old(self)@,
                        (VoteStoreView { counters: final(self)@.counters, ..old(self)@ }),
                        org,
                        share,
                        candidate_id(old(self)@, org, share, vote_id).unwrap(),
                        id,
                    )
                    &&& final(self)@.minted == minted_after(
                        old(self)@.minted,
                        org,
                        share,
                        id,
                        reservations@,
                    )
                    &&& final(self)@.states == old(self)@.states.insert(
                        key,
                        fresh_state(threshold, now, old(self)@.default_vote_length),
                    )
                    &&& final(self)@.outcomes == old(self)@.outcomes.insert(key, Outcome::Voting)
                    &&& final(self)@.default_vote_length == old(self)@.default_vote_length
                },
            },
    {
        let total_possible_turnout = match Self::total_reserved(reservations) {
            Some(t) => t,
            None => return Err(VoteError::SignalOverflow),
        };
        let ends = match now.checked_add(self.default_vote_length) {
            Some(e) => e,
            None => return Err(VoteError::TimeOverflow),
        };
        let proposed = match vote_id {
            Some(id) => id,
            None => {
                let counter = self.vote_id_counter(org, share);
                if counter == u64::MAX {
                    return Err(VoteError::IdSpaceExhausted);
                }
                counter + 1
            },
        };
        let ghost v0 = self@;
        let new_vote_id = match self.generate_unique_id(org, share, proposed) {
            Ok(id) => id,
            Err(e) => return Err(e),
        };
        let ghost v1 = self@;
        let minted = self.batch_mint_signal(org, share, new_vote_id, reservations);
        assert(minted is Ok);
        let threshold = build_vote_threshold(threshold_config, total_possible_turnout, now);
        let new_vote_state = VoteState {
            in_favor: 0,
            against: 0,
            turnout: 0,
            threshold,
            initialized: now,
            expires: ends,
        };
        let key = (org, share, new_vote_id);
        self.vote_states.insert(key, new_vote_state);
        self.vote_outcome.insert(key, Outcome::Voting);
        proof {
            assert(self@.states.dom() =~= self@.outcomes.dom());
            assert(!v0.states.contains_key(key) && !v0.outcomes.contains_key(key));
        }
        Ok(new_vote_id)
    }

    /// Casts `voter`'s ballot on a vote at time `now`: `magnitude` of their
    /// minted power, or all of it when none is given. The vote must be
    /// `Voting`, not expired, and the voter must hold enough power. The new
    /// tally and the outcome it gives are stored together; on any failure
    /// nothing changes.
    pub fn vote_on_proposal(
        &mut self,
        org: u32,
        share: u32,
        vote_id: u64,
        voter: u64,
        direction: VoterView,
        magnitude: Option<u64>,
        now: u64,
    ) -> (r: Result<(), VoteError>)
        requires
            old(self).wf(),
        ensures
            final(self).wf(),
            evolves(old(self)@, final(self)@),
            match ballot_error(old(self)@, org, share, vote_id, voter, direction, magnitude, now) {
                Some(e) => r == Err::<(), VoteError>(e) && final(self)@ == old(self)@,
                None => {
                    let key = (org, share, vote_id);
                    let new_state = applied(
                        old(self)@.states[key],
                        ballot_of(old(self)@, (org, share, vote_id, voter), direction, magnitude),
                    );
                    &&& r == Ok::<(), VoteError>(())
                    &&& final(self)@ == (VoteStoreView {
                        states: old(self)@.states.insert(key, new_state),
                        outcomes: old(self)@.outcomes.insert(key, outcome_of(new_state)),
                        ..old(self)@
                    })
                },
            },
    {
        let key = (org, share, vote_id);
        let current_outcome = match self.vote_outcome.get(&key) {
            Some(o) => o,
            None => return Err(VoteError::VoteNotInitialized),
        };
        match current_outcome {
            Outcome::Voting => {},
            _ => return Err(VoteError::CanOnlyVoteinVotingOutcome),
        }
        let current_vote_state = match self.vote_states.get(&key) {
            Some(s) => s,
            None => return Err(VoteError::VoteStateUninitialized),
        };
        if check_vote_expired(current_vote_state, now) {
            return Err(VoteError::VotePastExpirationTimeSoVotesNotAccepted);
        }
        let mintable_signal = match self.minted_signal.get(&(org, share, vote_id, voter)) {
            Some(m) => m,
            None => return Err(VoteError::NotEnoughSignalToVote),
        };
        let minted_signal = match magnitude {
            Some(mag) => {
                if mag > mintable_signal {
                    return Err(VoteError::NotEnoughSignalToVote);
                }
                mag
            },
            None => mintable_signal,
        };
        let vote = YesNoVote { direction, magnitude: minted_signal };
        let new_state = match apply_vote(current_vote_state, vote) {
            Ok(s) => s,
            Err(e) => return Err(e),
        };
        self.vote_states.insert(key, new_state);
        let new_outcome = check_vote_outcome(new_state);
        self.vote_outcome.insert(key, new_outcome);
        proof {
            assert(self@.states.dom() =~= self@.outcomes.dom());
        }
        Ok(())
    }
}

} // verus!
