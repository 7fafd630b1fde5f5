use sunshine::engine::VoteStore;
use sunshine::threshold::{build_vote_threshold, ThresholdConfig, VoteThreshold};
use sunshine::vote::{
    apply_vote, check_vote_expired, check_vote_outcome, Outcome, VoteError, VoteState, VoterView,
    YesNoVote,
};

const ORG: u32 = 1;
const GROUP: u32 = 2;
const ALICE: u64 = 10;
const BOB: u64 = 11;

fn two_members() -> Vec<(u64, Option<u64>)> {
    vec![(ALICE, Some(100)), (BOB, Some(50))]
}

fn open_sixty_fifty(store: &mut VoteStore, now: u64) -> u64 {
    store
        .open_vote(ORG, GROUP, None, ThresholdConfig::from_percent(60, 50), now, &two_members())
        .unwrap()
}

fn state_with(in_favor: u64, against: u64, turnout: u64, support: u64, needed: u64) -> VoteState {
    VoteState {
        in_favor,
        against,
        turnout,
        threshold: VoteThreshold { support_required: support, turnout_required: needed, opened_at: 0 },
        initialized: 0,
        expires: 10,
    }
}

#[test]
fn threshold_is_fraction_of_total_power() {
    let t = build_vote_threshold(ThresholdConfig::from_percent(60, 50), 150, 7);
    assert_eq!(t.support_required, 90);
    assert_eq!(t.turnout_required, 75);
    assert_eq!(t.opened_at, 7);
}

#[test]
fn threshold_rounds_to_nearest_with_half_down() {
    // 1/3 of 10 is 3.33..., 2/3 of 10 is 6.66...
    let t = build_vote_threshold(ThresholdConfig::new(333_333, 666_667), 10, 0);
    assert_eq!(t.support_required, 3);
    assert_eq!(t.turnout_required, 7);
    // half of 5 is 2.5, which rounds down
    let h = build_vote_threshold(ThresholdConfig::from_percent(50, 50), 5, 0);
    assert_eq!(h.support_required, 2);
}

#[test]
fn threshold_of_no_power_is_zero_and_unanimous_is_all() {
    let z = build_vote_threshold(ThresholdConfig::unanimous(), 0, 0);
    assert_eq!((z.support_required, z.turnout_required), (0, 0));
    let u = build_vote_threshold(ThresholdConfig::unanimous(), u64::MAX, 0);
    assert_eq!((u.support_required, u.turnout_required), (u64::MAX, u64::MAX));
}

#[test]
fn config_saturates_at_one_whole() {
    let c = ThresholdConfig::from_percent(250, 100);
    assert_eq!(c.passage_threshold_pct, 1_000_000);
    assert_eq!(c.turnout_threshold_pct, 1_000_000);
    let d = ThresholdConfig::new(2_000_000, 5);
    assert_eq!(d.passage_threshold_pct, 1_000_000);
    assert_eq!(d.turnout_threshold_pct, 5);
}

#[test]
fn apply_vote_adds_to_the_direction_and_turnout() {
    let s = state_with(1, 2, 4, 0, 0);
    let f = apply_vote(s, YesNoVote { direction: VoterView::InFavor, magnitude: 5 }).unwrap();
    assert_eq!((f.in_favor, f.against, f.turnout), (6, 2, 9));
    let a = apply_vote(s, YesNoVote { direction: VoterView::Against, magnitude: 5 }).unwrap();
    assert_eq!((a.in_favor, a.against, a.turnout), (1, 7, 9));
    let n = apply_vote(s, YesNoVote { direction: VoterView::Abstained, magnitude: 5 }).unwrap();
    assert_eq!((n.in_favor, n.against, n.turnout), (1, 2, 9));
}

#[test]
fn apply_vote_rejects_unsupported_direction() {
    let s = state_with(1, 2, 4, 0, 0);
    let r = apply_vote(s, YesNoVote { direction: VoterView::NoVote, magnitude: 5 });
    assert_eq!(r, Err(VoteError::VoterViewNotAccountedFor));
}

#[test]
fn apply_vote_rejects_overflow() {
    let s = state_with(0, 0, u64::MAX, 0, 0);
    let r = apply_vote(s, YesNoVote { direction: VoterView::Abstained, magnitude: 1 });
    assert_eq!(r, Err(VoteError::SignalOverflow));
}

#[test]
fn turnout_is_sum_of_ballots() {
    let mut s = state_with(0, 0, 0, 0, 0);
    let ballots = [
        (VoterView::InFavor, 3u64),
        (VoterView::Against, 4),
        (VoterView::Abstained, 5),
        (VoterView::InFavor, 0),
    ];
    let mut sum = 0u64;
    for (d, m) in ballots {
        let before = s.turnout;
        s = apply_vote(s, YesNoVote { direction: d, magnitude: m }).unwrap();
        sum += m;
        assert_eq!(s.turnout, sum);
        assert!(s.turnout >= before);
    }
    assert_eq!((s.in_favor, s.against, s.turnout), (3, 4, 12));
}

#[test]
fn outcome_needs_both_components() {
    assert_eq!(check_vote_outcome(state_with(90, 0, 90, 90, 75)), Outcome::Approved);
    assert_eq!(check_vote_outcome(state_with(89, 0, 100, 90, 75)), Outcome::Voting);
    assert_eq!(check_vote_outcome(state_with(90, 0, 74, 90, 75)), Outcome::Voting);
}

#[test]
fn expiry_is_strictly_after_expires() {
    let s = state_with(0, 0, 0, 0, 0);
    assert!(!check_vote_expired(s, 10));
    assert!(check_vote_expired(s, 11));
}

#[test]
fn scenario_a_in_favor_approves() {
    let mut store = VoteStore::new(10);
    let id = open_sixty_fifty(&mut store, 0);
    let state = store.vote_states(ORG, GROUP, id).unwrap();
    assert_eq!(state.threshold.support_required, 90);
    assert_eq!(state.threshold.turnout_required, 75);
    assert_eq!(store.minted_signal(ORG, GROUP, id, ALICE), Some(100));
    assert_eq!(store.minted_signal(ORG, GROUP, id, BOB), Some(50));
    assert_eq!(store.get_vote_outcome(ORG, GROUP, id), Ok(Outcome::Voting));
    store.vote_on_proposal(ORG, GROUP, id, ALICE, VoterView::InFavor, Some(100), 1).unwrap();
    let after = store.vote_states(ORG, GROUP, id).unwrap();
    assert_eq!((after.in_favor, after.turnout), (100, 100));
    assert_eq!(store.get_vote_outcome(ORG, GROUP, id), Ok(Outcome::Approved));
}

#[test]
fn scenario_b_against_keeps_voting() {
    let mut store = VoteStore::new(10);
    let id = open_sixty_fifty(&mut store, 0);
    store.vote_on_proposal(ORG, GROUP, id, ALICE, VoterView::Against, Some(100), 1).unwrap();
    let after = store.vote_states(ORG, GROUP, id).unwrap();
    assert_eq!((after.in_favor, after.against, after.turnout), (0, 100, 100));
    assert_eq!(store.get_vote_outcome(ORG, GROUP, id), Ok(Outcome::Voting));
}

#[test]
fn scenario_c_ballot_after_expiry_fails() {
    let mut store = VoteStore::new(10);
    let id = open_sixty_fifty(&mut store, 0);
    assert_eq!(store.vote_states(ORG, GROUP, id).unwrap().expires, 10);
    let before = store.vote_states(ORG, GROUP, id);
    let r = store.vote_on_proposal(ORG, GROUP, id, ALICE, VoterView::InFavor, Some(100), 11);
    assert_eq!(r, Err(VoteError::VotePastExpirationTimeSoVotesNotAccepted));
    assert_eq!(store.vote_states(ORG, GROUP, id), before);
    assert_eq!(store.get_vote_outcome(ORG, GROUP, id), Ok(Outcome::Voting));
    // at the expiry time itself the ballot is still accepted
    store.vote_on_proposal(ORG, GROUP, id, BOB, VoterView::Abstained, None, 10).unwrap();
    assert_eq!(store.vote_states(ORG, GROUP, id).unwrap().turnout, 50);
}

#[test]
fn ballot_with_unsupported_direction_changes_nothing() {
    let mut store = VoteStore::new(10);
    let id = open_sixty_fifty(&mut store, 0);
    let before = store.vote_states(ORG, GROUP, id);
    let r = store.vote_on_proposal(ORG, GROUP, id, ALICE, VoterView::NoVote, None, 1);
    assert_eq!(r, Err(VoteError::VoterViewNotAccountedFor));
    assert_eq!(store.vote_states(ORG, GROUP, id), before);
    assert_eq!(store.get_vote_outcome(ORG, GROUP, id), Ok(Outcome::Voting));
}

#[test]
fn ballot_errors() {
    let mut store = VoteStore::new(10);
    let id = open_sixty_fifty(&mut store, 0);
    assert_eq!(
        store.vote_on_proposal(ORG, GROUP, id + 1, ALICE, VoterView::InFavor, None, 1),
        Err(VoteError::VoteNotInitialized)
    );
    assert_eq!(
        store.vote_on_proposal(ORG, GROUP, id, 99, VoterView::InFavor, None, 1),
        Err(VoteError::NotEnoughSignalToVote)
    );
    assert_eq!(
        store.vote_on_proposal(ORG, GROUP, id, BOB, VoterView::InFavor, Some(51), 1),
        Err(VoteError::NotEnoughSignalToVote)
    );
    store.vote_on_proposal(ORG, GROUP, id, ALICE, VoterView::InFavor, None, 1).unwrap();
    assert_eq!(
        store.vote_on_proposal(ORG, GROUP, id, BOB, VoterView::InFavor, None, 1),
        Err(VoteError::CanOnlyVoteinVotingOutcome)
    );
    assert_eq!(store.get_vote_outcome(ORG, GROUP, id), Ok(Outcome::Approved));
}

#[test]
fn missing_outcome_is_reported() {
    let store = VoteStore::new(10);
    assert_eq!(store.get_vote_outcome(ORG, GROUP, 1), Err(VoteError::NoOutcomeAssociatedWithVoteID));
}

#[test]
fn colliding_candidate_gets_a_fresh_id() {
    let mut store = VoteStore::new(10);
    let cfg = ThresholdConfig::from_percent(60, 50);
    let first = store.open_vote(ORG, GROUP, Some(5), cfg, 0, &two_members()).unwrap();
    assert_eq!(first, 5);
    let second = store.open_vote(ORG, GROUP, Some(5), cfg, 0, &two_members()).unwrap();
    assert_ne!(second, 5);
    assert_eq!(second, 0);
    assert_eq!(store.vote_id_counter(ORG, GROUP), 1);
    let third = store.open_vote(ORG, GROUP, None, cfg, 0, &two_members()).unwrap();
    assert_eq!(third, 2);
    let fourth = store.open_vote(ORG, GROUP, Some(2), cfg, 0, &two_members()).unwrap();
    assert_eq!(fourth, 1);
    assert_eq!(store.vote_id_counter(ORG, GROUP), 2);
    // another scope has its own identifiers
    let other = store.open_vote(ORG, GROUP + 1, Some(5), cfg, 0, &two_members()).unwrap();
    assert_eq!(other, 5);
}

#[test]
fn generate_unique_id_returns_free_candidate_unchanged() {
    let mut store = VoteStore::new(10);
    assert_eq!(store.generate_unique_id(ORG, GROUP, 42), Ok(42));
    assert_eq!(store.vote_id_counter(ORG, GROUP), 0);
    assert!(store.id_is_available(ORG, GROUP, 42));
}

#[test]
fn failed_reservation_is_skipped_in_batch_mint() {
    let mut store = VoteStore::new(10);
    let res = vec![(ALICE, Some(100)), (BOB, None), (12, Some(7))];
    assert_eq!(store.batch_mint_signal(ORG, GROUP, 3, &res), Ok(107));
    assert_eq!(store.minted_signal(ORG, GROUP, 3, ALICE), Some(100));
    assert_eq!(store.minted_signal(ORG, GROUP, 3, BOB), None);
    assert_eq!(store.minted_signal(ORG, GROUP, 3, 12), Some(7));
}

#[test]
fn power_total_overflow_opens_nothing() {
    let mut store = VoteStore::new(10);
    let res = vec![(ALICE, Some(u64::MAX)), (BOB, Some(1))];
    let cfg = ThresholdConfig::from_percent(60, 50);
    assert_eq!(store.open_vote(ORG, GROUP, Some(1), cfg, 0, &res), Err(VoteError::SignalOverflow));
    assert_eq!(store.get_vote_outcome(ORG, GROUP, 1), Err(VoteError::NoOutcomeAssociatedWithVoteID));
    assert_eq!(store.minted_signal(ORG, GROUP, 1, ALICE), None);
    assert_eq!(store.batch_mint_signal(ORG, GROUP, 1, &res), Err(VoteError::SignalOverflow));
}

#[test]
fn vote_end_overflow_opens_nothing() {
    let mut store = VoteStore::new(10);
    let cfg = ThresholdConfig::from_percent(60, 50);
    let r = store.open_vote(ORG, GROUP, Some(1), cfg, u64::MAX - 5, &two_members());
    assert_eq!(r, Err(VoteError::TimeOverflow));
    assert!(store.id_is_available(ORG, GROUP, 1));
}

#[test]
fn threshold_stays_fixed_after_power_changes() {
    let mut store = VoteStore::new(10);
    let id = open_sixty_fifty(&mut store, 0);
    assert_eq!(store.custom_mint_signal(ORG, GROUP, id, 77, 1_000), 1_000);
    assert_eq!(store.minted_signal(ORG, GROUP, id, 77), Some(1_000));
    let state = store.vote_states(ORG, GROUP, id).unwrap();
    assert_eq!((state.threshold.support_required, state.threshold.turnout_required), (90, 75));
    store.vote_on_proposal(ORG, GROUP, id, 77, VoterView::Against, None, 1).unwrap();
    let state = store.vote_states(ORG, GROUP, id).unwrap();
    assert_eq!((state.threshold.support_required, state.threshold.turnout_required), (90, 75));
    assert_eq!(state.against, 1_000);
}

#[test]
fn share_value_mint_is_one_for_one() {
    let mut store = VoteStore::new(10);
    assert_eq!(store.mint_signal_based_on_existing_share_value(ORG, GROUP, 1, ALICE, 33), 33);
    assert_eq!(store.minted_signal(ORG, GROUP, 1, ALICE), Some(33));
    assert_eq!(VoteStore::total_reserved(&vec![(1, Some(2)), (2, None), (3, Some(4))]), Some(6));
    assert_eq!(store.default_vote_length(), 10);
}

#[test]
fn vote_without_power_opens_voting_and_a_ballot_settles_it() {
    let mut store = VoteStore::new(10);
    let cfg = ThresholdConfig::from_percent(60, 50);
    let id = store.open_vote(ORG, GROUP, None, cfg, 0, &vec![]).unwrap();
    assert_eq!(id, 1);
    let state = store.vote_states(ORG, GROUP, id).unwrap();
    assert_eq!((state.threshold.support_required, state.threshold.turnout_required), (0, 0));
    assert_eq!(store.get_vote_outcome(ORG, GROUP, id), Ok(Outcome::Voting));
    store.custom_mint_signal(ORG, GROUP, id, ALICE, 0);
    store.vote_on_proposal(ORG, GROUP, id, ALICE, VoterView::Abstained, None, 0).unwrap();
    assert_eq!(store.get_vote_outcome(ORG, GROUP, id), Ok(Outcome::Approved));
}
