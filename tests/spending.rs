use std::collections::HashMap;
use sunshine::bank::{Bank, BankError, BankSpend, PollDecision, SpendState, Transfer};
use sunshine::engine::VoteStore;
use sunshine::vote::{Outcome, VoteError, VoterView};

const ORG: u32 = 3;
const GROUP: u32 = 4;
const ALICE: u64 = 10;
const BOB: u64 = 11;
const DEST: u64 = 500;
const CONTROLLER: u64 = 9;

/// A ledger of the host: a balance per bank and per account, each transfer
/// keeping at least `min_balance` in the source.
struct Ledger {
    banks: HashMap<u64, u128>,
    accounts: HashMap<u64, u128>,
    min_balance: u128,
}

impl Ledger {
    fn transfer(&mut self, t: Transfer) -> bool {
        let have = *self.banks.get(&t.bank).unwrap_or(&0);
        if have < t.amount + self.min_balance {
            return false;
        }
        self.banks.insert(t.bank, have - t.amount);
        *self.accounts.entry(t.dest).or_insert(0) += t.amount;
        true
    }
}

fn setup(bank_funds: u128) -> (Bank, VoteStore, Ledger, u64) {
    let mut bank = Bank::new(10, 2);
    let bank_id = bank.open_bank_account(ORG, GROUP, 10, Some(CONTROLLER)).unwrap();
    let mut banks = HashMap::new();
    banks.insert(bank_id, bank_funds);
    let ledger = Ledger { banks, accounts: HashMap::new(), min_balance: 1 };
    (bank, VoteStore::new(10), ledger, bank_id)
}

fn poll(bank: &mut Bank, votes: &VoteStore, ledger: &mut Ledger, s: BankSpend) -> SpendState {
    match bank.poll_spend_proposal(votes, s).unwrap() {
        PollDecision::Unchanged(state) => state,
        PollDecision::Execute(t) => {
            let ok = ledger.transfer(t);
            bank.approve_spend_proposal(s, ok).unwrap()
        }
    }
}

#[test]
fn scenario_d_vote_approves_and_executes_once() {
    let (mut bank, mut votes, mut ledger, bank_id) = setup(1_000);
    let s = bank.propose_spend(bank_id, 300, DEST).unwrap();
    assert_eq!(bank.spend_proposals(s.bank, s.spend).unwrap().state, SpendState::WaitingForApproval);
    let members = vec![(ALICE, Some(100)), (BOB, Some(50))];
    let vote_id = bank.trigger_vote_on_spend_proposal(&mut votes, s, 0, &members).unwrap();
    assert_eq!(bank.spend_proposals(s.bank, s.spend).unwrap().state, SpendState::Voting(vote_id));
    let threshold = votes.vote_states(ORG, GROUP, vote_id).unwrap().threshold;
    assert_eq!((threshold.support_required, threshold.turnout_required), (150, 150));
    assert_eq!(poll(&mut bank, &votes, &mut ledger, s), SpendState::Voting(vote_id));
    votes.vote_on_proposal(ORG, GROUP, vote_id, ALICE, VoterView::InFavor, None, 1).unwrap();
    assert_eq!(votes.get_vote_outcome(ORG, GROUP, vote_id), Ok(Outcome::Voting));
    votes.vote_on_proposal(ORG, GROUP, vote_id, BOB, VoterView::InFavor, None, 1).unwrap();
    assert_eq!(votes.get_vote_outcome(ORG, GROUP, vote_id), Ok(Outcome::Approved));
    assert_eq!(poll(&mut bank, &votes, &mut ledger, s), SpendState::ApprovedAndExecuted);
    assert_eq!(ledger.accounts.get(&DEST), Some(&300));
    assert_eq!(poll(&mut bank, &votes, &mut ledger, s), SpendState::ApprovedAndExecuted);
    assert_eq!(ledger.accounts.get(&DEST), Some(&300));
    assert_eq!(ledger.banks.get(&bank_id), Some(&700));
}

#[test]
fn scenario_e_sudo_approve_with_failed_transfer() {
    let (mut bank, _votes, mut ledger, bank_id) = setup(100);
    let s = bank.propose_spend(bank_id, 300, DEST).unwrap();
    assert_eq!(bank.can_sudo_approve_spend_proposal(bank_id, CONTROLLER), Ok(true));
    let t = bank.sudo_approve_spend_proposal(s).unwrap();
    assert_eq!(t, Transfer { bank: bank_id, dest: DEST, amount: 300 });
    let ok = ledger.transfer(t);
    assert!(!ok);
    assert_eq!(bank.approve_spend_proposal(s, ok), Ok(SpendState::ApprovedButNotExecuted));
    assert_eq!(bank.spend_proposals(s.bank, s.spend).unwrap().state, SpendState::ApprovedButNotExecuted);
    assert_eq!(ledger.accounts.get(&DEST), None);
    assert_eq!(bank.sudo_approve_spend_proposal(s), Err(BankError::CannotApproveAlreadyApprovedSpendProposal));
    assert_eq!(bank.approve_spend_proposal(s, true), Err(BankError::CannotApproveAlreadyApprovedSpendProposal));
    assert_eq!(bank.spend_proposals(s.bank, s.spend).unwrap().state, SpendState::ApprovedButNotExecuted);
}

#[test]
fn sudo_approve_during_vote_executes() {
    let (mut bank, mut votes, mut ledger, bank_id) = setup(1_000);
    let s = bank.propose_spend(bank_id, 200, DEST).unwrap();
    bank.trigger_vote_on_spend_proposal(&mut votes, s, 0, &vec![(ALICE, Some(5))]).unwrap();
    let t = bank.sudo_approve_spend_proposal(s).unwrap();
    let ok = ledger.transfer(t);
    assert_eq!(bank.approve_spend_proposal(s, ok), Ok(SpendState::ApprovedAndExecuted));
    assert_eq!(ledger.accounts.get(&DEST), Some(&200));
    assert_eq!(
        bank.trigger_vote_on_spend_proposal(&mut votes, s, 0, &vec![(ALICE, Some(5))]),
        Err(BankError::CannotTriggerVoteFromCurrentSpendProposalState)
    );
}

#[test]
fn trigger_vote_twice_is_refused() {
    let (mut bank, mut votes, _ledger, bank_id) = setup(1_000);
    let s = bank.propose_spend(bank_id, 200, DEST).unwrap();
    let members = vec![(ALICE, Some(5))];
    let id = bank.trigger_vote_on_spend_proposal(&mut votes, s, 0, &members).unwrap();
    assert_eq!(
        bank.trigger_vote_on_spend_proposal(&mut votes, s, 0, &members),
        Err(BankError::CannotTriggerVoteFromCurrentSpendProposalState)
    );
    assert_eq!(bank.spend_proposals(s.bank, s.spend).unwrap().state, SpendState::Voting(id));
}

#[test]
fn trigger_vote_passes_on_vote_errors() {
    let (mut bank, mut votes, _ledger, bank_id) = setup(1_000);
    let s = bank.propose_spend(bank_id, 200, DEST).unwrap();
    let r = bank.trigger_vote_on_spend_proposal(&mut votes, s, u64::MAX, &vec![(ALICE, Some(5))]);
    assert_eq!(r, Err(BankError::Vote(VoteError::TimeOverflow)));
    assert_eq!(bank.spend_proposals(s.bank, s.spend).unwrap().state, SpendState::WaitingForApproval);
}

#[test]
fn missing_bank_or_proposal_errors() {
    let (mut bank, mut votes, _ledger, bank_id) = setup(1_000);
    let none = BankSpend { bank: bank_id + 1, spend: 1 };
    let missing = BankSpend { bank: bank_id, spend: 9 };
    assert_eq!(bank.propose_spend(bank_id + 1, 1, DEST), Err(BankError::BankMustExistToProposeSpendFrom));
    assert_eq!(
        bank.trigger_vote_on_spend_proposal(&mut votes, none, 0, &vec![]),
        Err(BankError::CannotTriggerVoteForSpendIfBaseBankDNE)
    );
    assert_eq!(
        bank.trigger_vote_on_spend_proposal(&mut votes, missing, 0, &vec![]),
        Err(BankError::CannotTriggerVoteForSpendIfSpendProposalDNE)
    );
    assert_eq!(bank.sudo_approve_spend_proposal(none), Err(BankError::CannotSudoApproveSpendProposalIfBaseBankDNE));
    assert_eq!(
        bank.sudo_approve_spend_proposal(missing),
        Err(BankError::CannotSudoApproveSpendProposalIfSpendProposalDNE)
    );
    assert_eq!(bank.poll_spend_proposal(&votes, none), Err(BankError::CannotPollSpendProposalIfBaseBankDNE));
    assert_eq!(
        bank.poll_spend_proposal(&votes, missing),
        Err(BankError::CannotPollSpendProposalIfSpendProposalDNE)
    );
    assert_eq!(bank.can_spend(bank_id + 1, CONTROLLER), Err(BankError::CannotSpendIfBankDNE));
    assert_eq!(bank.can_spend(bank_id, ALICE), Ok(false));
}

#[test]
fn poll_of_waiting_proposal_is_a_no_op() {
    let (mut bank, votes, mut ledger, bank_id) = setup(1_000);
    let s = bank.propose_spend(bank_id, 200, DEST).unwrap();
    assert_eq!(poll(&mut bank, &votes, &mut ledger, s), SpendState::WaitingForApproval);
    assert_eq!(ledger.accounts.get(&DEST), None);
}

#[test]
fn spend_ids_are_fresh_per_bank() {
    let (mut bank, _votes, _ledger, bank_id) = setup(1_000);
    let a = bank.propose_spend(bank_id, 1, DEST).unwrap();
    let b = bank.propose_spend(bank_id, 2, DEST).unwrap();
    assert_eq!((a.spend, b.spend), (1, 2));
    assert!(bank.is_spend(bank_id, 1) && bank.is_spend(bank_id, 2));
    assert!(!bank.is_spend(bank_id, 3));
}

#[test]
fn opening_banks_respects_minimum_and_limit() {
    let mut bank = Bank::new(10, 2);
    assert_eq!(
        bank.open_bank_account(ORG, GROUP, 9, None),
        Err(BankError::CannotOpenBankAccountIfDepositIsBelowModuleMinimum)
    );
    let first = bank.open_bank_account(ORG, GROUP, 10, None).unwrap();
    let second = bank.open_bank_account(ORG, GROUP, 50, None).unwrap();
    assert_eq!((first, second), (1, 2));
    assert_eq!(
        bank.open_bank_account(ORG, GROUP, 50, None),
        Err(BankError::CannotOpenBankAccountForOrgIfBankCountExceedsLimitPerOrg)
    );
    let other = bank.open_bank_account(ORG + 1, GROUP, 50, Some(CONTROLLER)).unwrap();
    assert_eq!(other, 3);
    assert_eq!(bank.total_bank_count(), 3);
    assert_eq!(bank.org_treasury_count(ORG), 2);
    assert!(bank.is_bank(3) && !bank.is_bank(4));
    assert_eq!(bank.bank_stores(3).unwrap().controller, Some(CONTROLLER));
    let mut ids = bank.get_banks_for_org(ORG).unwrap();
    ids.sort();
    assert_eq!(ids, vec![1, 2]);
    assert_eq!(bank.get_banks_for_org(ORG + 5), Err(BankError::NoBanksForOrg));
}

#[test]
fn membership_permissions() {
    let (bank, _votes, _ledger, bank_id) = setup(1_000);
    let members = vec![ALICE, BOB];
    assert!(Bank::can_open_bank_account_for_org(&members, ALICE));
    assert!(!Bank::can_open_bank_account_for_org(&members, DEST));
    assert_eq!(bank.can_propose_spend(bank_id, &members, BOB), Ok(true));
    assert_eq!(bank.can_propose_spend(bank_id, &members, DEST), Ok(false));
    assert_eq!(bank.can_propose_spend(bank_id + 1, &members, BOB), Err(BankError::CannotProposeSpendIfBankDNE));
    assert_eq!(bank.can_trigger_vote_on_spend_proposal(bank_id, &members, ALICE), Ok(true));
    assert_eq!(
        bank.can_trigger_vote_on_spend_proposal(bank_id + 1, &members, ALICE),
        Err(BankError::CannotTriggerVoteForSpendIfBaseBankDNE)
    );
    assert_eq!(bank.can_poll_spend_proposal(bank_id, &vec![], ALICE), Ok(false));
    assert_eq!(
        bank.can_poll_spend_proposal(bank_id + 1, &members, ALICE),
        Err(BankError::CannotPollSpendProposalIfBaseBankDNE)
    );
    assert_eq!(bank.can_sudo_approve_spend_proposal(bank_id, ALICE), Ok(false));
    assert_eq!(
        bank.can_sudo_approve_spend_proposal(bank_id + 1, CONTROLLER),
        Err(BankError::CannotSudoApproveSpendProposalIfBaseBankDNE)
    );
    assert_eq!(bank.can_spend(bank_id, CONTROLLER), Ok(true));
}

#[test]
fn plan_gives_the_id_that_opening_gives() {
    let mut bank = Bank::new(10, 1);
    assert_eq!(
        bank.plan_bank_account(ORG, 5),
        Err(BankError::CannotOpenBankAccountIfDepositIsBelowModuleMinimum)
    );
    let planned = bank.plan_bank_account(ORG, 10).unwrap();
    assert_eq!(bank.total_bank_count(), 0);
    assert_eq!(bank.open_bank_account(ORG, GROUP, 10, None), Ok(planned));
    assert_eq!(
        bank.plan_bank_account(ORG, 10),
        Err(BankError::CannotOpenBankAccountForOrgIfBankCountExceedsLimitPerOrg)
    );
}
