//! Organizational bank accounts and the spend proposals that a vote gates:
//! `WaitingForApproval -> Voting(vote) -> ApprovedAndExecuted` or
//! `ApprovedButNotExecuted`.
//!
//! Moving funds is the host ledger's work. The operations that need a
//! transfer decide whether one is due and hand it back as a [`Transfer`];
//! the host attempts it and reports the result with
//! [`Bank::approve_spend_proposal`], within the same operation.
use vstd::prelude::*;
use crate::engine::{Reservations, VoteStore, VoteStoreView};
use crate::table::{has_key, keys_unique, Table};
use crate::threshold::ThresholdConfig;
use crate::vote::{Outcome, VoteError};

verus! {

/// An organizational bank account: the organization and share group whose
/// members govern it, and an optional controller who may approve spends
/// directly.
#[derive(Clone, Copy, Debug, PartialEq, Eq, Structural)]
pub struct BankState {
    pub org: u32,
    pub group: u32,
    pub controller: Option<u64>,
}

impl BankState {
    pub fn new(org: u32, group: u32, controller: Option<u64>) -> (r: Self)
        ensures
            r == (BankState { org, group, controller }),
    {
        BankState { org, group, controller }
    }

    /// Whether `who` is the bank's controller.
    pub fn is_controller(&self, who: u64) -> (r: bool)
        ensures
            r == (self.controller == Some(who)),
    {
        match self.controller {
            Some(c) => c == who,
            None => false,
        }
    }
}

/// Where a spend proposal stands.
#[derive(Clone, Copy, Debug, PartialEq, Eq, Structural)]
pub enum SpendState {
    WaitingForApproval,
    Voting(u64),
    ApprovedAndExecuted,
    ApprovedButNotExecuted,
}

/// A proposal to move `amount` out of a bank account to `dest`.
#[derive(Clone, Copy, Debug, PartialEq, Eq, Structural)]
pub struct SpendProposal {
    pub amount: u128,
    pub dest: u64,
    pub state: SpendState,
}

impl SpendProposal {
    /// A new proposal, waiting for approval.
    pub fn new(amount: u128, dest: u64) -> (r: Self)
        ensures
            r == (SpendProposal { amount, dest, state: SpendState::WaitingForApproval }),
    {
        SpendProposal { amount, dest, state: SpendState::WaitingForApproval }
    }
}

/// A spend proposal's identifier: its bank and its number there.
#[derive(Clone, Copy, Debug, PartialEq, Eq, Structural)]
pub struct BankSpend {
    pub bank: u64,
    pub spend: u64,
}

/// A transfer out of a bank's account that the host is to attempt.
#[derive(Clone, Copy, Debug, PartialEq, Eq, Structural)]
pub struct Transfer {
    pub bank: u64,
    pub dest: u64,
    pub amount: u128,
}

/// What polling a spend proposal calls for.
#[derive(Clone, Copy, Debug, PartialEq, Eq, Structural)]
pub enum PollDecision {
    /// Nothing to do; the proposal stands in this state.
    Unchanged(SpendState),
    /// Its vote approved it: attempt this transfer and report the result.
    Execute(Transfer),
}

/// Why an operation on banks or spend proposals failed.
#[derive(Clone, Copy, Debug, PartialEq, Eq, Structural)]
pub enum BankError {
    CannotOpenBankAccountIfDepositIsBelowModuleMinimum,
    CannotOpenBankAccountForOrgIfBankCountExceedsLimitPerOrg,
    CannotSpendIfBankDNE,
    CannotProposeSpendIfBankDNE,
    BankMustExistToProposeSpendFrom,
    CannotTriggerVoteForSpendIfBaseBankDNE,
    CannotTriggerVoteForSpendIfSpendProposalDNE,
    CannotTriggerVoteFromCurrentSpendProposalState,
    CannotSudoApproveSpendProposalIfBaseBankDNE,
    CannotSudoApproveSpendProposalIfSpendProposalDNE,
    CannotApproveAlreadyApprovedSpendProposal,
    CannotPollSpendProposalIfBaseBankDNE,
    CannotPollSpendProposalIfSpendProposalDNE,
    NoBanksForOrg,
    /// No identifier is left for a new bank or spend proposal.
    IdSpaceExhausted,
    /// The count of banks would exceed its range.
    BankCountOverflow,
    /// The vote engine refused to open or report a vote.
    Vote(VoteError),
}

/// The bank stores, seen as maps.
pub struct BankView {
    pub bank_id_nonce: u64,
    pub spend_nonces: Map<u64, u64>,
    pub total_bank_count: u32,
    pub org_treasury_count: Map<u32, u32>,
    pub banks: Map<u64, BankState>,
    pub spends: Map<(u64, u64), SpendProposal>,
    pub min_deposit: u128,
    pub max_treasury_per_org: u32,
}

/// Bank accounts and their spend proposals.
pub struct Bank {
    bank_id_nonce: u64,
    spend_nonce_map: Table<u64, u64>,
    total_bank_count: u32,
    org_treasury_count: Table<u32, u32>,
    bank_stores: Table<u64, BankState>,
    spend_proposals: Table<(u64, u64), SpendProposal>,
    min_deposit: u128,
    max_treasury_per_org: u32,
}

impl View for Bank {
    type V = BankView;

    closed spec fn view(&self) -> BankView {
        BankView {
            bank_id_nonce: self.bank_id_nonce,
            spend_nonces: self.spend_nonce_map@,
            total_bank_count: self.total_bank_count,
            org_treasury_count: self.org_treasury_count@,
            banks: self.bank_stores@,
            spends: self.spend_proposals@,
            min_deposit: self.min_deposit,
            max_treasury_per_org: self.max_treasury_per_org,
        }
    }
}

/// How far along a spend proposal is.
pub open spec fn stage(s: SpendState) -> int {
    match s {
        SpendState::WaitingForApproval => 0,
        SpendState::Voting(_) => 1,
        _ => 2,
    }
}

/// Whether a proposal has been approved, executed or not.
pub open spec fn is_approved(s: SpendState) -> bool {
    stage(s) == 2
}

/// From `old` to `new` no bank or proposal disappears, a proposal keeps its
/// amount and destination, its state only moves forward, and an approved
/// proposal's state never changes.
pub open spec fn spends_forward(old: BankView, new: BankView) -> bool {
    &&& forall|b: u64| #[trigger] old.banks.contains_key(b) ==> new.banks.contains_key(b) && new.banks[b] == old.banks[b]
    &&& forall|k: (u64, u64)| #[trigger]
        old.spends.contains_key(k) ==> {
            &&& new.spends.contains_key(k)
            &&& new.spends[k].amount == old.spends[k].amount
            &&& new.spends[k].dest == old.spends[k].dest
            &&& stage(new.spends[k].state) >= stage(old.spends[k].state)
            &&& is_approved(old.spends[k].state) ==> new.spends[k].state == old.spends[k].state
        }
}

/// Where the search for a free spend identifier of a bank starts.
pub open spec fn spend_nonce_of(v: BankView, bank: u64) -> u64 {
    if v.spend_nonces.contains_key(bank) {
        v.spend_nonces[bank]
    } else {
        0
    }
}

/// The count of banks of an organization.
pub open spec fn treasury_count_of(v: BankView, org: u32) -> u32 {
    if v.org_treasury_count.contains_key(org) {
        v.org_treasury_count[org]
    } else {
        0
    }
}

/// The transfer that approving a proposal calls for.
pub open spec fn transfer_for(spend: BankSpend, p: SpendProposal) -> Transfer {
    Transfer { bank: spend.bank, dest: p.dest, amount: p.amount }
}

/// The state an approved proposal takes: executed when its transfer
/// succeeded, else approved but not executed.
pub open spec fn approved_state(executed: bool) -> SpendState {
    if executed {
        SpendState::ApprovedAndExecuted
    } else {
        SpendState::ApprovedButNotExecuted
    }
}

/// The error approving a proposal directly fails with, if any.
pub open spec fn approve_error(v: BankView, spend: BankSpend) -> Option<BankError> {
    if !v.banks.contains_key(spend.bank) {
        Some(BankError::CannotSudoApproveSpendProposalIfBaseBankDNE)
    } else if !v.spends.contains_key((spend.bank, spend.spend)) {
        Some(BankError::CannotSudoApproveSpendProposalIfSpendProposalDNE)
    } else if is_approved(v.spends[(spend.bank, spend.spend)].state) {
        Some(BankError::CannotApproveAlreadyApprovedSpendProposal)
    } else {
        None
    }
}

/// Whether every bank identifier after the nonce is taken.
pub open spec fn bank_ids_exhausted(v: BankView) -> bool {
    forall|c: u64| v.bank_id_nonce < c ==> #[trigger] v.banks.contains_key(c)
}

/// `id` is the first bank identifier after the nonce that no bank has.
pub open spec fn first_free_bank_id(v: BankView, id: u64) -> bool {
    &&& !v.banks.contains_key(id)
    &&& v.bank_id_nonce < id
    &&& forall|c: u64| v.bank_id_nonce < c < id ==> #[trigger] v.banks.contains_key(c)
}

/// There is one first free bank identifier.
pub proof fn lemma_first_free_bank_id_unique(v: BankView, a: u64, b: u64)
    requires
        first_free_bank_id(v, a),
        first_free_bank_id(v, b),
    ensures
        a == b,
{
    if a < b {
        assert(v.banks.contains_key(a));
    } else if b < a {
        assert(v.banks.contains_key(b));
    }
}

/// Whether every spend identifier of the bank after its nonce is taken.
pub open spec fn spend_ids_exhausted(v: BankView, bank: u64) -> bool {
    forall|c: u64| spend_nonce_of(v, bank) < c ==> #[trigger] v.spends.contains_key((bank, c))
}

/// The error opening a bank account fails with, if any.
pub open spec fn open_bank_error(v: BankView, org: u32, deposit: u128) -> Option<BankError> {
    if deposit < v.min_deposit {
        Some(BankError::CannotOpenBankAccountIfDepositIsBelowModuleMinimum)
    } else if treasury_count_of(v, org) + 1 > v.max_treasury_per_org {
        Some(BankError::CannotOpenBankAccountForOrgIfBankCountExceedsLimitPerOrg)
    } else if v.total_bank_count == u32::MAX {
        Some(BankError::BankCountOverflow)
    } else if bank_ids_exhausted(v) {
        Some(BankError::IdSpaceExhausted)
    } else {
        None
    }
}

/// What polling a proposal gives: for a proposal in `Voting`, the transfer
/// to attempt once its vote is `Approved`; otherwise its state unchanged.
pub open spec fn poll_result(v: BankView, votes: VoteStoreView, spend: BankSpend) -> Result<
    PollDecision,
    BankError,
> {
    let k = (spend.bank, spend.spend);
    if !v.banks.contains_key(spend.bank) {
        Err(BankError::CannotPollSpendProposalIfBaseBankDNE)
    } else if !v.spends.contains_key(k) {
        Err(BankError::CannotPollSpendProposalIfSpendProposalDNE)
    } else {
        let bank = v.banks[spend.bank];
        let p = v.spends[k];
        match p.state {
            SpendState::Voting(vote_id) => {
                let vk = (bank.org, bank.group, vote_id);
                if !votes.outcomes.contains_key(vk) {
                    Err(BankError::Vote(VoteError::NoOutcomeAssociatedWithVoteID))
                } else if votes.outcomes[vk] == Outcome::Approved {
                    Ok(PollDecision::Execute(transfer_for(spend, p)))
                } else {
                    Ok(PollDecision::Unchanged(p.state))
                }
            },
            _ => Ok(PollDecision::Unchanged(p.state)),
        }
    }
}

/// Whether one of the first `i` stored banks is `b`, of organization `org`.
pub open spec fn listed_before(es: Seq<(u64, BankState)>, i: int, org: u32, b: u64) -> bool {
    exists|x: int| 0 <= x < i && #[trigger] es[x].0 == b && es[x].1.org == org
}

/// Polling an approved proposal calls for nothing and reports its state as
/// it is, however often it is repeated: a spend is executed at most once
/// through polling.
pub proof fn lemma_poll_after_approval(v: BankView, votes: VoteStoreView, spend: BankSpend)
    requires
        v.banks.contains_key(spend.bank),
        v.spends.contains_key((spend.bank, spend.spend)),
        is_approved(v.spends[(spend.bank, spend.spend)].state),
    ensures
        poll_result(v, votes, spend) == Ok::<PollDecision, BankError>(
            PollDecision::Unchanged(v.spends[(spend.bank, spend.spend)].state),
        ),
{
}

/// Once a proposal is approved, approving it again fails and changes
/// nothing.
pub proof fn lemma_no_second_approval(v: BankView, spend: BankSpend)
    requires
        v.banks.contains_key(spend.bank),
        v.spends.contains_key((spend.bank, spend.spend)),
        is_approved(v.spends[(spend.bank, spend.spend)].state),
    ensures
        approve_error(v, spend) == Some(BankError::CannotApproveAlreadyApprovedSpendProposal),
{
}

impl Bank {
    /// The bank's tables are well formed.
    pub closed spec fn wf(&self) -> bool {
        &&& self.spend_nonce_map.wf()
        &&& self.org_treasury_count.wf()
        &&& self.bank_stores.wf()
        &&& self.spend_proposals.wf()
    }

    /// No banks yet; opening one takes at least `min_deposit`, and an
    /// organization has at most `max_treasury_per_org` of them.
    pub fn new(min_deposit: u128, max_treasury_per_org: u32) -> (r: Self)
        ensures
            r.wf(),
            r@.bank_id_nonce == 0,
            r@.spend_nonces == Map::<u64, u64>::empty(),
            r@.total_bank_count == 0,
            r@.org_treasury_count == Map::<u32, u32>::empty(),
            r@.banks == Map::<u64, BankState>::empty(),
            r@.spends == Map::<(u64, u64), SpendProposal>::empty(),
            r@.min_deposit == min_deposit,
            r@.max_treasury_per_org == max_treasury_per_org,
    {
        Bank {
            bank_id_nonce: 0,
            spend_nonce_map: Table::new(),
            total_bank_count: 0,
            org_treasury_count: Table::new(),
            bank_stores: Table::new(),
            spend_proposals: Table::new(),
            min_deposit,
            max_treasury_per_org,
        }
    }

    /// Whether a bank with this identifier exists.
    pub fn is_bank(&self, id: u64) -> (r: bool)
        requires
            self.wf(),
        ensures
            r == self@.banks.contains_key(id),
    {
        self.bank_stores.contains(&id)
    }

    /// Whether the bank has a spend proposal with this identifier.
    pub fn is_spend(&self, bank: u64, spend: u64) -> (r: bool)
        requires
            self.wf(),
        ensures
            r == self@.spends.contains_key((bank, spend)),
    {
        self.spend_proposals.contains(&(bank, spend))
    }

    /// The bank with this identifier, if any.
    pub fn bank_stores(&self, id: u64) -> (r: Option<BankState>)
        requires
            self.wf(),
        ensures
            r == (if self@.banks.contains_key(id) {
                Some(self@.banks[id])
            } else {
                None::<BankState>
            }),
    {
        self.bank_stores.get(&id)
    }

    /// The spend proposal with this identifier, if any.
    pub fn spend_proposals(&self, bank: u64, spend: u64) -> (r: Option<SpendProposal>)
        requires
            self.wf(),
        ensures
            r == (if self@.spends.contains_key((bank, spend)) {
                Some(self@.spends[(bank, spend)])
            } else {
                None::<SpendProposal>
            }),
    {
        self.spend_proposals.get(&(bank, spend))
    }

    /// How many banks are open.
    pub fn total_bank_count(&self) -> (r: u32)
        ensures
            r == self@.total_bank_count,
    {
        self.total_bank_count
    }

    /// How many banks an organization has open.
    pub fn org_treasury_count(&self, org: u32) -> (r: u32)
        requires
            self.wf(),
        ensures
            r == treasury_count_of(self@, org),
    {
        match self.org_treasury_count.get(&org) {
            Some(c) => c,
            None => 0,
        }
    }
    /// The first bank identifier after the nonce that no bank has.
    fn find_free_bank_id(&self) -> (r: Result<u64, BankError>)
        requires
            self.wf(),
        ensures
            match r {
                Ok(id) => first_free_bank_id(self@, id),
                Err(e) => e == BankError::IdSpaceExhausted && bank_ids_exhausted(self@),
            },
    {
        if self.bank_id_nonce == u64::MAX {
            return Err(BankError::IdSpaceExhausted);
        }
        let mut bank_nonce_id: u64 = self.bank_id_nonce + 1;
        while self.is_bank(bank_nonce_id)
            invariant
                self.wf(),
                self@.bank_id_nonce < bank_nonce_id,
                forall|c: u64|
                    self@.bank_id_nonce < c < bank_nonce_id ==> #[trigger] self@.banks.contains_key(c),
            decreases u64::MAX - bank_nonce_id,
        {
            if bank_nonce_id == u64::MAX {
                assert forall|c: u64| self@.bank_id_nonce < c implies #[trigger] self@.banks.contains_key(c) by {
                    if c == bank_nonce_id {
                        assert(self@.banks.contains_key(bank_nonce_id));
                    }
                }
                return Err(BankError::IdSpaceExhausted);
            }
            bank_nonce_id += 1;
        }
        Ok(bank_nonce_id)
    }

    /// A bank identifier no bank has: the first free one after the nonce,
    /// which moves to it.
    fn generate_bank_uid(&mut self) -> (r: Result<u64, BankError>)
        requires
            old(self).wf(),
        ensures
            final(self).wf(),
            match r {
                Ok(id) => {
                    &&& first_free_bank_id(old(self)@, id)
                    &&& final(self)@ == (BankView { bank_id_nonce: id, ..old(self)@ })
                },
                Err(e) => e == BankError::IdSpaceExhausted && bank_ids_exhausted(old(self)@)
                    && final(self)@ == old(self)@,
            },
    {
        let bank_nonce_id = match self.find_free_bank_id() {
            Ok(id) => id,
            Err(e) => return Err(e),
        };
        self.bank_id_nonce = bank_nonce_id;
        Ok(bank_nonce_id)
    }

    /// Checks that a bank account can be opened and gives the identifier
    /// `open_bank_account` will give it, changing nothing; the host moves
    /// the deposit into that account before opening it.
    pub fn plan_bank_account(&self, org: u32, deposit: u128) -> (r: Result<u64, BankError>)
        requires
            self.wf(),
        ensures
            match open_bank_error(self@, org, deposit) {
                Some(e) => r == Err::<u64, BankError>(e),
                None => r is Ok && first_free_bank_id(self@, r->Ok_0),
            },
    {
        if deposit < self.min_deposit {
            return Err(BankError::CannotOpenBankAccountIfDepositIsBelowModuleMinimum);
        }
        let count = self.org_treasury_count(org);
        if count >= self.max_treasury_per_org {
            return Err(BankError::CannotOpenBankAccountForOrgIfBankCountExceedsLimitPerOrg);
        }
        if self.total_bank_count == u32::MAX {
            return Err(BankError::BankCountOverflow);
        }
        self.find_free_bank_id()
    }

    /// A spend identifier the bank has no proposal for: the first free one
    /// after the bank's nonce, which moves to it.
    fn generate_spend_uid(&mut self, seed: u64) -> (r: Result<u64, BankError>)
        requires
            old(self).wf(),
        ensures
            final(self).wf(),
            match r {
                Ok(id) => {
                    &&& !old(self)@.spends.contains_key((seed, id))
                    &&& spend_nonce_of(old(self)@, seed) < id
                    &&& forall|c: u64|
                        spend_nonce_of(old(self)@, seed) < c < id ==> #[trigger] old(self)@.spends.contains_key(
                            (seed, c),
                        )
                    &&& final(self)@ == (BankView {
                        spend_nonces: old(self)@.spend_nonces.insert(seed, id),
                        ..old(self)@
                    })
                },
                Err(e) => e == BankError::IdSpaceExhausted && spend_ids_exhausted(old(self)@, seed)
                    && final(self)@ == old(self)@,
            },
    {
        let nonce = match self.spend_nonce_map.get(&seed) {
            Some(n) => n,
            None => 0,
        };
        if nonce == u64::MAX {
            return Err(BankError::IdSpaceExhausted);
        }
        let mut id_nonce: u64 = nonce + 1;
        while self.is_spend(seed, id_nonce)
            invariant
                self.wf(),
                self@ == old(self)@,
                nonce == spend_nonce_of(self@, seed),
                nonce < id_nonce,
                forall|c: u64| nonce < c < id_nonce ==> #[trigger] self@.spends.contains_key((seed, c)),
            decreases u64::MAX - id_nonce,
        {
            if id_nonce == u64::MAX {
                assert forall|c: u64| nonce < c implies #[trigger] self@.spends.contains_key((seed, c)) by {
                    if c == id_nonce {
                        assert(self@.spends.contains_key((seed, id_nonce)));
                    }
                }
                return Err(BankError::IdSpaceExhausted);
            }
            id_nonce += 1;
        }
        self.spend_nonce_map.insert(seed, id_nonce);
        Ok(id_nonce)
    }

    /// The banks of an organization, each once; fails with `NoBanksForOrg`
    /// when it has none.
    pub fn get_banks_for_org(&self, org: u32) -> (r: Result<Vec<u64>, BankError>)
        requires
            self.wf(),
        ensures
            match r {
                Ok(ids) => {
                    &&& ids@.len() > 0
                    &&& ids@.no_duplicates()
                    &&& forall|b: u64|
                        ids@.contains(b) <==> self@.banks.contains_key(b) && self@.banks[b].org == org
                },
                Err(e) => e == BankError::NoBanksForOrg && forall|b: u64| #[trigger]
                    self@.banks.contains_key(b) ==> self@.banks[b].org != org,
            },
    {
        proof {
            self.bank_stores.lemma_entries();
        }
        let ghost es = self.bank_stores.entries();
        let mut ret_vec: Vec<u64> = Vec::new();
        let mut i: usize = 0;
        let n = self.bank_stores.len();
        while i < n
            invariant
                self.wf(),
                es == self.bank_stores.entries(),
                n == es.len(),
                keys_unique(es),
                i <= n,
                ret_vec@.no_duplicates(),
                forall|j: int| 0 <= j < ret_vec@.len() ==> listed_before(es, i as int, org, #[trigger] ret_vec@[j]),
                forall|x: int| 0 <= x < i && #[trigger] es[x].1.org == org ==> ret_vec@.contains(es[x].0),
            decreases n - i,
        {
            let (bank_id, bank_state) = self.bank_stores.entry_at(i);
            if bank_state.org == org {
                proof {
                    assert forall|j: int| 0 <= j < ret_vec@.len() implies #[trigger] ret_vec@[j] != bank_id by {
                        assert(listed_before(es, i as int, org, ret_vec@[j]));
                        let x = choose|x: int| 0 <= x < i && #[trigger] es[x].0 == ret_vec@[j] && es[x].1.org == org;
                        assert(x != i);
                    }
                }
                let ghost prev = ret_vec@;
                ret_vec.push(bank_id);
                proof {
                    assert(ret_vec@.drop_last() =~= prev);
                    assert forall|j: int| 0 <= j < ret_vec@.len() implies listed_before(es, i + 1, org, #[trigger] ret_vec@[j]) by {
                        if j < ret_vec@.len() - 1 {
                            assert(ret_vec@[j] == ret_vec@.drop_last()[j]);
                            assert(listed_before(es, i as int, org, ret_vec@.drop_last()[j]));
                            let x = choose|x: int| 0 <= x < i && #[trigger] es[x].0 == ret_vec@.drop_last()[j] && es[x].1.org == org;
                            assert(es[x].0 == ret_vec@[j]);
                        } else {
                            assert(es[i as int].0 == ret_vec@[j]);
                        }
                    }
                    assert forall|x: int| 0 <= x < i + 1 && #[trigger] es[x].1.org == org implies ret_vec@.contains(es[x].0) by {
                        if x < i {
                            assert(prev.contains(es[x].0));
                            let y = choose|y: int| 0 <= y < prev.len() && prev[y] == es[x].0;
                            assert(ret_vec@[y] == es[x].0);
                        } else {
                            assert(ret_vec@[ret_vec@.len() - 1] == es[x].0);
                        }
                    }
                }
            }
            i += 1;
        }
        proof {
            assert forall|b: u64| ret_vec@.contains(b) <==> self@.banks.contains_key(b) && self@.banks[b].org == org by {
                if ret_vec@.contains(b) {
                    let j = choose|j: int| 0 <= j < ret_vec@.len() && ret_vec@[j] == b;
                    assert(listed_before(es, n as int, org, ret_vec@[j]));
                    let x = choose|x: int| 0 <= x < n && #[trigger] es[x].0 == ret_vec@[j] && es[x].1.org == org;
                }
                if self@.banks.contains_key(b) && self@.banks[b].org == org {
                    assert(has_key(es, b));
                    let x = choose|x: int| 0 <= x < es.len() && #[trigger] es[x].0 == b;
                    assert(es[x].1.org == org);
                }
            }
        }
        if ret_vec.len() > 0 {
            Ok(ret_vec)
        } else {
            proof {
                assert forall|b: u64| #[trigger] self@.banks.contains_key(b) implies self@.banks[b].org != org by {
                    if self@.banks[b].org == org {
                        assert(ret_vec@.contains(b));
                    }
                }
            }
            Err(BankError::NoBanksForOrg)
        }
    }
    /// Whether `who` is among `members`.
    fn is_member(members: &Vec<u64>, who: u64) -> (r: bool)
        ensures
            r == members@.contains(who),
    {
        let mut i: usize = 0;
        while i < members.len()
            invariant
                i <= members@.len(),
                forall|j: int| 0 <= j < i ==> members@[j] != who,
            decreases members@.len() - i,
        {
            if members[i] == who {
                return true;
            }
            i += 1;
        }
        false
    }

    /// Whether `who` may open a bank account for an organization whose
    /// members are `org_members`: they must be one of them.
    pub fn can_open_bank_account_for_org(org_members: &Vec<u64>, who: u64) -> (r: bool)
        ensures
            r == org_members@.contains(who),
    {
        Self::is_member(org_members, who)
    }

    /// Whether `who` may propose spends from the bank, whose organization
    /// has the members `org_members`: they must be one of them.
    pub fn can_propose_spend(&self, bank: u64, org_members: &Vec<u64>, who: u64) -> (r: Result<bool, BankError>)
        requires
            self.wf(),
        ensures
            r == (if self@.banks.contains_key(bank) {
                Ok::<bool, BankError>(org_members@.contains(who))
            } else {
                Err::<bool, BankError>(BankError::CannotProposeSpendIfBankDNE)
            }),
    {
        if !self.is_bank(bank) {
            return Err(BankError::CannotProposeSpendIfBankDNE);
        }
        Ok(Self::is_member(org_members, who))
    }

    /// Whether `who` may open a vote on the bank's spend proposals: they
    /// must be one of its organization's members `org_members`.
    pub fn can_trigger_vote_on_spend_proposal(
        &self,
        bank: u64,
        org_members: &Vec<u64>,
        who: u64,
    ) -> (r: Result<bool, BankError>)
        requires
            self.wf(),
        ensures
            r == (if self@.banks.contains_key(bank) {
                Ok::<bool, BankError>(org_members@.contains(who))
            } else {
                Err::<bool, BankError>(BankError::CannotTriggerVoteForSpendIfBaseBankDNE)
            }),
    {
        if !self.is_bank(bank) {
            return Err(BankError::CannotTriggerVoteForSpendIfBaseBankDNE);
        }
        Ok(Self::is_member(org_members, who))
    }

    /// Whether `who` may poll the bank's spend proposals: they must be one
    /// of its organization's members `org_members`.
    pub fn can_poll_spend_proposal(&self, bank: u64, org_members: &Vec<u64>, who: u64) -> (r: Result<
        bool,
        BankError,
    >)
        requires
            self.wf(),
        ensures
            r == (if self@.banks.contains_key(bank) {
                Ok::<bool, BankError>(org_members@.contains(who))
            } else {
                Err::<bool, BankError>(BankError::CannotPollSpendProposalIfBaseBankDNE)
            }),
    {
        if !self.is_bank(bank) {
            return Err(BankError::CannotPollSpendProposalIfBaseBankDNE);
        }
        Ok(Self::is_member(org_members, who))
    }

    /// Whether `who` may approve the bank's spend proposals directly: they
    /// must be its controller.
    pub fn can_sudo_approve_spend_proposal(&self, bank: u64, who: u64) -> (r: Result<bool, BankError>)
        requires
            self.wf(),
        ensures
            r == (if self@.banks.contains_key(bank) {
                Ok::<bool, BankError>(self@.banks[bank].controller == Some(who))
            } else {
                Err::<bool, BankError>(BankError::CannotSudoApproveSpendProposalIfBaseBankDNE)
            }),
    {
        match self.bank_stores.get(&bank) {
            Some(b) => Ok(b.is_controller(who)),
            None => Err(BankError::CannotSudoApproveSpendProposalIfBaseBankDNE),
        }
    }

    /// Whether `who` may spend from the bank: they must be its controller.
    pub fn can_spend(&self, bank: u64, who: u64) -> (r: Result<bool, BankError>)
        requires
            self.wf(),
        ensures
            r == (if self@.banks.contains_key(bank) {
                Ok::<bool, BankError>(self@.banks[bank].controller == Some(who))
            } else {
                Err::<bool, BankError>(BankError::CannotSpendIfBankDNE)
            }),
    {
        match self.bank_stores.get(&bank) {
            Some(b) => Ok(b.is_controller(who)),
            None => Err(BankError::CannotSpendIfBankDNE),
        }
    }

    /// Registers a new bank account for an organization, governed by the
    /// members of its share group `group`. The deposit must reach the
    /// minimum and the organization must stay within its count of banks.
    /// The host moves `deposit` from the opener into the new account as part
    /// of the same operation.
    pub fn open_bank_account(
        &mut self,
        org: u32,
        group: u32,
        deposit: u128,
        controller: Option<u64>,
    ) -> (r: Result<u64, BankError>)
        requires
            old(self).wf(),
        ensures
            final(self).wf(),
            spends_forward(old(self)@, final(self)@),
            match open_bank_error(old(self)@, org, deposit) {
                Some(e) => r == Err::<u64, BankError>(e) && final(self)@ == old(self)@,
                None => r is Ok && {
                    let id = r->Ok_0;
                    &&& first_free_bank_id(old(self)@, id)
                    &&& final(self)@ == (BankView {
                        bank_id_nonce: id,
                        total_bank_count: (old(self)@.total_bank_count + 1) as u32,
                        org_treasury_count: old(self)@.org_treasury_count.insert(
                            org,
                            (treasury_count_of(old(self)@, org) + 1) as u32,
                        ),
                        banks: old(self)@.banks.insert(id, BankState { org, group, controller }),
                        ..old(self)@
                    })
                },
            },
    {
        if deposit < self.min_deposit {
            return Err(BankError::CannotOpenBankAccountIfDepositIsBelowModuleMinimum);
        }
        let count = self.org_treasury_count(org);
        if count >= self.max_treasury_per_org {
            return Err(BankError::CannotOpenBankAccountForOrgIfBankCountExceedsLimitPerOrg);
        }
        let new_org_bank_count = count + 1;
        if self.total_bank_count == u32::MAX {
            return Err(BankError::BankCountOverflow);
        }
        let new_treasury_id = match self.generate_bank_uid() {
            Ok(id) => id,
            Err(e) => return Err(e),
        };
        let new_bank = BankState::new(org, group, controller);
        self.bank_stores.insert(new_treasury_id, new_bank);
        self.org_treasury_count.insert(org, new_org_bank_count);
        self.total_bank_count = self.total_bank_count + 1;
        Ok(new_treasury_id)
    }

    /// Proposes to spend `amount` from a bank to `dest`; the proposal gets a
    /// fresh identifier within the bank and waits for approval.
    pub fn propose_spend(&mut self, bank_id: u64, amount: u128, dest: u64) -> (r: Result<BankSpend, BankError>)
        requires
            old(self).wf(),
        ensures
            final(self).wf(),
            spends_forward(old(self)@, final(self)@),
            !old(self)@.banks.contains_key(bank_id) ==> r == Err::<BankSpend, BankError>(
                BankError::BankMustExistToProposeSpendFrom,
            ) && final(self)@ == old(self)@,
            old(self)@.banks.contains_key(bank_id) && spend_ids_exhausted(old(self)@, bank_id) ==> r
                == Err::<BankSpend, BankError>(BankError::IdSpaceExhausted) && final(self)@ == old(self)@,
            old(self)@.banks.contains_key(bank_id) && !spend_ids_exhausted(old(self)@, bank_id) ==> r is Ok && {
                let id = r->Ok_0;
                &&& id.bank == bank_id
                &&& !old(self)@.spends.contains_key((bank_id, id.spend))
                &&& spend_nonce_of(old(self)@, bank_id) < id.spend
                &&& final(self)@ == (BankView {
                    spend_nonces: old(self)@.spend_nonces.insert(bank_id, id.spend),
                    spends: old(self)@.spends.insert(
                        (bank_id, id.spend),
                        SpendProposal { amount, dest, state: SpendState::WaitingForApproval },
                    ),
                    ..old(self)@
                })
            },
    {
        if !self.is_bank(bank_id) {
            return Err(BankError::BankMustExistToProposeSpendFrom);
        }
        let spend_proposal = SpendProposal::new(amount, dest);
        let new_spend_id = match self.generate_spend_uid(bank_id) {
            Ok(id) => id,
            Err(e) => return Err(e),
        };
        self.spend_proposals.insert((bank_id, new_spend_id), spend_proposal);
        Ok(BankSpend { bank: bank_id, spend: new_spend_id })
    }

    /// Opens a unanimous-consent vote on a proposal that waits for approval,
    /// among the members of the bank's share group, and moves the proposal
    /// to `Voting` on it. `reservations` are the shares reserved for each
    /// member, from which their power is minted.
    pub fn trigger_vote_on_spend_proposal(
        &mut self,
        votes: &mut VoteStore,
        spend_id: BankSpend,
        now: u64,
        reservations: &Reservations,
    ) -> (r: Result<u64, BankError>)
        requires
            old(self).wf(),
            old(votes).wf(),
        ensures
            final(self).wf(),
            final(votes).wf(),
            spends_forward(old(self)@, final(self)@),
            crate::engine::evolves(old(votes)@, final(votes)@),
            match r {
                Ok(vote_id) => {
                    let bank = old(self)@.banks[spend_id.bank];
                    let key = (spend_id.bank, spend_id.spend);
                    let vk = (bank.org, bank.group, vote_id);
                    &&& old(self)@.banks.contains_key(spend_id.bank)
                    &&& old(self)@.spends.contains_key(key)
                    &&& old(self)@.spends[key].state == SpendState::WaitingForApproval
                    &&& !crate::engine::id_taken(old(votes)@, bank.org, bank.group, vote_id)
                    &&& final(votes)@.outcomes == old(votes)@.outcomes.insert(vk, Outcome::Voting)
                    &&& final(votes)@.states.contains_key(vk)
                    &&& final(votes)@.states[vk].threshold == crate::threshold::threshold_for(
                        ThresholdConfig {
                            passage_threshold_pct: crate::arith::PERMILL_ACCURACY,
                            turnout_threshold_pct: crate::arith::PERMILL_ACCURACY,
                        },
                        crate::engine::reserved_total(reservations@) as u64,
                        now,
                    )
                    &&& final(self)@ == (BankView {
                        spends: old(self)@.spends.insert(
                            key,
                            SpendProposal { state: SpendState::Voting(vote_id), ..old(self)@.spends[key] },
                        ),
                        ..old(self)@
                    })
                },
                Err(e) => {
                    &&& final(self)@ == old(self)@
                    &&& final(votes)@ == old(votes)@
                    &&& !old(self)@.banks.contains_key(spend_id.bank) ==> e
                        == BankError::CannotTriggerVoteForSpendIfBaseBankDNE
                    &&& old(self)@.banks.contains_key(spend_id.bank) && !old(self)@.spends.contains_key(
                        (spend_id.bank, spend_id.spend),
                    ) ==> e == BankError::CannotTriggerVoteForSpendIfSpendProposalDNE
                    &&& old(self)@.banks.contains_key(spend_id.bank) && old(self)@.spends.contains_key(
                        (spend_id.bank, spend_id.spend),
                    ) ==> if old(self)@.spends[(spend_id.bank, spend_id.spend)].state
                        == SpendState::WaitingForApproval {
                        let bank = old(self)@.banks[spend_id.bank];
                        crate::engine::open_error(
                            old(votes)@,
                            bank.org,
                            bank.group,
                            None,
                            now,
                            reservations@,
                        ) == Some(e->Vote_0) && e is Vote
                    } else {
                        e == BankError::CannotTriggerVoteFromCurrentSpendProposalState
                    }
                },
            },
    {
        let bank = match self.bank_stores.get(&spend_id.bank) {
            Some(b) => b,
            None => return Err(BankError::CannotTriggerVoteForSpendIfBaseBankDNE),
        };
        let key = (spend_id.bank, spend_id.spend);
        let spend_proposal = match self.spend_proposals.get(&key) {
            Some(p) => p,
            None => return Err(BankError::CannotTriggerVoteForSpendIfSpendProposalDNE),
        };
        match spend_proposal.state {
            SpendState::WaitingForApproval => {
                let new_vote_id = match votes.open_vote(
                    bank.org,
                    bank.group,
                    None,
                    ThresholdConfig::unanimous(),
                    now,
                    reservations,
                ) {
                    Ok(id) => id,
                    Err(e) => return Err(BankError::Vote(e)),
                };
                let new_spend_proposal = SpendProposal {
                    state: SpendState::Voting(new_vote_id),
                    ..spend_proposal
                };
                self.spend_proposals.insert(key, new_spend_proposal);
                Ok(new_vote_id)
            },
            _ => Err(BankError::CannotTriggerVoteFromCurrentSpendProposalState),
        }
    }

    /// Checks that a proposal can be approved directly (it exists and is not
    /// approved yet) and gives the transfer to attempt. The host attempts it
    /// and reports the result with `approve_spend_proposal`.
    pub fn sudo_approve_spend_proposal(&self, spend_id: BankSpend) -> (r: Result<Transfer, BankError>)
        requires
            self.wf(),
        ensures
            r == match approve_error(self@, spend_id) {
                Some(e) => Err::<Transfer, BankError>(e),
                None => Ok::<Transfer, BankError>(
                    transfer_for(spend_id, self@.spends[(spend_id.bank, spend_id.spend)]),
                ),
            },
    {
        if !self.is_bank(spend_id.bank) {
            return Err(BankError::CannotSudoApproveSpendProposalIfBaseBankDNE);
        }
        let spend_proposal = match self.spend_proposals.get(&(spend_id.bank, spend_id.spend)) {
            Some(p) => p,
            None => return Err(BankError::CannotSudoApproveSpendProposalIfSpendProposalDNE),
        };
        match spend_proposal.state {
            SpendState::WaitingForApproval | SpendState::Voting(_) => Ok(
                Transfer { bank: spend_id.bank, dest: spend_proposal.dest, amount: spend_proposal.amount },
            ),
            _ => Err(BankError::CannotApproveAlreadyApprovedSpendProposal),
        }
    }

    /// Approves a proposal that is not approved yet, recording whether its
    /// transfer was executed. Approval stands either way; a failed transfer
    /// is not retried.
    pub fn approve_spend_proposal(&mut self, spend_id: BankSpend, executed: bool) -> (r: Result<
        SpendState,
        BankError,
    >)
        requires
            old(self).wf(),
        ensures
            final(self).wf(),
            spends_forward(old(self)@, final(self)@),
            match approve_error(old(self)@, spend_id) {
                Some(e) => r == Err::<SpendState, BankError>(e) && final(self)@ == old(self)@,
                None => {
                    let key = (spend_id.bank, spend_id.spend);
                    &&& r == Ok::<SpendState, BankError>(approved_state(executed))
                    &&& final(self)@ == (BankView {
                        spends: old(self)@.spends.insert(
                            key,
                            SpendProposal { state: approved_state(executed), ..old(self)@.spends[key] },
                        ),
                        ..old(self)@
                    })
                },
            },
    {
        if !self.is_bank(spend_id.bank) {
            return Err(BankError::CannotSudoApproveSpendProposalIfBaseBankDNE);
        }
        let key = (spend_id.bank, spend_id.spend);
        let spend_proposal = match self.spend_proposals.get(&key) {
            Some(p) => p,
            None => return Err(BankError::CannotSudoApproveSpendProposalIfSpendProposalDNE),
        };
        match spend_proposal.state {
            SpendState::WaitingForApproval | SpendState::Voting(_) => {
                let new_state = if executed {
                    SpendState::ApprovedAndExecuted
                } else {
                    SpendState::ApprovedButNotExecuted
                };
                self.spend_proposals.insert(key, SpendProposal { state: new_state, ..spend_proposal });
                Ok(new_state)
            },
            _ => Err(BankError::CannotApproveAlreadyApprovedSpendProposal),
        }
    }

    /// Polls a proposal: one in `Voting` whose vote is `Approved` calls for
    /// its transfer, which the host attempts and reports with
    /// `approve_spend_proposal`; otherwise the proposal stands as it is.
    pub fn poll_spend_proposal(&self, votes: &VoteStore, spend_id: BankSpend) -> (r: Result<
        PollDecision,
        BankError,
    >)
        requires
            self.wf(),
            votes.wf(),
        ensures
            r == poll_result(self@, votes@, spend_id),
    {
        let bank = match self.bank_stores.get(&spend_id.bank) {
            Some(b) => b,
            None => return Err(BankError::CannotPollSpendProposalIfBaseBankDNE),
        };
        let spend_proposal = match self.spend_proposals.get(&(spend_id.bank, spend_id.spend)) {
            Some(p) => p,
            None => return Err(BankError::CannotPollSpendProposalIfSpendProposalDNE),
        };
        match spend_proposal.state {
            SpendState::Voting(vote_id) => {
                let vote_outcome = match votes.get_vote_outcome(bank.org, bank.group, vote_id) {
                    Ok(o) => o,
                    Err(e) => return Err(BankError::Vote(e)),
                };
                match vote_outcome {
                    Outcome::Approved => Ok(
                        PollDecision::Execute(
                            Transfer {
                                bank: spend_id.bank,
                                dest: spend_proposal.dest,
                                amount: spend_proposal.amount,
                            },
                        ),
                    ),
                    _ => Ok(PollDecision::Unchanged(spend_proposal.state)),
                }
            },
            _ => Ok(PollDecision::Unchanged(spend_proposal.state)),
        }
    }
}

} // verus!
