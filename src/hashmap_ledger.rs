use crate::amount::Amount;
use crate::ledger::{
    dispute_step, ledger_wf, settle, standard_step, Account, DisputeStatus,
    DisputeTransaction, DisputeTransactionType, Ledger, LedgerError, StandardTransaction,
    StandardTransactionType, Transaction,
};
use std::collections::HashMap;
use vstd::prelude::*;

verus! {

broadcast use vstd::std_specs::hash::group_hash_axioms;

/// In-memory ledger: records deposits and withdrawals and tracks account balances.
pub struct HashMapLedger {
    transactions_by_id: HashMap<u32, StandardTransaction>,
    accounts_by_client_id: HashMap<u16, Account>,
    client_ids: Vec<u16>,
}

impl Ledger for HashMapLedger {
    closed spec fn accounts(&self) -> Map<u16, Account> {
        self.accounts_by_client_id@
    }

    closed spec fn transactions(&self) -> Map<u32, StandardTransaction> {
        self.transactions_by_id@
    }

    closed spec fn wf(&self) -> bool {
        &&& ledger_wf(self.accounts(), self.transactions())
        &&& self.client_ids@.no_duplicates()
        &&& forall|i: int|
            0 <= i < self.client_ids@.len() ==> self.accounts().contains_key(
                #[trigger] self.client_ids@[i],
            )
        &&& forall|c: u16| #[trigger]
            self.accounts().contains_key(c) ==> self.client_ids@.contains(c)
    }

    /// Every account, each once, in the order the clients were first seen.
    fn get_accounts(&self) -> (r: Vec<Account>)
    {
        let mut r: Vec<Account> = Vec::new();
        let mut i: usize = 0;
        while i < self.client_ids.len()
            invariant
                self.wf(),
                i <= self.client_ids@.len(),
                r@.len() == i,
                forall|j: int|
                    0 <= j < i ==> (#[trigger] r@[j]) == self.accounts()[self.client_ids@[j]],
            decreases self.client_ids@.len() - i,
        {
            let c = self.client_ids[i];
            assert(self.accounts().contains_key(self.client_ids@[i as int]));
            match self.accounts_by_client_id.get(&c) {
                Some(a) => r.push(*a),
                None => {
                    assert(false);
                },
            }
            i = i + 1;
        }
        assert forall|k: int| 0 <= k < r@.len() implies r@[k].client_id == self.client_ids@[k] by {
            assert(self.accounts().contains_key(self.client_ids@[k]));
        }
        assert forall|c: u16| self.accounts().contains_key(c) implies exists|k: int|
            0 <= k < r@.len() && (#[trigger] r@[k]).client_id == c by {
            let k = choose|k: int| 0 <= k < self.client_ids@.len() && self.client_ids@[k] == c;
            assert(r@[k].client_id == c);
        }
        r
    }

    fn handle_transaction(&mut self, transaction: Transaction) -> (r: Result<(), LedgerError>)
    {
        match transaction {
            Transaction::Standard(t) => self.handle_standard(t),
            Transaction::Dispute(t) => self.handle_dispute(t),
        }
    }
}

impl HashMapLedger {
    /// An empty ledger.
    pub fn new() -> (r: HashMapLedger)
        ensures
            r.wf(),
            r.accounts() == Map::<u16, Account>::empty(),
            r.transactions() == Map::<u32, StandardTransaction>::empty(),
    {
        HashMapLedger {
            transactions_by_id: HashMap::new(),
            accounts_by_client_id: HashMap::new(),
            client_ids: Vec::new(),
        }
    }

    /// The account of `client_id`, if there is one.
    pub fn get_account(&self, client_id: u16) -> (r: Option<Account>)
        ensures
            r == (if self.accounts().contains_key(client_id) {
                Some(self.accounts()[client_id])
            } else {
                None
            }),
    {
        match self.accounts_by_client_id.get(&client_id) {
            Some(a) => Some(*a),
            None => None,
        }
    }

    /// The recorded deposit or withdrawal `tx_id`, if there is one.
    pub fn get_transaction(&self, tx_id: u32) -> (r: Option<StandardTransaction>)
        ensures
            r == (if self.transactions().contains_key(tx_id) {
                Some(self.transactions()[tx_id])
            } else {
                None
            }),
    {
        match self.transactions_by_id.get(&tx_id) {
            Some(t) => Some(*t),
            None => None,
        }
    }

    fn handle_standard(&mut self, transaction: StandardTransaction) -> (r: Result<(), LedgerError>)
        requires
            old(self).wf(),
            transaction.amount.wf(),
        ensures
            final(self).wf(),
            standard_step(old(self).accounts(), old(self).transactions(), transaction) == (match r {
                Ok(_) => Ok((final(self).accounts(), final(self).transactions())),
                Err(e) => Err(e),
            }),
            r is Err ==> final(self).accounts() == old(self).accounts()
                && final(self).transactions() == old(self).transactions(),
    {
        if !transaction.amount.is_positive() {
            return Err(LedgerError::InvalidAmount);
        }
        let found = match self.accounts_by_client_id.get(&transaction.client_id) {
            Some(a) => Some(*a),
            None => None,
        };
        let is_new = found.is_none();
        let account = match found {
            Some(a) => a,
            None => Account::new(transaction.client_id),
        };
        if account.is_locked {
            return Err(LedgerError::AccountLocked);
        }
        let is_withdrawal = match transaction.tx_type {
            StandardTransactionType::Deposit => false,
            StandardTransactionType::Withdrawal => true,
        };
        if is_withdrawal && transaction.amount.is_greater_than(&account.available) {
            return Err(LedgerError::InsufficientFunds);
        }
        if self.transactions_by_id.contains_key(&transaction.tx_id) {
            return Err(LedgerError::DuplicateTransactionId);
        }
        let available = if is_withdrawal {
            account.available.checked_sub(&transaction.amount)
        } else {
            account.available.checked_add(&transaction.amount)
        };
        let updated = match settle_balances(account, available, Some(account.held), false) {
            Ok(a) => a,
            Err(e) => {
                return Err(e);
            },
        };
        self.accounts_by_client_id.insert(transaction.client_id, updated);
        if is_new {
            self.client_ids.push(transaction.client_id);
        }
        let record = StandardTransaction { dispute_status: None, ..transaction };
        self.transactions_by_id.insert(transaction.tx_id, record);
        proof {
            assert(self.client_ids@.no_duplicates());
            assert forall|c: u16| #[trigger]
                self.accounts().contains_key(c) implies self.client_ids@.contains(c) by {
                if c != transaction.client_id {
                    assert(old(self).accounts().contains_key(c));
                    let k = choose|k: int|
                        0 <= k < old(self).client_ids@.len() && old(self).client_ids@[k] == c;
                    assert(self.client_ids@[k] == c);
                } else if is_new {
                    assert(self.client_ids@[self.client_ids@.len() - 1] == c);
                } else {
                    assert(old(self).accounts().contains_key(c));
                }
            }
        }
        Ok(())
    }

    fn handle_dispute(&mut self, transaction: DisputeTransaction) -> (r: Result<(), LedgerError>)
        requires
            old(self).wf(),
        ensures
            final(self).wf(),
            dispute_step(old(self).accounts(), old(self).transactions(), transaction) == (match r {
                Ok(_) => Ok((final(self).accounts(), final(self).transactions())),
                Err(e) => Err(e),
            }),
            r is Err ==> final(self).accounts() == old(self).accounts()
                && final(self).transactions() == old(self).transactions(),
    {
        // Disputes are still allowed on a locked account.
        let account = match self.accounts_by_client_id.get(&transaction.client_id) {
            Some(a) => *a,
            None => {
                return Err(LedgerError::AccountNotFound);
            },
        };
        let record = match self.transactions_by_id.get(&transaction.tx_id) {
            Some(t) => *t,
            None => {
                return Err(LedgerError::TransactionNotFound);
            },
        };
        if transaction.client_id != record.client_id {
            return Err(LedgerError::ClientMismatch);
        }
        match record.tx_type {
            StandardTransactionType::Withdrawal => {
                // A dispute moves funds from available to held, which only makes sense
                // for a deposit.
                return Err(LedgerError::CannotDisputeWithdrawal);
            },
            StandardTransactionType::Deposit => {},
        }
        let (updated, status) = match transaction.tx_type {
            DisputeTransactionType::Dispute => {
                if record.dispute_status.is_some() {
                    return Err(LedgerError::AlreadyDisputed);
                }
                // Available may go negative: the funds may have been withdrawn already.
                let available = account.available.checked_sub(&record.amount);
                let held = account.held.checked_add(&record.amount);
                match settle_balances(account, available, held, account.is_locked) {
                    Ok(a) => (a, Some(DisputeStatus::Unresolved)),
                    Err(e) => {
                        return Err(e);
                    },
                }
            },
            DisputeTransactionType::Resolve => {
                match record.dispute_status {
                    None => {
                        return Err(LedgerError::NotDisputed);
                    },
                    Some(DisputeStatus::Chargeback) => {
                        return Err(LedgerError::AlreadyChargedBack);
                    },
                    Some(DisputeStatus::Unresolved) => {},
                }
                let available = account.available.checked_add(&record.amount);
                let held = account.held.checked_sub(&record.amount);
                match settle_balances(account, available, held, account.is_locked) {
                    Ok(a) => (a, None),
                    Err(e) => {
                        return Err(e);
                    },
                }
            },
            DisputeTransactionType::Chargeback => {
                match record.dispute_status {
                    None => {
                        return Err(LedgerError::NotDisputed);
                    },
                    Some(DisputeStatus::Chargeback) => {
                        return Err(LedgerError::AlreadyChargedBack);
                    },
                    Some(DisputeStatus::Unresolved) => {},
                }
                let held = account.held.checked_sub(&record.amount);
                match settle_balances(account, Some(account.available), held, true) {
                    Ok(a) => (a, Some(DisputeStatus::Chargeback)),
                    Err(e) => {
                        return Err(e);
                    },
                }
            },
        };
        self.accounts_by_client_id.insert(transaction.client_id, updated);
        self.transactions_by_id.insert(
            transaction.tx_id,
            StandardTransaction { dispute_status: status, ..record },
        );
        proof {
            assert forall|c: u16| #[trigger]
                self.accounts().contains_key(c) implies self.client_ids@.contains(c) by {
                assert(old(self).accounts().contains_key(c));
            }
        }
        Ok(())
    }
}

/// Computes `settle`: the account with its new balances, or `BalanceOverflow`.
fn settle_balances(
    acct: Account,
    available: Option<Amount>,
    held: Option<Amount>,
    is_locked: bool,
) -> (r: Result<Account, LedgerError>)
    requires
        available matches Some(a) ==> a.wf(),
        held matches Some(h) ==> h.wf(),
    ensures
        r == settle(acct, available, held, is_locked),
        r matches Ok(a) ==> a.wf(),
{
    match (available, held) {
        (Some(a), Some(h)) => {
            if a.checked_add(&h).is_some() {
                Ok(Account { available: a, held: h, is_locked, ..acct })
            } else {
                Err(LedgerError::BalanceOverflow)
            }
        },
        _ => Err(LedgerError::BalanceOverflow),
    }
}

} // verus!
