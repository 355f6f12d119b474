use crate::amount::{spec_add, spec_sub, Amount};
use vstd::prelude::*;

verus! {

/// A client's balances. The total is `available + held`.
#[derive(Clone, Copy, Debug, PartialEq, Eq)]
pub struct Account {
    pub client_id: u16,
    pub available: Amount,
    pub held: Amount,
    pub is_locked: bool,
}

impl Account {
    /// Both balances are valid amounts and their sum can be represented.
    pub open spec fn wf(self) -> bool {
        &&& self.available.wf()
        &&& self.held.wf()
        &&& spec_add(self.available, self.held) is Some
    }

    pub open spec fn spec_new(client_id: u16) -> Account {
        Account {
            client_id,
            available: Amount { mantissa: 0, scale: 0 },
            held: Amount { mantissa: 0, scale: 0 },
            is_locked: false,
        }
    }

    pub open spec fn spec_total(self) -> Amount {
        spec_add(self.available, self.held)->Some_0
    }

    /// A fresh account: zero balances, not locked.
    pub fn new(client_id: u16) -> (r: Account)
        ensures
            r == Account::spec_new(client_id),
            r.wf(),
    {
        let r = Account {
            client_id,
            available: Amount::zero(),
            held: Amount::zero(),
            is_locked: false,
        };
        proof {
            crate::amount::lemma_add_units(r.available, r.held);
            assert(crate::amount::pow10(28) > 0) by {
                crate::amount::lemma_pow10_positive(28);
            }
            vstd::arithmetic::div_mod::lemma_div_multiples_vanish(0, crate::amount::pow10(28));
        }
        r
    }

    /// `available + held`.
    pub fn total(&self) -> (r: Amount)
        requires
            self.available.wf(),
            self.held.wf(),
            spec_add(self.available, self.held) is Some,
        ensures
            r == self.spec_total(),
            r.wf(),
            r.units() == self.available.units() + self.held.units(),
    {
        match self.available.checked_add(&self.held) {
            Some(t) => t,
            None => {
                proof {
                    assert(false);
                }
                Amount::zero()
            },
        }
    }
}

/// The kind of a deposit or a withdrawal.
#[derive(Clone, Copy, Debug, PartialEq, Eq, Structural)]
pub enum StandardTransactionType {
    Deposit,
    Withdrawal,
}

/// The kind of a transaction that refers to an earlier deposit or withdrawal.
#[derive(Clone, Copy, Debug, PartialEq, Eq, Structural)]
pub enum DisputeTransactionType {
    Dispute,
    Resolve,
    Chargeback,
}

/// Where a disputed transaction stands.
#[derive(Clone, Copy, Debug, PartialEq, Eq, Structural)]
pub enum DisputeStatus {
    Unresolved,
    Chargeback,
}

/// A deposit or a withdrawal.
#[derive(Clone, Copy, Debug, PartialEq, Eq)]
pub struct StandardTransaction {
    pub tx_type: StandardTransactionType,
    pub client_id: u16,
    pub tx_id: u32,
    pub amount: Amount,
    pub dispute_status: Option<DisputeStatus>,
}

/// A dispute, resolve or chargeback of an earlier transaction.
#[derive(Clone, Copy, Debug, PartialEq, Eq)]
pub struct DisputeTransaction {
    pub tx_type: DisputeTransactionType,
    pub client_id: u16,
    pub tx_id: u32,
}

#[derive(Clone, Copy, Debug, PartialEq, Eq)]
pub enum Transaction {
    Standard(StandardTransaction),
    Dispute(DisputeTransaction),
}

impl Transaction {
    /// The amount that a deposit or a withdrawal carries is a valid amount.
    pub open spec fn wf(self) -> bool {
        match self {
            Transaction::Standard(t) => t.amount.wf(),
            Transaction::Dispute(_) => true,
        }
    }
}

/// Why the ledger turned a transaction away.
#[derive(Clone, Copy, Debug, PartialEq, Eq, Structural)]
pub enum LedgerError {
    InvalidAmount,
    AccountLocked,
    InsufficientFunds,
    DuplicateTransactionId,
    AccountNotFound,
    TransactionNotFound,
    ClientMismatch,
    CannotDisputeWithdrawal,
    AlreadyDisputed,
    NotDisputed,
    AlreadyChargedBack,
    /// A resulting balance cannot be represented exactly.
    BalanceOverflow,
}

/// The account of `client`, or a fresh one where there is none yet.
pub open spec fn account_or_new(accounts: Map<u16, Account>, client: u16) -> Account {
    if accounts.contains_key(client) {
        accounts[client]
    } else {
        Account::spec_new(client)
    }
}

/// `acct` with new balances and lock flag, where both balances and their sum can be held.
pub open spec fn settle(
    acct: Account,
    available: Option<Amount>,
    held: Option<Amount>,
    is_locked: bool,
) -> Result<Account, LedgerError> {
    match (available, held) {
        (Some(a), Some(h)) => if spec_add(a, h) is Some {
            Ok(Account { available: a, held: h, is_locked, ..acct })
        } else {
            Err(LedgerError::BalanceOverflow)
        },
        _ => Err(LedgerError::BalanceOverflow),
    }
}

/// The ledger after a deposit or a withdrawal, or the reason it is turned away.
pub open spec fn standard_step(
    accounts: Map<u16, Account>,
    transactions: Map<u32, StandardTransaction>,
    tx: StandardTransaction,
) -> Result<(Map<u16, Account>, Map<u32, StandardTransaction>), LedgerError> {
    let acct = account_or_new(accounts, tx.client_id);
    if tx.amount.units() <= 0 {
        Err(LedgerError::InvalidAmount)
    } else if acct.is_locked {
        Err(LedgerError::AccountLocked)
    } else if tx.tx_type == StandardTransactionType::Withdrawal && tx.amount.units()
        > acct.available.units() {
        Err(LedgerError::InsufficientFunds)
    } else if transactions.contains_key(tx.tx_id) {
        Err(LedgerError::DuplicateTransactionId)
    } else {
        let available = match tx.tx_type {
            StandardTransactionType::Deposit => spec_add(acct.available, tx.amount),
            StandardTransactionType::Withdrawal => spec_sub(acct.available, tx.amount),
        };
        match settle(acct, available, Some(acct.held), false) {
            Ok(a) => Ok(
                (
                    accounts.insert(tx.client_id, a),
                    transactions.insert(tx.tx_id, StandardTransaction { dispute_status: None, ..tx }),
                ),
            ),
            Err(e) => Err(e),
        }
    }
}

/// The ledger after a dispute, resolve or chargeback, or the reason it is turned away.
pub open spec fn dispute_step(
    accounts: Map<u16, Account>,
    transactions: Map<u32, StandardTransaction>,
    tx: DisputeTransaction,
) -> Result<(Map<u16, Account>, Map<u32, StandardTransaction>), LedgerError> {
    if !accounts.contains_key(tx.client_id) {
        Err(LedgerError::AccountNotFound)
    } else if !transactions.contains_key(tx.tx_id) {
        Err(LedgerError::TransactionNotFound)
    } else {
        let acct = accounts[tx.client_id];
        let record = transactions[tx.tx_id];
        if record.client_id != tx.client_id {
            Err(LedgerError::ClientMismatch)
        } else if record.tx_type == StandardTransactionType::Withdrawal {
            Err(LedgerError::CannotDisputeWithdrawal)
        } else {
            let outcome: Result<(Account, Option<DisputeStatus>), LedgerError> = match tx.tx_type {
                DisputeTransactionType::Dispute => if record.dispute_status is Some {
                    Err(LedgerError::AlreadyDisputed)
                } else {
                    match settle(
                        acct,
                        spec_sub(acct.available, record.amount),
                        spec_add(acct.held, record.amount),
                        acct.is_locked,
                    ) {
                        Ok(a) => Ok((a, Some(DisputeStatus::Unresolved))),
                        Err(e) => Err(e),
                    }
                },
                DisputeTransactionType::Resolve => match record.dispute_status {
                    None => Err(LedgerError::NotDisputed),
                    Some(DisputeStatus::Chargeback) => Err(LedgerError::AlreadyChargedBack),
                    Some(DisputeStatus::Unresolved) => match settle(
                        acct,
                        spec_add(acct.available, record.amount),
                        spec_sub(acct.held, record.amount),
                        acct.is_locked,
                    ) {
                        Ok(a) => Ok((a, None)),
                        Err(e) => Err(e),
                    },
                },
                DisputeTransactionType::Chargeback => match record.dispute_status {
                    None => Err(LedgerError::NotDisputed),
                    Some(DisputeStatus::Chargeback) => Err(LedgerError::AlreadyChargedBack),
                    Some(DisputeStatus::Unresolved) => match settle(
                        acct,
                        Some(acct.available),
                        spec_sub(acct.held, record.amount),
                        true,
                    ) {
                        Ok(a) => Ok((a, Some(DisputeStatus::Chargeback))),
                        Err(e) => Err(e),
                    },
                },
            };
            match outcome {
                Ok((a, status)) => Ok(
                    (
                        accounts.insert(tx.client_id, a),
                        transactions.insert(
                            tx.tx_id,
                            StandardTransaction { dispute_status: status, ..record },
                        ),
                    ),
                ),
                Err(e) => Err(e),
            }
        }
    }
}

/// The ledger after any transaction, or the reason it is turned away.
pub open spec fn step(
    accounts: Map<u16, Account>,
    transactions: Map<u32, StandardTransaction>,
    tx: Transaction,
) -> Result<(Map<u16, Account>, Map<u32, StandardTransaction>), LedgerError> {
    match tx {
        Transaction::Standard(t) => standard_step(accounts, transactions, t),
        Transaction::Dispute(t) => dispute_step(accounts, transactions, t),
    }
}

/// Accounts keyed by client id and recorded deposits and withdrawals keyed by transaction id.
pub open spec fn ledger_wf(
    accounts: Map<u16, Account>,
    transactions: Map<u32, StandardTransaction>,
) -> bool {
    &&& forall|c: u16| #[trigger]
        accounts.contains_key(c) ==> accounts[c].client_id == c && accounts[c].wf()
    &&& forall|t: u32| #[trigger]
        transactions.contains_key(t) ==> transactions[t].tx_id == t
            && transactions[t].amount.wf()
}

/// What every ledger backend offers: it applies transactions by the rules of `step`
/// and lists its accounts.
pub trait Ledger {
    spec fn accounts(&self) -> Map<u16, Account>;

    spec fn transactions(&self) -> Map<u32, StandardTransaction>;

    spec fn wf(&self) -> bool;

    /// Every account, each once.
    fn get_accounts(&self) -> (r: Vec<Account>)
        requires
            self.wf(),
        ensures
            forall|i: int|
                0 <= i < r@.len() ==> self.accounts().contains_key(#[trigger] r@[i].client_id)
                    && self.accounts()[r@[i].client_id] == r@[i],
            forall|c: u16|
                self.accounts().contains_key(c) ==> exists|i: int|
                    0 <= i < r@.len() && (#[trigger] r@[i]).client_id == c,
            forall|i: int, j: int|
                0 <= i < r@.len() && 0 <= j < r@.len() && i != j ==> (#[trigger] r@[i]).client_id
                    != (#[trigger] r@[j]).client_id,
    ;

    /// Applies a deposit, a withdrawal, a dispute, a resolve or a chargeback.
    /// A transaction that is turned away leaves the ledger as it was.
    fn handle_transaction(&mut self, transaction: Transaction) -> (r: Result<(), LedgerError>)
        requires
            old(self).wf(),
            transaction.wf(),
        ensures
            final(self).wf(),
            ledger_wf(final(self).accounts(), final(self).transactions()),
            step(old(self).accounts(), old(self).transactions(), transaction) == (match r {
                Ok(_) => Ok((final(self).accounts(), final(self).transactions())),
                Err(e) => Err(e),
            }),
            r is Err ==> final(self).accounts() == old(self).accounts()
                && final(self).transactions() == old(self).transactions(),
    ;
}

} // verus!
