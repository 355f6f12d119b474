use crate::amount::{lemma_add_units, lemma_sub_units};
use crate::ledger::{
    dispute_step, ledger_wf, standard_step, step, Account, DisputeStatus, DisputeTransaction,
    DisputeTransactionType, LedgerError, StandardTransaction, StandardTransactionType,
    Transaction,
};
use vstd::prelude::*;

verus! {

/// Every account of a well-formed ledger has a total, and it is exactly
/// `available + held`; applying a transaction keeps the ledger well formed, so this
/// holds before and after every transaction that is applied.
pub proof fn lemma_total_is_available_plus_held(
    accounts: Map<u16, Account>,
    transactions: Map<u32, StandardTransaction>,
    tx: Transaction,
)
    requires
        ledger_wf(accounts, transactions),
        tx.wf(),
    ensures
        forall|c: u16| #[trigger]
            accounts.contains_key(c) ==> accounts[c].spec_total().units()
                == accounts[c].available.units() + accounts[c].held.units(),
        step(accounts, transactions, tx) matches Ok((a2, t2)) ==> ledger_wf(a2, t2),
{
    assert forall|c: u16| #[trigger] accounts.contains_key(c) implies accounts[c].spec_total().units()
        == accounts[c].available.units() + accounts[c].held.units() by {
        lemma_add_units(accounts[c].available, accounts[c].held);
    }
    lemma_step_keeps_wf(accounts, transactions, tx);
}

/// Applying a transaction keeps every account keyed by its client with valid balances,
/// and every record keyed by its id with a valid amount.
pub proof fn lemma_step_keeps_wf(
    accounts: Map<u16, Account>,
    transactions: Map<u32, StandardTransaction>,
    tx: Transaction,
)
    requires
        ledger_wf(accounts, transactions),
        tx.wf(),
    ensures
        step(accounts, transactions, tx) matches Ok((a2, t2)) ==> ledger_wf(a2, t2),
{
    match tx {
        Transaction::Standard(t) => {
            let acct = if accounts.contains_key(t.client_id) {
                accounts[t.client_id]
            } else {
                Account::spec_new(t.client_id)
            };
            crate::amount::lemma_pow10_positive(28);
            vstd::arithmetic::div_mod::lemma_div_multiples_vanish(0, crate::amount::pow10(28));
            lemma_add_units(acct.available, t.amount);
            lemma_sub_units(acct.available, t.amount);
        },
        Transaction::Dispute(d) => {
            if accounts.contains_key(d.client_id) && transactions.contains_key(d.tx_id) {
                let acct = accounts[d.client_id];
                let rec = transactions[d.tx_id];
                lemma_add_units(acct.available, rec.amount);
                lemma_sub_units(acct.available, rec.amount);
                lemma_add_units(acct.held, rec.amount);
                lemma_sub_units(acct.held, rec.amount);
            }
        },
    }
}

/// A transaction id, once recorded, stays recorded, and no later deposit or withdrawal
/// with that id is ever accepted.
pub proof fn lemma_recorded_id_never_recorded_again(
    accounts: Map<u16, Account>,
    transactions: Map<u32, StandardTransaction>,
    tx: Transaction,
    again: StandardTransaction,
)
    requires
        transactions.contains_key(again.tx_id),
    ensures
        standard_step(accounts, transactions, again) is Err,
        step(accounts, transactions, tx) matches Ok((a2, t2)) ==> t2.contains_key(again.tx_id)
            && standard_step(a2, t2, again) is Err,
{
}

/// Disputing a deposit moves exactly its amount from available to held and keeps the
/// total; resolving moves it back; a chargeback takes it out of held, lowers the total
/// by it and locks the account.
pub proof fn lemma_dispute_moves_exact_amount(
    accounts: Map<u16, Account>,
    transactions: Map<u32, StandardTransaction>,
    tx: DisputeTransaction,
)
    requires
        ledger_wf(accounts, transactions),
    ensures
        dispute_step(accounts, transactions, tx) matches Ok((a2, t2)) ==> {
            let before = accounts[tx.client_id];
            let after = a2[tx.client_id];
            let amount = transactions[tx.tx_id].amount.units();
            &&& accounts.contains_key(tx.client_id)
            &&& transactions.contains_key(tx.tx_id)
            &&& transactions[tx.tx_id].tx_type == StandardTransactionType::Deposit
            &&& a2 == accounts.insert(tx.client_id, after)
            &&& after.wf()
            &&& match tx.tx_type {
                DisputeTransactionType::Dispute => {
                    &&& after.available.units() == before.available.units() - amount
                    &&& after.held.units() == before.held.units() + amount
                    &&& after.spec_total().units() == before.spec_total().units()
                    &&& after.is_locked == before.is_locked
                    &&& t2[tx.tx_id].dispute_status == Some(DisputeStatus::Unresolved)
                },
                DisputeTransactionType::Resolve => {
                    &&& after.available.units() == before.available.units() + amount
                    &&& after.held.units() == before.held.units() - amount
                    &&& after.spec_total().units() == before.spec_total().units()
                    &&& after.is_locked == before.is_locked
                    &&& t2[tx.tx_id].dispute_status == None::<DisputeStatus>
                },
                DisputeTransactionType::Chargeback => {
                    &&& after.available == before.available
                    &&& after.held.units() == before.held.units() - amount
                    &&& after.spec_total().units() == before.spec_total().units() - amount
                    &&& after.is_locked
                    &&& t2[tx.tx_id].dispute_status == Some(DisputeStatus::Chargeback)
                },
            }
        },
{
    if accounts.contains_key(tx.client_id) && transactions.contains_key(tx.tx_id) {
        let acct = accounts[tx.client_id];
        let rec = transactions[tx.tx_id];
        lemma_add_units(acct.available, rec.amount);
        lemma_sub_units(acct.available, rec.amount);
        lemma_add_units(acct.held, rec.amount);
        lemma_sub_units(acct.held, rec.amount);
        lemma_add_units(acct.available, acct.held);
        match dispute_step(accounts, transactions, tx) {
            Ok((a2, t2)) => {
                let after = a2[tx.client_id];
                lemma_add_units(after.available, after.held);
            },
            Err(_) => {},
        }
    }
}

/// A withdrawal can never be disputed, resolved or charged back.
pub proof fn lemma_withdrawal_never_disputed(
    accounts: Map<u16, Account>,
    transactions: Map<u32, StandardTransaction>,
    tx: DisputeTransaction,
)
    requires
        transactions.contains_key(tx.tx_id),
        transactions[tx.tx_id].tx_type == StandardTransactionType::Withdrawal,
    ensures
        dispute_step(accounts, transactions, tx) is Err,
{
}

/// A locked account takes no deposit or withdrawal and stays locked whatever is applied;
/// the lock alone never turns away a dispute, resolve or chargeback.
pub proof fn lemma_locked_account(
    accounts: Map<u16, Account>,
    transactions: Map<u32, StandardTransaction>,
    client: u16,
    tx: Transaction,
)
    requires
        accounts.contains_key(client),
        accounts[client].is_locked,
    ensures
        tx matches Transaction::Standard(t) && t.client_id == client ==> step(
            accounts,
            transactions,
            tx,
        ) is Err,
        step(accounts, transactions, tx) matches Ok((a2, t2)) ==> a2.contains_key(client)
            && a2[client].is_locked,
        tx matches Transaction::Dispute(d) ==> (dispute_step(accounts, transactions, d) is Ok
            <==> dispute_step(
            accounts.insert(client, Account { is_locked: false, ..accounts[client] }),
            transactions,
            d,
        ) is Ok),
{
}

/// Repeating an accepted transaction is turned away: a second dispute as already
/// disputed, a second resolve as not disputed, a second chargeback as already charged
/// back, and a second deposit or withdrawal with the same id in any case. A rejected
/// transaction leaves the ledger as it was, so repeating it again gives the same error.
pub proof fn lemma_repeat_rejected(
    accounts: Map<u16, Account>,
    transactions: Map<u32, StandardTransaction>,
    tx: Transaction,
)
    ensures
        step(accounts, transactions, tx) matches Ok((a2, t2)) ==> match tx {
            Transaction::Standard(_) => step(a2, t2, tx) is Err,
            Transaction::Dispute(d) => step(a2, t2, tx) == Err::<
                (Map<u16, Account>, Map<u32, StandardTransaction>),
                LedgerError,
            >(
                match d.tx_type {
                    DisputeTransactionType::Dispute => LedgerError::AlreadyDisputed,
                    DisputeTransactionType::Resolve => LedgerError::NotDisputed,
                    DisputeTransactionType::Chargeback => LedgerError::AlreadyChargedBack,
                },
            ),
        },
{
}

} // verus!
