use crate::amount::Amount;
use crate::ledger::{
    DisputeTransaction, DisputeTransactionType, StandardTransaction, StandardTransactionType,
    Transaction,
};
use vstd::prelude::*;

verus! {

/// The kind of transaction named in the `type` column.
#[derive(Clone, Copy, Debug, PartialEq, Eq, Structural)]
pub enum CsvTransactionType {
    Deposit,
    Withdrawal,
    Dispute,
    Resolve,
    Chargeback,
}

/// One row of a transactions file: `type, client, tx, amount`.
#[derive(Clone, Copy, Debug, PartialEq, Eq)]
pub struct TransactionRecord {
    pub tx_type: CsvTransactionType,
    pub client_id: u16,
    pub tx_id: u32,
    pub amount: Option<Amount>,
}

/// A row whose amount column does not suit its type.
#[derive(Clone, Copy, Debug, PartialEq, Eq, Structural)]
pub enum InvalidTransactionError {
    AmountNotSpecified,
    AmountUnexpectedForDispute,
}

/// A row type split into the two families of transactions.
#[derive(Clone, Copy, Debug, PartialEq, Eq, Structural)]
pub enum TransactionType {
    Standard(StandardTransactionType),
    Dispute(DisputeTransactionType),
}

pub open spec fn spec_transaction_type(t: CsvTransactionType) -> TransactionType {
    match t {
        CsvTransactionType::Deposit => TransactionType::Standard(StandardTransactionType::Deposit),
        CsvTransactionType::Withdrawal => TransactionType::Standard(
            StandardTransactionType::Withdrawal,
        ),
        CsvTransactionType::Dispute => TransactionType::Dispute(DisputeTransactionType::Dispute),
        CsvTransactionType::Resolve => TransactionType::Dispute(DisputeTransactionType::Resolve),
        CsvTransactionType::Chargeback => TransactionType::Dispute(
            DisputeTransactionType::Chargeback,
        ),
    }
}

/// The transaction a row stands for: a deposit or a withdrawal needs an amount,
/// a dispute, resolve or chargeback must have none.
pub open spec fn spec_try_from_record(record: TransactionRecord) -> Result<
    Transaction,
    InvalidTransactionError,
> {
    match spec_transaction_type(record.tx_type) {
        TransactionType::Standard(tx_type) => match record.amount {
            Some(amount) => Ok(
                Transaction::Standard(
                    StandardTransaction {
                        tx_type,
                        client_id: record.client_id,
                        tx_id: record.tx_id,
                        amount,
                        dispute_status: None,
                    },
                ),
            ),
            None => Err(InvalidTransactionError::AmountNotSpecified),
        },
        TransactionType::Dispute(tx_type) => if record.amount is Some {
            Err(InvalidTransactionError::AmountUnexpectedForDispute)
        } else {
            Ok(
                Transaction::Dispute(
                    DisputeTransaction { tx_type, client_id: record.client_id, tx_id: record.tx_id },
                ),
            )
        },
    }
}

impl TransactionType {
    pub fn from(t: CsvTransactionType) -> (r: TransactionType)
        ensures
            r == spec_transaction_type(t),
    {
        match t {
            CsvTransactionType::Deposit => TransactionType::Standard(
                StandardTransactionType::Deposit,
            ),
            CsvTransactionType::Withdrawal => TransactionType::Standard(
                StandardTransactionType::Withdrawal,
            ),
            CsvTransactionType::Dispute => TransactionType::Dispute(
                DisputeTransactionType::Dispute,
            ),
            CsvTransactionType::Resolve => TransactionType::Dispute(
                DisputeTransactionType::Resolve,
            ),
            CsvTransactionType::Chargeback => TransactionType::Dispute(
                DisputeTransactionType::Chargeback,
            ),
        }
    }
}

impl Transaction {
    /// Checks a row against its type and builds the transaction it stands for.
    pub fn try_from(record: TransactionRecord) -> (r: Result<Transaction, InvalidTransactionError>)
        ensures
            r == spec_try_from_record(record),
            record.amount matches Some(a) && a.wf() ==> (r matches Ok(t) ==> t.wf()),
    {
        match TransactionType::from(record.tx_type) {
            TransactionType::Standard(tx_type) => match record.amount {
                Some(amount) => Ok(
                    Transaction::Standard(
                        StandardTransaction {
                            tx_type,
                            client_id: record.client_id,
                            tx_id: record.tx_id,
                            amount,
                            dispute_status: None,
                        },
                    ),
                ),
                None => Err(InvalidTransactionError::AmountNotSpecified),
            },
            TransactionType::Dispute(tx_type) => {
                if record.amount.is_some() {
                    return Err(InvalidTransactionError::AmountUnexpectedForDispute);
                }
                Ok(
                    Transaction::Dispute(
                        DisputeTransaction {
                            tx_type,
                            client_id: record.client_id,
                            tx_id: record.tx_id,
                        },
                    ),
                )
            },
        }
    }
}

} // verus!
