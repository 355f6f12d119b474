pub mod amount;
pub mod csv_accounts;
pub mod csv_transactions;
pub mod hashmap_ledger;
pub mod ledger;
pub mod ledger_laws;
