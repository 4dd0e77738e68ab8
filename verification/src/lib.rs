//! A personal-finance ledger core: it turns human-written decimal amounts
//! into exact integer minor units, decodes rows of a bank's tabular export
//! into pending transactions, and ingests whole exports into a transaction
//! store, counting the rows it persists.

pub mod ingest;
pub mod ledger;
pub mod money;
pub mod records;
pub mod store;
