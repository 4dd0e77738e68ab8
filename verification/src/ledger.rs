//! The ledger's entities around the ingestion core: banks, accounts and
//! account types. They are plain records — creation and lookup live with
//! the persistence collaborator, which assigns their identifiers — and the
//! pipeline treats an account id as an opaque foreign key.

use vstd::prelude::*;

verus! {

/// A kind of account (for instance checking or savings).
#[derive(Clone, Debug)]
pub struct AccountType {
    pub id: String,
    pub name: String,
}

/// An account as read back from the store, with the display names of its
/// bank and of its kind resolved.
#[derive(Clone, Debug)]
pub struct Account {
    pub id: String,
    pub name: String,
    pub bank_name: String,
    pub kind_name: String,
}

/// A bank not yet persisted, so without an identifier.
#[derive(Clone, Debug)]
pub struct NewBank {
    pub name: String,
}

/// A persisted bank.
#[derive(Clone, Debug)]
pub struct Bank {
    pub id: String,
    pub name: String,
}

} // verus!
