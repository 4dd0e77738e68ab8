//! An in-memory transaction store: the persistence collaborator of the
//! ingestion pipeline, holding every stored transaction with a unique,
//! creation-ordered identifier and the account it was stored against.

use vstd::prelude::*;

use crate::records::{PendingModel, PendingTransaction};

verus! {

/// A persisted transaction: a pending transaction plus the identifier the
/// store assigned at insert time and the account it belongs to.
#[derive(Clone, Debug)]
pub struct StoredTransaction {
    pub id: u64,
    pub account_id: String,
    pub transaction: PendingTransaction,
}

/// The mathematical content of a stored transaction.
pub struct StoredModel {
    pub id: int,
    pub account_id: Seq<char>,
    pub transaction: PendingModel,
}

impl View for StoredTransaction {
    type V = StoredModel;

    open spec fn view(&self) -> StoredModel {
        StoredModel {
            id: self.id as int,
            account_id: self.account_id@,
            transaction: self.transaction@,
        }
    }
}

/// The store keeps transactions in insertion order and assigns each the
/// next identifier in creation order.
pub struct TransactionStore {
    transactions: Vec<StoredTransaction>,
}

impl View for TransactionStore {
    type V = Seq<StoredModel>;

    closed spec fn view(&self) -> Seq<StoredModel> {
        self.transactions@.map_values(|t: StoredTransaction| t@)
    }
}

impl TransactionStore {
    /// Each transaction's identifier is its creation rank: identifiers are
    /// unique and sortable by creation order.
    pub open spec fn wf(&self) -> bool {
        forall|i: int| 0 <= i < self@.len() ==> #[trigger] self@[i].id == i
    }

    /// An empty store.
    pub fn new() -> (s: Self)
        ensures
            s@ == Seq::<StoredModel>::empty(),
            s.wf(),
    {
        TransactionStore { transactions: Vec::new() }
    }

    /// How many transactions the store holds.
    pub fn count(&self) -> (n: usize)
        ensures
            n == self@.len(),
    {
        self.transactions.len()
    }

    /// The transaction stored at creation rank `i`.
    pub fn get(&self, i: usize) -> (t: &StoredTransaction)
        requires
            i < self@.len(),
        ensures
            t@ == self@[i as int],
    {
        &self.transactions[i]
    }

    /// Persists one pending transaction against an account: the store
    /// assigns the next creation-ordered identifier, appends the record,
    /// and returns the identifier.
    pub fn insert(&mut self, pending: PendingTransaction, account_id: &str) -> (id: u64)
        ensures
            id == old(self)@.len(),
            final(self)@ == old(self)@.push(StoredModel {
                id: old(self)@.len() as int,
                account_id: account_id@,
                transaction: pending@,
            }),
            old(self).wf() ==> final(self).wf(),
    {
        let id = self.transactions.len() as u64;
        let stored = StoredTransaction {
            id,
            account_id: account_id.to_owned(),
            transaction: pending,
        };
        self.transactions.push(stored);
        proof {
            assert(self@ =~= old(self)@.push(
                StoredModel {
                    id: old(self)@.len() as int,
                    account_id: account_id@,
                    transaction: pending@,
                },
            ));
        }
        id
    }
}

/// Identifiers in a well-formed store are unique: two distinct stored
/// transactions never share one.
pub proof fn lemma_store_ids_unique(s: &TransactionStore)
    requires
        s.wf(),
    ensures
        forall|i: int, j: int|
            0 <= i < s@.len() && 0 <= j < s@.len() && i != j ==> s@[i].id != s@[j].id,
{
}

} // verus!
