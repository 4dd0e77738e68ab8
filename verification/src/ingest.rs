//! The ingestion pipeline: a whole comma-separated export is read into
//! rows, each row is decoded into a pending transaction and persisted
//! against one account, strictly in file order, and the count of stored
//! rows is returned. A row that cannot be decoded aborts the ingestion at
//! that point; rows already persisted stay persisted.

use vstd::prelude::*;

use crate::records::{decode_spec, decode_record, row_view, DecodeError, PendingModel};
use crate::store::{StoredModel, TransactionStore};

verus! {

/// Why an ingestion aborted.
#[derive(Clone, Copy, PartialEq, Eq, Structural, Debug)]
pub enum IngestError {
    /// The source is not well-formed comma-separated text (for instance, a
    /// broken quote or rows of unequal width).
    InvalidSource,
    /// A row could not be decoded; earlier rows stay persisted.
    Row(DecodeError),
}

/// The character content of a sequence of rows of owned text fields.
pub open spec fn rows_view(rows: Seq<Vec<String>>) -> Seq<Seq<Seq<char>>> {
    rows.map_values(|r: Vec<String>| row_view(r@))
}

/// The records the store gains when the first `k` rows are decoded and
/// persisted against `account_id`, identifiers counting on from `start_id`.
pub open spec fn stored_rows(
    start_id: int,
    account_id: Seq<char>,
    rows: Seq<Seq<Seq<char>>>,
    k: int,
) -> Seq<StoredModel> {
    Seq::new(k as nat, |i: int| StoredModel {
        id: start_id + i,
        account_id: account_id,
        transaction: decode_spec(rows[i])->Ok_0,
    })
}

/// What ingesting `rows` against `account_id` does to a store holding
/// `pre`: either every row decodes, all are persisted in file order and
/// the count of rows comes back, or the first undecodable row aborts the
/// ingestion with its error, exactly the rows before it persisted.
pub open spec fn ingest_outcome(
    pre: Seq<StoredModel>,
    post: Seq<StoredModel>,
    account_id: Seq<char>,
    rows: Seq<Seq<Seq<char>>>,
    r: Result<usize, DecodeError>,
) -> bool {
    match r {
        Ok(count) => {
            &&& count == rows.len()
            &&& (forall|i: int| 0 <= i < rows.len() ==> #[trigger] decode_spec(rows[i]) is Ok)
            &&& post == pre + stored_rows(pre.len() as int, account_id, rows, rows.len() as int)
        },
        Err(e) => exists|k: int|
            {
                &&& 0 <= k < rows.len()
                &&& #[trigger] decode_spec(rows[k]) == Err::<PendingModel, DecodeError>(e)
                &&& (forall|j: int| 0 <= j < k ==> #[trigger] decode_spec(rows[j]) is Ok)
                &&& post == pre + stored_rows(pre.len() as int, account_id, rows, k)
            },
    }
}

/// The rows of text fields that a comma-separated byte source holds, in
/// file order, or nothing where the source is not well-formed.
pub uninterp spec fn csv_rows(bytes: Seq<u8>) -> Option<Seq<Seq<Seq<char>>>>;

/// Relies on the csv crate's `Reader` over an in-memory buffer, configured
/// to treat every row as data (no header row): which records come out,
/// their order and their fields depend on the input bytes alone; an empty
/// input yields no records; a record the reader cannot parse surfaces here
/// as `None`.
#[verifier::external_body]
fn read_csv_rows(source: &Vec<u8>) -> (r: Option<Vec<Vec<String>>>)
    ensures
        r is Some <==> csv_rows(source@) is Some,
        r is Some ==> rows_view(r->Some_0@) == csv_rows(source@)->Some_0,
        source@.len() == 0 ==> r is Some && r->Some_0@.len() == 0,
{
    let mut reader = csv::ReaderBuilder::new().has_headers(false).from_reader(source.as_slice());
    let mut rows: Vec<Vec<String>> = Vec::new();
    for record in reader.records() {
        match record {
            Ok(rec) => rows.push(rec.iter().map(|field| field.to_string()).collect()),
            Err(_) => return None,
        }
    }
    Some(rows)
}

/// Ingests already-split rows: decodes each in order, persists it against
/// `account_id`, and counts the stored rows; the first undecodable row
/// aborts the ingestion with its error, leaving earlier rows persisted.
#[verifier::loop_isolation(false)]
pub fn load_transactions_from_rows(
    store: &mut TransactionStore,
    account_id: &str,
    rows: &Vec<Vec<String>>,
) -> (r: Result<usize, DecodeError>)
    requires
        old(store).wf(),
    ensures
        final(store).wf(),
        ingest_outcome(old(store)@, final(store)@, account_id@, rows_view(rows@), r),
{
    let ghost rv = rows_view(rows@);
    let n = rows.len();
    let mut i: usize = 0;
    while i < n
        invariant
            i <= n,
            store.wf(),
            forall|j: int| 0 <= j < i ==> #[trigger] decode_spec(rv[j]) is Ok,
            store@ == old(store)@ + stored_rows(old(store)@.len() as int, account_id@, rv, i as int),
        decreases n - i,
    {
        proof {
            assert(rv[i as int] == row_view(rows@[i as int]@));
        }
        match decode_record(&rows[i]) {
            Ok(t) => {
                let ghost pre_insert = store@;
                store.insert(t, account_id);
                proof {
                    assert(store@ =~~= old(store)@ + stored_rows(
                        old(store)@.len() as int,
                        account_id@,
                        rv,
                        i as int + 1,
                    ));
                }
                i = i + 1;
            },
            Err(e) => {
                proof {
                    assert(decode_spec(rv[i as int]) == Err::<PendingModel, DecodeError>(e));
                }
                return Err(e);
            },
        }
    }
    proof {
        assert(store@ == old(store)@ + stored_rows(
            old(store)@.len() as int,
            account_id@,
            rv,
            rv.len() as int,
        ));
    }
    Ok(n)
}

/// Ingests a whole comma-separated byte source: splits it into rows,
/// decodes and persists each in file order against `account_id`, and
/// returns how many rows were stored. A source that is not well-formed
/// comma-separated text aborts before any row is persisted; a row that
/// cannot be decoded aborts at that row, leaving earlier rows persisted.
/// An empty source stores nothing and returns zero.
pub fn load_transactions_from_source(
    store: &mut TransactionStore,
    account_id: &str,
    source: &Vec<u8>,
) -> (r: Result<usize, IngestError>)
    requires
        old(store).wf(),
    ensures
        final(store).wf(),
        csv_rows(source@) is None ==> r == Err::<usize, IngestError>(IngestError::InvalidSource)
            && final(store)@ == old(store)@,
        csv_rows(source@) is Some ==> match r {
            Ok(count) => ingest_outcome(
                old(store)@,
                final(store)@,
                account_id@,
                csv_rows(source@)->Some_0,
                Ok(count),
            ),
            Err(IngestError::InvalidSource) => false,
            Err(IngestError::Row(e)) => ingest_outcome(
                old(store)@,
                final(store)@,
                account_id@,
                csv_rows(source@)->Some_0,
                Err(e),
            ),
        },
        source@.len() == 0 ==> r == Ok::<usize, IngestError>(0usize)
            && final(store)@ == old(store)@,
{
    let rows = match read_csv_rows(source) {
        Some(rows) => rows,
        None => {
            return Err(IngestError::InvalidSource);
        },
    };
    proof {
        if source@.len() == 0 {
            assert(rows_view(rows@).len() == 0);
        }
    }
    let r = load_transactions_from_rows(store, account_id, &rows);
    proof {
        if rows_view(rows@).len() == 0 {
            assert(old(store)@ + stored_rows(old(store)@.len() as int, account_id@, rows_view(rows@), 0)
                =~= old(store)@);
        }
    }
    match r {
        Ok(count) => Ok(count),
        Err(e) => Err(IngestError::Row(e)),
    }
}

} // verus!
