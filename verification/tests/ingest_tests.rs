use budgeting::ingest::{load_transactions_from_rows, load_transactions_from_source, IngestError};
use budgeting::records::{Date, DecodeError};
use budgeting::store::TransactionStore;

const ACCOUNT: &str = "acct-42";

#[test]
fn test_three_row_source_stores_three_transactions() {
    let source = b"2023-01-02,r1,Salary,c1,2500.00,cleared\n\
2023-01-03,r2,Groceries,c2,-54.19,cleared\n\
2023-01-04,r3,Coffee,c3,-3.5,pending\n"
        .to_vec();
    let mut store = TransactionStore::new();
    let count = load_transactions_from_source(&mut store, ACCOUNT, &source).unwrap();
    assert_eq!(count, 3);
    assert_eq!(store.count(), 3);

    let amounts = [250000i64, -5419, -350];
    let days = [2u32, 3, 4];
    for i in 0..3 {
        let t = store.get(i);
        assert_eq!(t.id, i as u64);
        assert_eq!(t.account_id, ACCOUNT);
        assert_eq!(t.transaction.amount_cents, amounts[i]);
        assert_eq!(
            t.transaction.transaction_date,
            Date { year: 2023, month: 1, day: days[i] }
        );
    }
    // identifiers are pairwise distinct
    assert!(store.get(0).id != store.get(1).id);
    assert!(store.get(0).id != store.get(2).id);
    assert!(store.get(1).id != store.get(2).id);
}

#[test]
fn test_bad_date_in_second_row_aborts_after_first() {
    let source = b"2023-01-02,r1,Salary,c1,2500.00,cleared\n\
2023-13-40,r2,Broken,c2,-54.19,cleared\n\
2023-01-04,r3,Coffee,c3,-3.5,pending\n"
        .to_vec();
    let mut store = TransactionStore::new();
    let r = load_transactions_from_source(&mut store, ACCOUNT, &source);
    assert_eq!(r, Err(IngestError::Row(DecodeError::InvalidDate)));
    // the row before the failure stays persisted; nothing after it is
    assert_eq!(store.count(), 1);
    assert_eq!(store.get(0).transaction.description, "Salary");
}

#[test]
fn test_empty_source_stores_nothing() {
    let source: Vec<u8> = Vec::new();
    let mut store = TransactionStore::new();
    let count = load_transactions_from_source(&mut store, ACCOUNT, &source).unwrap();
    assert_eq!(count, 0);
    assert_eq!(store.count(), 0);
}

#[test]
fn test_quoted_field_with_embedded_comma() {
    let source = b"2023-01-02,r1,\"Coffee, beans and filters\",c1,-12.01,cleared\n".to_vec();
    let mut store = TransactionStore::new();
    let count = load_transactions_from_source(&mut store, ACCOUNT, &source).unwrap();
    assert_eq!(count, 1);
    assert_eq!(store.get(0).transaction.description, "Coffee, beans and filters");
    assert_eq!(store.get(0).transaction.amount_cents, -1201);
}

#[test]
fn test_ragged_source_is_invalid() {
    let source = b"2023-01-02,r1,Salary,c1,2500.00,cleared\n2023-01-03,r2\n".to_vec();
    let mut store = TransactionStore::new();
    let r = load_transactions_from_source(&mut store, ACCOUNT, &source);
    assert_eq!(r, Err(IngestError::InvalidSource));
    // a malformed source aborts before any row is persisted
    assert_eq!(store.count(), 0);
}

#[test]
fn test_first_row_is_data_not_header() {
    let source = b"date,skip,description,skip,amount,status\n\
2023-01-02,r1,Salary,c1,2500.00,cleared\n"
        .to_vec();
    let mut store = TransactionStore::new();
    let r = load_transactions_from_source(&mut store, ACCOUNT, &source);
    assert_eq!(r, Err(IngestError::Row(DecodeError::InvalidDate)));
    assert_eq!(store.count(), 0);
}

#[test]
fn test_narrow_rows_are_missing_columns() {
    let source = b"2023-01-02,r1,Salary\n".to_vec();
    let mut store = TransactionStore::new();
    let r = load_transactions_from_source(&mut store, ACCOUNT, &source);
    assert_eq!(r, Err(IngestError::Row(DecodeError::MissingColumns)));
    assert_eq!(store.count(), 0);
}

#[test]
fn test_rows_ingested_in_order_with_creation_ordered_ids() {
    let rows: Vec<Vec<String>> = (1..=4)
        .map(|d| {
            vec![
                format!("2023-02-0{d}"),
                String::new(),
                format!("row {d}"),
                String::new(),
                format!("{d}.0{d}"),
                "pending".to_string(),
            ]
        })
        .collect();
    let mut store = TransactionStore::new();
    let count = load_transactions_from_rows(&mut store, ACCOUNT, &rows).unwrap();
    assert_eq!(count, 4);
    for i in 0..4 {
        let t = store.get(i);
        assert_eq!(t.id, i as u64);
        assert_eq!(t.transaction.description, format!("row {}", i + 1));
        assert_eq!(t.transaction.amount_cents, (i as i64 + 1) * 100 + i as i64 + 1);
    }
}

#[test]
fn test_ingesting_into_nonempty_store_continues_ids() {
    let first = b"2023-01-02,r1,One,c1,1.00,cleared\n".to_vec();
    let second = b"2023-01-03,r2,Two,c2,2.00,cleared\n".to_vec();
    let mut store = TransactionStore::new();
    load_transactions_from_source(&mut store, ACCOUNT, &first).unwrap();
    load_transactions_from_source(&mut store, "acct-other", &second).unwrap();
    assert_eq!(store.count(), 2);
    assert_eq!(store.get(0).id, 0);
    assert_eq!(store.get(1).id, 1);
    assert_eq!(store.get(1).account_id, "acct-other");
}
