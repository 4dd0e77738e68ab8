use budgeting::records::{decode_record, Date, DecodeError};

fn row(fields: &[&str]) -> Vec<String> {
    fields.iter().map(|f| f.to_string()).collect()
}

#[test]
fn test_decode_well_formed_row() {
    let fields = row(&["2023-01-15", "ref-1", "Coffee", "EUR", "-4.50", "cleared"]);
    let t = decode_record(&fields).unwrap();
    assert_eq!(
        t.transaction_date,
        Date { year: 2023, month: 1, day: 15 }
    );
    assert_eq!(t.description, "Coffee");
    assert_eq!(t.amount_cents, -450);
    assert_eq!(t.status, "cleared");
}

#[test]
fn test_decode_ignores_reserved_columns_and_extras() {
    let fields = row(&["2024-02-29", "ignored", "Rent", "ignored", "800", "pending", "extra"]);
    let t = decode_record(&fields).unwrap();
    assert_eq!(
        t.transaction_date,
        Date { year: 2024, month: 2, day: 29 }
    );
    assert_eq!(t.amount_cents, 80000);
    assert_eq!(t.status, "pending");
}

#[test]
fn test_decode_too_few_columns() {
    let fields = row(&["2023-01-15", "a", "b", "c", "1.00"]);
    assert_eq!(decode_record(&fields), Err(DecodeError::MissingColumns));
    assert_eq!(decode_record(&row(&[])), Err(DecodeError::MissingColumns));
}

#[test]
fn test_decode_rejects_malformed_dates() {
    for bad in ["2023-02-30", "01/15/2023", "not a date", "2023-13-01", ""] {
        let fields = row(&[bad, "a", "b", "c", "1.00", "pending"]);
        assert_eq!(decode_record(&fields), Err(DecodeError::InvalidDate));
    }
}

#[test]
fn test_decode_rejects_unrepresentable_amount() {
    let fields = row(&["2023-01-15", "a", "b", "c", "92233720368547758.08", "pending"]);
    assert_eq!(decode_record(&fields), Err(DecodeError::AmountOutOfRange));
}

#[test]
fn test_decode_amount_noise_degrades_to_zero() {
    let fields = row(&["2023-01-15", "a", "b", "c", "n/a", "pending"]);
    let t = decode_record(&fields).unwrap();
    assert_eq!(t.amount_cents, 0);
}
