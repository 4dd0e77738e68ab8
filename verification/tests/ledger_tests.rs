use budgeting::ledger::{Account, AccountType, Bank, NewBank};

#[test]
fn test_ledger_entities_hold_their_fields() {
    let new_bank = NewBank { name: "First Credit Union".to_string() };
    let bank = Bank { id: "bank-1".to_string(), name: new_bank.name.clone() };
    assert_eq!(bank.name, "First Credit Union");

    let kind = AccountType { id: "type-1".to_string(), name: "checking".to_string() };
    let account = Account {
        id: "acct-42".to_string(),
        name: "Joint checking".to_string(),
        bank_name: bank.name.clone(),
        kind_name: kind.name.clone(),
    };
    assert_eq!(account.bank_name, "First Credit Union");
    assert_eq!(account.kind_name, "checking");
}
