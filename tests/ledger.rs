use cosmic_money::dates::{get_month_date_range, Date, DateTime};
use cosmic_money::errors::DataStoreError;
use cosmic_money::models::{
    Account, AccountTransfer, Category, Currency, MoneyTransaction, NewAccount,
    NewAccountTransfer, NewCategory, NewMoneyTransaction, UpdateAccount, UpdateCategory,
    UpdateTransaction,
};
use cosmic_money::store::Store;
use cosmic_money::sync::{export_snapshot, import_parsed, import_snapshot, SyncModel};

fn at(year: i32, month: u32, day: u32, hour: u32, minute: u32, second: u32) -> DateTime {
    DateTime { date: Date { year, month, day }, hour, minute, second }
}

fn currencies() -> Vec<Currency> {
    vec![
        Currency { id: 1, label: "US Dollar".to_string(), symbol: "USD".to_string() },
        Currency { id: 2, label: "Euro".to_string(), symbol: "EUR".to_string() },
    ]
}

fn new_account(name: &str, initial_balance: i64) -> NewAccount {
    NewAccount {
        name: name.to_string(),
        initial_balance,
        account_description: String::new(),
    }
}

fn new_transaction(
    account: i32,
    category: i32,
    amount: i64,
    when: DateTime,
    is_expense: bool,
) -> NewMoneyTransaction {
    NewMoneyTransaction {
        bank_account: account,
        transaction_category: category,
        description: "note".to_string(),
        amount,
        transaction_date: when,
        is_expense,
    }
}

fn new_transfer(from: i32, to: i32, amount: i64, when: DateTime) -> NewAccountTransfer {
    NewAccountTransfer {
        from_account: from,
        to_account: to,
        transfer_date: when,
        description: None,
        amount,
    }
}

#[test]
fn balance_of_new_account_is_its_initial_balance() {
    let mut store = Store::new(currencies());
    store.create_account(&new_account("Cash", 4250)).unwrap();
    assert_eq!(store.get_account_balance(1), Ok(4250));
}

#[test]
fn balance_of_missing_account_is_zero() {
    let store = Store::new(currencies());
    assert_eq!(store.get_account_balance(7), Ok(0));
}

#[test]
fn checking_scenario_balance() {
    let mut store = Store::new(currencies());
    store.create_account(&new_account("Checking", 10000)).unwrap();
    store.create_account(&new_account("Savings", 0)).unwrap();
    store
        .create_money_transaction(&new_transaction(1, 1, 3000, at(2024, 5, 10, 12, 0, 0), true))
        .unwrap();
    store.create_account_transfer(&new_transfer(1, 2, 2000, at(2024, 5, 11, 9, 30, 0))).unwrap();
    assert_eq!(store.get_account_balance(1), Ok(5000));
    assert_eq!(store.get_account_balance(2), Ok(2000));
}

#[test]
fn balance_adds_transactions_and_transfers() {
    let mut store = Store::new(currencies());
    store.create_account(&new_account("A", 500)).unwrap();
    store.create_account(&new_account("B", 0)).unwrap();
    let batch = vec![
        new_transaction(1, 1, 1200, at(2024, 1, 2, 8, 0, 0), false),
        new_transaction(1, 2, 300, at(2024, 1, 3, 8, 0, 0), true),
        new_transaction(2, 2, 999, at(2024, 1, 3, 8, 0, 0), true),
    ];
    store.create_money_transactions(&batch).unwrap();
    store.create_account_transfer(&new_transfer(2, 1, 50, at(2024, 1, 4, 0, 0, 0))).unwrap();
    store.create_account_transfer(&new_transfer(1, 2, 75, at(2024, 1, 5, 0, 0, 0))).unwrap();
    // 500 + 1200 - 300 + 50 - 75
    assert_eq!(store.get_account_balance(1), Ok(1375));
    // 0 - 999 - 50 + 75
    assert_eq!(store.get_account_balance(2), Ok(-974));
}

#[test]
fn transfer_to_same_account_leaves_balance() {
    let mut store = Store::new(currencies());
    store.create_account(&new_account("A", 100)).unwrap();
    store.create_account_transfer(&new_transfer(1, 1, 40, at(2024, 1, 4, 0, 0, 0))).unwrap();
    assert_eq!(store.get_account_balance(1), Ok(100));
}

#[test]
fn balance_edit_round_trip_restores_initial_balance() {
    let mut store = Store::new(currencies());
    store.create_account(&new_account("A", 1000)).unwrap();
    store
        .create_money_transaction(&new_transaction(1, 1, 250, at(2024, 2, 1, 0, 0, 0), true))
        .unwrap();
    let x = store.get_account_balance(1).unwrap();
    assert_eq!(x, 750);
    store.edit_account_balance(1, "A".to_string(), String::new(), 2000).unwrap();
    assert_eq!(store.get_account_balance(1), Ok(2000));
    assert_eq!(store.get_accounts().unwrap()[0].initial_balance, 2250);
    store.edit_account_balance(1, "A".to_string(), String::new(), x).unwrap();
    assert_eq!(store.get_account_balance(1), Ok(750));
    assert_eq!(store.get_accounts().unwrap()[0].initial_balance, 1000);
    // The movement is kept.
    assert_eq!(store.get_money_transactions().unwrap().len(), 1);
}

#[test]
fn balance_edit_of_missing_account_is_an_update_error() {
    let mut store = Store::new(currencies());
    let r = store.edit_account_balance(3, "A".to_string(), String::new(), 10);
    assert!(matches!(r, Err(DataStoreError::UpdateError(_))));
}

#[test]
fn balance_edit_out_of_range_is_an_update_error() {
    let mut store = Store::new(currencies());
    store.create_account(&new_account("A", 0)).unwrap();
    let r = store.edit_account_balance(1, "A".to_string(), String::new(), i128::MAX);
    assert!(matches!(r, Err(DataStoreError::UpdateError(_))));
    assert_eq!(store.get_accounts().unwrap()[0].initial_balance, 0);
}

#[test]
fn update_account_overwrites_fields() {
    let mut store = Store::new(currencies());
    store.create_account(&new_account("A", 10)).unwrap();
    store.create_account(&new_account("B", 20)).unwrap();
    let u = UpdateAccount {
        id: 2,
        name: "Bank".to_string(),
        initial_balance: 99,
        account_description: "main".to_string(),
    };
    assert_eq!(store.update_account(&u), Ok(()));
    let accounts = store.get_accounts().unwrap();
    assert_eq!(accounts[0].name, "A");
    assert_eq!(accounts[1].name, "Bank");
    assert_eq!(accounts[1].initial_balance, 99);
    assert_eq!(accounts[1].account_description, "main");
}

#[test]
fn date_range_includes_both_boundary_seconds() {
    let mut store = Store::new(currencies());
    store.create_account(&new_account("A", 0)).unwrap();
    let start = Date { year: 2024, month: 3, day: 1 };
    let end = Date { year: 2024, month: 3, day: 31 };
    let batch = vec![
        new_transaction(1, 1, 1, at(2024, 3, 1, 0, 0, 0), true),
        new_transaction(1, 1, 2, at(2024, 3, 31, 23, 59, 59), true),
        new_transaction(1, 1, 4, at(2024, 2, 29, 23, 59, 59), true),
        new_transaction(1, 1, 8, at(2024, 4, 1, 0, 0, 0), true),
    ];
    store.create_money_transactions(&batch).unwrap();
    let found = store.get_money_transactions_date_range(&start, &end).unwrap();
    let amounts: Vec<i64> = found.iter().map(|t| t.amount).collect();
    assert_eq!(amounts, vec![2, 1]);
    assert_eq!(store.calculate_expense_by_category(1, &start, &end), Ok(3));
}

#[test]
fn transfer_date_range_includes_boundaries_most_recent_first() {
    let mut store = Store::new(currencies());
    let start = Date { year: 2023, month: 12, day: 1 };
    let end = Date { year: 2023, month: 12, day: 31 };
    store.create_account_transfer(&new_transfer(1, 2, 10, at(2023, 12, 1, 0, 0, 0))).unwrap();
    store.create_account_transfer(&new_transfer(1, 2, 20, at(2024, 1, 1, 0, 0, 0))).unwrap();
    store.create_account_transfer(&new_transfer(1, 2, 30, at(2023, 12, 31, 23, 59, 59))).unwrap();
    let found = store.get_transfers_date_range(&start, &end).unwrap();
    let amounts: Vec<i64> = found.iter().map(|t| t.amount).collect();
    assert_eq!(amounts, vec![30, 10]);
    assert_eq!(store.get_transfers().unwrap().len(), 3);
}

#[test]
fn money_transactions_come_most_recent_first() {
    let mut store = Store::new(currencies());
    let batch = vec![
        new_transaction(1, 1, 1, at(2024, 1, 5, 10, 0, 0), true),
        new_transaction(1, 1, 2, at(2024, 3, 1, 0, 0, 0), false),
        new_transaction(1, 1, 3, at(2023, 12, 31, 23, 0, 0), true),
        new_transaction(1, 1, 4, at(2024, 1, 5, 10, 0, 1), true),
    ];
    store.create_money_transactions(&batch).unwrap();
    let all = store.get_money_transactions().unwrap();
    let amounts: Vec<i64> = all.iter().map(|t| t.amount).collect();
    assert_eq!(amounts, vec![2, 4, 1, 3]);
}

#[test]
fn category_totals_are_zero_without_match() {
    let mut store = Store::new(currencies());
    store.create_category(&NewCategory {
        name: "Food".to_string(),
        is_income: false,
        category_description: String::new(),
    }).unwrap();
    store
        .create_money_transaction(&new_transaction(1, 1, 700, at(2024, 6, 3, 0, 0, 0), true))
        .unwrap();
    let start = Date { year: 2024, month: 7, day: 1 };
    let end = Date { year: 2024, month: 7, day: 31 };
    assert_eq!(store.calculate_expense_by_category(1, &start, &end), Ok(0));
    assert_eq!(store.calculate_income_by_category(1, &start, &end), Ok(0));
    assert_eq!(store.calculate_expense_by_category(9, &start, &end), Ok(0));
}

#[test]
fn category_totals_split_by_kind() {
    let mut store = Store::new(currencies());
    let batch = vec![
        new_transaction(1, 5, 700, at(2024, 6, 3, 0, 0, 0), true),
        new_transaction(1, 5, 300, at(2024, 6, 4, 0, 0, 0), true),
        new_transaction(1, 5, 1000, at(2024, 6, 5, 0, 0, 0), false),
        new_transaction(1, 6, 50, at(2024, 6, 5, 0, 0, 0), true),
    ];
    store.create_money_transactions(&batch).unwrap();
    let (start, end) = get_month_date_range(2024, 6);
    assert_eq!(store.calculate_expense_by_category(5, &start, &end), Ok(1000));
    assert_eq!(store.calculate_income_by_category(5, &start, &end), Ok(1000));
    assert_eq!(store.calculate_expense_by_category(6, &start, &end), Ok(50));
}

#[test]
fn rejected_batch_stores_nothing() {
    let mut store = Store::new(currencies());
    store
        .create_money_transaction(&new_transaction(1, 1, 5, at(2024, 1, 1, 0, 0, 0), true))
        .unwrap();
    let batch = vec![
        new_transaction(1, 1, 10, at(2024, 1, 2, 0, 0, 0), true),
        new_transaction(1, 1, -3, at(2024, 1, 3, 0, 0, 0), true),
        new_transaction(1, 1, 20, at(2024, 1, 4, 0, 0, 0), true),
    ];
    let r = store.create_money_transactions(&batch);
    assert!(matches!(r, Err(DataStoreError::InsertError(_))));
    assert_eq!(store.get_money_transactions().unwrap().len(), 1);
}

#[test]
fn batch_with_impossible_date_stores_nothing() {
    let mut store = Store::new(currencies());
    let batch = vec![
        new_transaction(1, 1, 10, at(2024, 1, 2, 0, 0, 0), true),
        new_transaction(1, 1, 10, at(2023, 2, 29, 0, 0, 0), true),
    ];
    let r = store.create_money_transactions(&batch);
    assert!(matches!(r, Err(DataStoreError::InsertError(_))));
    assert!(store.get_money_transactions().unwrap().is_empty());
}

#[test]
fn negative_transfer_is_an_insert_error() {
    let mut store = Store::new(currencies());
    let r = store.create_account_transfer(&new_transfer(1, 2, -1, at(2024, 1, 1, 0, 0, 0)));
    assert!(matches!(r, Err(DataStoreError::InsertError(_))));
    assert!(store.get_transfers().unwrap().is_empty());
}

#[test]
fn exhausted_account_ids_are_an_insert_error() {
    let accounts = vec![Account {
        id: 2147483646,
        name: "Last".to_string(),
        initial_balance: 0,
        account_description: String::new(),
    }];
    let mut store = Store::from_tables(accounts, vec![], vec![], vec![], currencies()).unwrap();
    let r = store.create_account(&new_account("One more", 0));
    assert!(matches!(r, Err(DataStoreError::InsertError(_))));
    assert_eq!(store.get_accounts().unwrap().len(), 1);
}

#[test]
fn update_transaction_and_delete() {
    let mut store = Store::new(currencies());
    let batch = vec![
        new_transaction(1, 1, 10, at(2024, 1, 2, 0, 0, 0), true),
        new_transaction(1, 1, 20, at(2024, 1, 3, 0, 0, 0), true),
    ];
    store.create_money_transactions(&batch).unwrap();
    let u = UpdateTransaction {
        id: 1,
        bank_account: 2,
        transaction_category: 3,
        description: "fixed".to_string(),
        amount: 15,
        transaction_date: at(2024, 1, 9, 0, 0, 0),
        is_expense: false,
    };
    assert_eq!(store.update_transaction(&u), Ok(()));
    let all = store.get_money_transactions().unwrap();
    assert_eq!(all[0].id, 1);
    assert_eq!(all[0].amount, 15);
    assert_eq!(all[0].bank_account, 2);
    assert!(!all[0].is_expense);
    assert_eq!(store.delete_transaction(&1), Ok(()));
    let all = store.get_money_transactions().unwrap();
    assert_eq!(all.len(), 1);
    assert_eq!(all[0].id, 2);
}

#[test]
fn invalid_update_transaction_is_an_update_error() {
    let mut store = Store::new(currencies());
    store
        .create_money_transaction(&new_transaction(1, 1, 10, at(2024, 1, 2, 0, 0, 0), true))
        .unwrap();
    let u = UpdateTransaction {
        id: 1,
        bank_account: 1,
        transaction_category: 1,
        description: String::new(),
        amount: -15,
        transaction_date: at(2024, 1, 9, 0, 0, 0),
        is_expense: false,
    };
    assert!(matches!(store.update_transaction(&u), Err(DataStoreError::UpdateError(_))));
    assert_eq!(store.get_money_transactions().unwrap()[0].amount, 10);
}

#[test]
fn update_category_overwrites_fields() {
    let mut store = Store::new(currencies());
    let cats = vec![
        NewCategory { name: "Food".to_string(), is_income: false, category_description: String::new() },
        NewCategory { name: "Salary".to_string(), is_income: true, category_description: String::new() },
    ];
    store.create_categories(&cats).unwrap();
    let u = UpdateCategory {
        id: 1,
        name: "Groceries".to_string(),
        is_income: false,
        category_description: "weekly".to_string(),
    };
    assert_eq!(store.update_category(&u), Ok(()));
    let all = store.get_categories().unwrap();
    assert_eq!(all.len(), 2);
    assert_eq!(all[0].name, "Groceries");
    assert_eq!(all[0].category_description, "weekly");
    assert_eq!(all[1].id, 2);
    assert!(all[1].is_income);
}

#[test]
fn currency_symbol_lookup() {
    let store = Store::new(currencies());
    assert_eq!(store.get_currency_symbol_by_id(2), Ok("EUR".to_string()));
    assert!(matches!(store.get_currency_symbol_by_id(5), Err(DataStoreError::QueryError(_))));
    assert_eq!(store.get_currencies().unwrap().len(), 2);
}

#[test]
fn drop_all_keeps_transfers_and_currencies() {
    let mut store = Store::new(currencies());
    store.create_account(&new_account("A", 1)).unwrap();
    store.create_category(&NewCategory {
        name: "C".to_string(),
        is_income: true,
        category_description: String::new(),
    }).unwrap();
    store
        .create_money_transaction(&new_transaction(1, 1, 10, at(2024, 1, 2, 0, 0, 0), true))
        .unwrap();
    store.create_account_transfer(&new_transfer(1, 2, 5, at(2024, 1, 2, 0, 0, 0))).unwrap();
    assert_eq!(store.drop_all(), Ok(()));
    assert!(store.get_accounts().unwrap().is_empty());
    assert!(store.get_categories().unwrap().is_empty());
    assert!(store.get_money_transactions().unwrap().is_empty());
    assert_eq!(store.get_transfers().unwrap().len(), 1);
    assert_eq!(store.get_currencies().unwrap().len(), 2);
    store.create_account(&new_account("B", 1)).unwrap();
    assert_eq!(store.get_accounts().unwrap()[0].id, 1);
}

fn sample_store() -> Store {
    let mut store = Store::new(currencies());
    store.create_accounts(&vec![new_account("Checking", 100), new_account("Savings", 0)]).unwrap();
    store
        .create_categories(&vec![NewCategory {
            name: "Food".to_string(),
            is_income: false,
            category_description: "meals".to_string(),
        }])
        .unwrap();
    store
        .create_money_transactions(&vec![
            new_transaction(1, 1, 30, at(2024, 5, 1, 0, 0, 0), true),
            new_transaction(2, 1, 60, at(2024, 6, 1, 0, 0, 0), false),
        ])
        .unwrap();
    store
}

#[test]
fn export_then_import_round_trip() {
    let source = sample_store();
    let snapshot = export_snapshot(&source, 2);
    assert_eq!(snapshot.currency, "EUR");
    let mut target = Store::new(currencies());
    target.create_account(&new_account("Old", 5)).unwrap();
    let active = import_snapshot(&mut target, &snapshot);
    assert_eq!(active, 2);
    let strip_a = |v: Vec<Account>| -> Vec<NewAccount> { v.iter().map(NewAccount::from).collect() };
    let strip_c =
        |v: Vec<Category>| -> Vec<NewCategory> { v.iter().map(NewCategory::from).collect() };
    assert_eq!(strip_a(target.get_accounts().unwrap()), strip_a(source.get_accounts().unwrap()));
    assert_eq!(
        strip_c(target.get_categories().unwrap()),
        strip_c(source.get_categories().unwrap())
    );
    let strip_t = |v: Vec<MoneyTransaction>| -> Vec<NewMoneyTransaction> {
        v.iter().map(NewMoneyTransaction::from).collect()
    };
    assert_eq!(
        strip_t(target.get_money_transactions().unwrap()),
        strip_t(source.get_money_transactions().unwrap())
    );
}

#[test]
fn export_defaults_to_usd() {
    let source = sample_store();
    let snapshot = export_snapshot(&source, 42);
    assert_eq!(snapshot.currency, "USD");
    assert_eq!(snapshot.accounts.len(), 2);
    assert_eq!(snapshot.transactions[0].amount, 60);
}

#[test]
fn import_unknown_currency_selects_zero() {
    let snapshot = SyncModel {
        accounts: vec![],
        categories: vec![],
        transactions: vec![],
        currency: "XYZ".to_string(),
    };
    let mut store = sample_store();
    let active = import_snapshot(&mut store, &snapshot);
    assert_eq!(active, 0);
    assert!(store.get_accounts().unwrap().is_empty());
}

#[test]
fn import_of_unparsable_document_wipes_ledger() {
    let mut store = sample_store();
    store.create_account_transfer(&new_transfer(1, 2, 5, at(2024, 1, 2, 0, 0, 0))).unwrap();
    let active = import_parsed(&mut store, None);
    assert_eq!(active, 0);
    assert!(store.get_accounts().unwrap().is_empty());
    assert!(store.get_categories().unwrap().is_empty());
    assert!(store.get_money_transactions().unwrap().is_empty());
    assert_eq!(store.get_transfers().unwrap().len(), 1);
}

#[test]
fn from_tables_rejects_shared_account_ids() {
    let a = Account {
        id: 3,
        name: "A".to_string(),
        initial_balance: 0,
        account_description: String::new(),
    };
    let b = Account { name: "B".to_string(), ..a.clone() };
    let r = Store::from_tables(vec![a, b], vec![], vec![], vec![], currencies());
    assert!(matches!(r, Err(DataStoreError::QueryError(_))));
}

#[test]
fn from_tables_continues_ids() {
    let t = AccountTransfer {
        id: 9,
        from_account: 1,
        to_account: 2,
        transfer_date: at(2024, 1, 1, 0, 0, 0),
        description: Some("rent".to_string()),
        amount: 10,
    };
    let mut store = Store::from_tables(vec![], vec![], vec![], vec![t], currencies()).unwrap();
    store.create_account_transfer(&new_transfer(2, 1, 3, at(2024, 1, 2, 0, 0, 0))).unwrap();
    let all = store.get_transfers().unwrap();
    assert_eq!(all[1].id, 10);
    assert_eq!(all[0].description, Some("rent".to_string()));
}

#[test]
fn default_store_is_empty() {
    let store = Store::default();
    assert!(store.get_accounts().unwrap().is_empty());
    assert!(store.get_currencies().unwrap().is_empty());
}
