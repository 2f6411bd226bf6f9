//! The whole-ledger snapshot: what export produces and import consumes.

use crate::models::{
    new_account_of, new_category_of, new_transaction_of, Account, Category, Currency,
    MoneyTransaction, NewAccount, NewCategory, NewMoneyTransaction,
};
use crate::store::{currency_by_id, transactions_by_date_desc, LedgerView, Store};
use vstd::prelude::*;

verus! {

/// A snapshot of the ledger: all accounts, categories and money transactions,
/// and the symbol of the active currency. Transfers are not part of it.
#[derive(Debug)]
pub struct SyncModel {
    pub accounts: Vec<Account>,
    pub categories: Vec<Category>,
    pub transactions: Vec<MoneyTransaction>,
    pub currency: String,
}

impl Default for SyncModel {
    /// The empty snapshot, with an empty currency symbol.
    fn default() -> (r: SyncModel)
        ensures
            r.accounts@.len() == 0,
            r.categories@.len() == 0,
            r.transactions@.len() == 0,
            r.currency@.len() == 0,
    {
        SyncModel {
            accounts: Vec::new(),
            categories: Vec::new(),
            transactions: Vec::new(),
            currency: String::new(),
        }
    }
}

/// The symbol exported for the active currency `currency_id`: its symbol, or
/// "USD" if the currency table has no such id.
pub open spec fn exported_currency(currencies: Seq<Currency>, currency_id: i32) -> Seq<char> {
    match currency_by_id(currencies, currency_id) {
        Some(c) => c.symbol@,
        None => "USD"@,
    }
}

/// The id of the first currency with symbol `symbol`, or 0 if there is none.
pub open spec fn currency_id_by_symbol(currencies: Seq<Currency>, symbol: Seq<char>) -> i32
    decreases currencies.len(),
{
    if currencies.len() == 0 {
        0
    } else if currencies[0].symbol@ == symbol {
        currencies[0].id
    } else {
        currency_id_by_symbol(currencies.drop_first(), symbol)
    }
}

/// The store after importing `m`: the ledger is wiped, then the accounts, the
/// categories and the money transactions of `m` are inserted, each list as
/// one batch that happens whole or not at all.
pub open spec fn after_import(v: LedgerView, m: SyncModel) -> LedgerView {
    v.after_drop_all().after_create_accounts(
        m.accounts@.map_values(|a: Account| new_account_of(a)),
    ).after_create_categories(
        m.categories@.map_values(|c: Category| new_category_of(c)),
    ).after_create_transactions(
        m.transactions@.map_values(|t: MoneyTransaction| new_transaction_of(t)),
    )
}

/// The snapshot of `store`, with the symbol of the active currency
/// `currency_id` ("USD" if it cannot be resolved). Its transactions come most
/// recent first.
pub fn export_snapshot(store: &Store, currency_id: i32) -> (r: SyncModel)
    ensures
        r.accounts@ == store@.accounts,
        r.categories@ == store@.categories,
        r.transactions@.to_multiset() == store@.transactions.to_multiset(),
        transactions_by_date_desc(r.transactions@),
        r.currency@ == exported_currency(store@.currencies, currency_id),
{
    let accounts = match store.get_accounts() {
        Ok(v) => v,
        Err(_) => Vec::new(),
    };
    let categories = match store.get_categories() {
        Ok(v) => v,
        Err(_) => Vec::new(),
    };
    let transactions = match store.get_money_transactions() {
        Ok(v) => v,
        Err(_) => Vec::new(),
    };
    let currency = match store.get_currency_symbol_by_id(currency_id) {
        Ok(symbol) => symbol,
        Err(_) => "USD".to_string(),
    };
    proof {
        reveal_strlit("USD");
    }
    SyncModel { accounts, categories, transactions, currency }
}

/// The id of the first currency of `currencies` with symbol `symbol`, or 0.
fn currency_id_for_symbol(currencies: &Vec<Currency>, symbol: &String) -> (r: i32)
    ensures
        r == currency_id_by_symbol(currencies@, symbol@),
{
    let mut i: usize = 0;
    proof {
        assert(currencies@.skip(0) =~= currencies@);
    }
    while i < currencies.len()
        invariant
            0 <= i <= currencies.len(),
            currency_id_by_symbol(currencies@.skip(i as int), symbol@) == currency_id_by_symbol(
                currencies@,
                symbol@,
            ),
        decreases currencies.len() - i,
    {
        proof {
            assert(currencies@.skip(i as int).drop_first() =~= currencies@.skip(i + 1));
            assert(currencies@.skip(i as int)[0] == currencies@[i as int]);
        }
        if currencies[i].symbol == *symbol {
            return currencies[i].id;
        }
        i = i + 1;
    }
    0
}

/// Replaces the whole ledger by the snapshot `snapshot` and returns the id of
/// the currency to make active: the first one whose symbol is the snapshot's,
/// or 0 if there is none. The steps are best effort: a batch that is
/// rejected leaves its table empty and the import goes on.
pub fn import_snapshot(store: &mut Store, snapshot: &SyncModel) -> (r: i32)
    requires
        old(store)@.wf(),
    ensures
        final(store)@.wf(),
        final(store)@ == after_import(old(store)@, *snapshot),
        r == currency_id_by_symbol(old(store)@.currencies, snapshot.currency@),
{
    let _ = store.drop_all();
    let mut accounts: Vec<NewAccount> = Vec::new();
    let mut i: usize = 0;
    while i < snapshot.accounts.len()
        invariant
            0 <= i <= snapshot.accounts.len(),
            accounts@ == snapshot.accounts@.take(i as int).map_values(
                |a: Account| new_account_of(a),
            ),
        decreases snapshot.accounts.len() - i,
    {
        accounts.push(NewAccount::from(&snapshot.accounts[i]));
        i = i + 1;
        proof {
            assert(accounts@ =~= snapshot.accounts@.take(i as int).map_values(
                |a: Account| new_account_of(a),
            ));
        }
    }
    proof {
        assert(snapshot.accounts@.take(i as int) =~= snapshot.accounts@);
    }
    let _ = store.create_accounts(&accounts);
    let mut categories: Vec<NewCategory> = Vec::new();
    let mut j: usize = 0;
    while j < snapshot.categories.len()
        invariant
            0 <= j <= snapshot.categories.len(),
            categories@ == snapshot.categories@.take(j as int).map_values(
                |c: Category| new_category_of(c),
            ),
        decreases snapshot.categories.len() - j,
    {
        categories.push(NewCategory::from(&snapshot.categories[j]));
        j = j + 1;
        proof {
            assert(categories@ =~= snapshot.categories@.take(j as int).map_values(
                |c: Category| new_category_of(c),
            ));
        }
    }
    proof {
        assert(snapshot.categories@.take(j as int) =~= snapshot.categories@);
    }
    let _ = store.create_categories(&categories);
    let mut transactions: Vec<NewMoneyTransaction> = Vec::new();
    let mut k: usize = 0;
    while k < snapshot.transactions.len()
        invariant
            0 <= k <= snapshot.transactions.len(),
            transactions@ == snapshot.transactions@.take(k as int).map_values(
                |t: MoneyTransaction| new_transaction_of(t),
            ),
        decreases snapshot.transactions.len() - k,
    {
        transactions.push(NewMoneyTransaction::from(&snapshot.transactions[k]));
        k = k + 1;
        proof {
            assert(transactions@ =~= snapshot.transactions@.take(k as int).map_values(
                |t: MoneyTransaction| new_transaction_of(t),
            ));
        }
    }
    proof {
        assert(snapshot.transactions@.take(k as int) =~= snapshot.transactions@);
    }
    let _ = store.create_money_transactions(&transactions);
    match store.get_currencies() {
        Ok(list) => currency_id_for_symbol(&list, &snapshot.currency),
        Err(_) => 0,
    }
}

/// Imports a parsed snapshot, or, where the document could not be parsed
/// (`None`), the empty snapshot: the ledger is then wiped and nothing is
/// loaded.
pub fn import_parsed(store: &mut Store, parsed: Option<SyncModel>) -> (r: i32)
    requires
        old(store)@.wf(),
    ensures
        final(store)@.wf(),
        match parsed {
            Some(m) => final(store)@ == after_import(old(store)@, m) && r
                == currency_id_by_symbol(old(store)@.currencies, m.currency@),
            None => final(store)@ == old(store)@.after_drop_all() && r
                == currency_id_by_symbol(old(store)@.currencies, Seq::empty()),
        },
{
    match parsed {
        Some(m) => import_snapshot(store, &m),
        None => {
            let empty = SyncModel::default();
            let r = import_snapshot(store, &empty);
            proof {
                assert(empty.accounts@.map_values(|a: Account| new_account_of(a)) =~= Seq::empty());
                assert(empty.categories@.map_values(|c: Category| new_category_of(c))
                    =~= Seq::empty());
                assert(empty.transactions@.map_values(|t: MoneyTransaction| new_transaction_of(t))
                    =~= Seq::empty());
                assert(empty.currency@ =~= Seq::<char>::empty());
                let v = old(store)@.after_drop_all();
                assert(v.accounts + crate::store::accounts_from(Seq::empty(), 1) =~= v.accounts);
                assert(v.categories + crate::store::categories_from(Seq::empty(), 1)
                    =~= v.categories);
                assert(v.transactions + crate::store::transactions_from(Seq::empty(), 1)
                    =~= v.transactions);
            }
            r
        },
    }
}

} // verus!
