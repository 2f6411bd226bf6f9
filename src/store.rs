//! The ledger store: the tables of accounts, categories, money transactions,
//! transfers and currencies, the writes on them and the values derived from
//! them.

use crate::dates::{in_day_range, is_in_day_range, Date, DateTime, datetime_key, datetime_ordinal};
use crate::errors::DataStoreError;
use crate::models::{
    account_with_id, category_with_id, transaction_with_id, transfer_with_id, Account,
    AccountTransfer, Category, Currency, MoneyTransaction, NewAccount, NewAccountTransfer,
    NewCategory, NewMoneyTransaction, UpdateAccount, UpdateCategory, UpdateTransaction,
};
use vstd::prelude::*;

verus! {

/// The largest id a row can have.
pub const MAX_ID: i32 = 2147483647;

/// The contents of a store.
pub struct LedgerView {
    pub accounts: Seq<Account>,
    pub categories: Seq<Category>,
    pub transactions: Seq<MoneyTransaction>,
    pub transfers: Seq<AccountTransfer>,
    pub currencies: Seq<Currency>,
    /// The id that the next account created gets.
    pub next_account_id: int,
    pub next_category_id: int,
    pub next_transaction_id: int,
    pub next_transfer_id: int,
}

/// Ids below `next`, which lies in the id space, and fewer rows than `next`.
pub open spec fn id_counter_ok(next: int, len: int) -> bool {
    1 <= next <= MAX_ID && len < next
}

/// The storage constraint on a money movement: a non-negative amount and a
/// date-time that exists.
pub open spec fn movement_ok(amount: i64, date: DateTime) -> bool {
    amount >= 0 && date.valid()
}

pub open spec fn new_transaction_ok(t: NewMoneyTransaction) -> bool {
    movement_ok(t.amount, t.transaction_date)
}

pub open spec fn all_new_transactions_ok(ts: Seq<NewMoneyTransaction>) -> bool {
    forall|i: int| 0 <= i < ts.len() ==> new_transaction_ok(#[trigger] ts[i])
}

/// `count` rows can be given ids from `next` on.
pub open spec fn room_for(next: int, count: int) -> bool {
    next + count <= MAX_ID
}

pub open spec fn accounts_from(list: Seq<NewAccount>, first_id: int) -> Seq<Account> {
    Seq::new(list.len(), |i: int| account_with_id(list[i], (first_id + i) as i32))
}

pub open spec fn categories_from(list: Seq<NewCategory>, first_id: int) -> Seq<Category> {
    Seq::new(list.len(), |i: int| category_with_id(list[i], (first_id + i) as i32))
}

pub open spec fn transactions_from(list: Seq<NewMoneyTransaction>, first_id: int) -> Seq<
    MoneyTransaction,
> {
    Seq::new(list.len(), |i: int| transaction_with_id(list[i], (first_id + i) as i32))
}

/// Initial balance of the first account with id `id`, or 0 if there is none.
pub open spec fn initial_balance_of(accounts: Seq<Account>, id: i32) -> int
    decreases accounts.len(),
{
    if accounts.len() == 0 {
        0
    } else if accounts[0].id == id {
        accounts[0].initial_balance as int
    } else {
        initial_balance_of(accounts.drop_first(), id)
    }
}

/// What transaction `t` adds to the balance of account `id`.
pub open spec fn transaction_effect(t: MoneyTransaction, id: i32) -> int {
    if t.bank_account != id {
        0
    } else if t.is_expense {
        -t.amount
    } else {
        t.amount as int
    }
}

/// What the transactions `ts` add to the balance of account `id`.
pub open spec fn transactions_effect(ts: Seq<MoneyTransaction>, id: i32) -> int
    decreases ts.len(),
{
    if ts.len() == 0 {
        0
    } else {
        transactions_effect(ts.drop_last(), id) + transaction_effect(ts.last(), id)
    }
}

/// What transfer `t` adds to the balance of account `id`.
pub open spec fn transfer_effect(t: AccountTransfer, id: i32) -> int {
    (if t.to_account == id {
        t.amount as int
    } else {
        0
    }) - (if t.from_account == id {
        t.amount as int
    } else {
        0
    })
}

/// What the transfers `ts` add to the balance of account `id`.
pub open spec fn transfers_effect(ts: Seq<AccountTransfer>, id: i32) -> int
    decreases ts.len(),
{
    if ts.len() == 0 {
        0
    } else {
        transfers_effect(ts.drop_last(), id) + transfer_effect(ts.last(), id)
    }
}

impl LedgerView {
    pub open spec fn wf(self) -> bool {
        &&& id_counter_ok(self.next_account_id, self.accounts.len() as int)
        &&& id_counter_ok(self.next_category_id, self.categories.len() as int)
        &&& id_counter_ok(self.next_transaction_id, self.transactions.len() as int)
        &&& id_counter_ok(self.next_transfer_id, self.transfers.len() as int)
        &&& forall|i: int|
            0 <= i < self.accounts.len() ==> #[trigger] self.accounts[i].id < self.next_account_id
        &&& forall|i: int, j: int|
            0 <= i < j < self.accounts.len() ==> #[trigger] self.accounts[i].id
                != #[trigger] self.accounts[j].id
        &&& forall|i: int|
            0 <= i < self.categories.len() ==> #[trigger] self.categories[i].id
                < self.next_category_id
        &&& forall|i: int|
            0 <= i < self.transactions.len() ==> #[trigger] self.transactions[i].id
                < self.next_transaction_id
        &&& forall|i: int|
            0 <= i < self.transfers.len() ==> #[trigger] self.transfers[i].id < self.next_transfer_id
        &&& forall|i: int|
            0 <= i < self.transactions.len() ==> movement_ok(
                #[trigger] self.transactions[i].amount,
                self.transactions[i].transaction_date,
            )
        &&& forall|i: int|
            0 <= i < self.transfers.len() ==> movement_ok(
                #[trigger] self.transfers[i].amount,
                self.transfers[i].transfer_date,
            )
    }

    /// The derived balance of account `id`.
    pub open spec fn balance_of(self, id: i32) -> int {
        initial_balance_of(self.accounts, id) + transactions_effect(self.transactions, id)
            + transfers_effect(self.transfers, id)
    }

    /// The store after a batch insert of accounts, which happens whole or not at all.
    pub open spec fn after_create_accounts(self, list: Seq<NewAccount>) -> LedgerView {
        if room_for(self.next_account_id, list.len() as int) {
            LedgerView {
                accounts: self.accounts + accounts_from(list, self.next_account_id),
                next_account_id: self.next_account_id + list.len(),
                ..self
            }
        } else {
            self
        }
    }

    pub open spec fn after_create_categories(self, list: Seq<NewCategory>) -> LedgerView {
        if room_for(self.next_category_id, list.len() as int) {
            LedgerView {
                categories: self.categories + categories_from(list, self.next_category_id),
                next_category_id: self.next_category_id + list.len(),
                ..self
            }
        } else {
            self
        }
    }

    /// Whether a batch of money transactions is accepted.
    pub open spec fn accepts_transactions(self, list: Seq<NewMoneyTransaction>) -> bool {
        room_for(self.next_transaction_id, list.len() as int) && all_new_transactions_ok(list)
    }

    pub open spec fn after_create_transactions(self, list: Seq<NewMoneyTransaction>) -> LedgerView {
        if self.accepts_transactions(list) {
            LedgerView {
                transactions: self.transactions + transactions_from(
                    list,
                    self.next_transaction_id,
                ),
                next_transaction_id: self.next_transaction_id + list.len(),
                ..self
            }
        } else {
            self
        }
    }

    /// Whether a transfer is accepted.
    pub open spec fn accepts_transfer(self, t: NewAccountTransfer) -> bool {
        room_for(self.next_transfer_id, 1) && movement_ok(t.amount, t.transfer_date)
    }

    pub open spec fn after_create_transfer(self, t: NewAccountTransfer) -> LedgerView {
        if self.accepts_transfer(t) {
            LedgerView {
                transfers: self.transfers.push(transfer_with_id(t, self.next_transfer_id as i32)),
                next_transfer_id: self.next_transfer_id + 1,
                ..self
            }
        } else {
            self
        }
    }
    /// The store after an overwrite of the account with id `u.id`.
    pub open spec fn after_update_account(self, u: UpdateAccount) -> LedgerView {
        LedgerView { accounts: self.accounts.map_values(|a: Account| overwritten_account(a, u)), ..self }
    }

    pub open spec fn after_update_category(self, u: UpdateCategory) -> LedgerView {
        LedgerView {
            categories: self.categories.map_values(|c: Category| overwritten_category(c, u)),
            ..self
        }
    }

    /// Whether an overwrite of a money transaction is accepted.
    pub open spec fn accepts_update_transaction(self, u: UpdateTransaction) -> bool {
        movement_ok(u.amount, u.transaction_date)
    }

    pub open spec fn after_update_transaction(self, u: UpdateTransaction) -> LedgerView {
        if self.accepts_update_transaction(u) {
            LedgerView {
                transactions: self.transactions.map_values(
                    |t: MoneyTransaction| overwritten_transaction(t, u),
                ),
                ..self
            }
        } else {
            self
        }
    }

    pub open spec fn after_delete_transaction(self, id: i32) -> LedgerView {
        LedgerView {
            transactions: self.transactions.filter(|t: MoneyTransaction| t.id != id),
            ..self
        }
    }

    /// The store after every account, money transaction and category is
    /// deleted: transfers and currencies stay, and ids start again from 1.
    pub open spec fn after_drop_all(self) -> LedgerView {
        LedgerView {
            accounts: Seq::empty(),
            categories: Seq::empty(),
            transactions: Seq::empty(),
            next_account_id: 1,
            next_category_id: 1,
            next_transaction_id: 1,
            ..self
        }
    }
}

pub open spec fn overwritten_account(a: Account, u: UpdateAccount) -> Account {
    if a.id == u.id {
        Account {
            id: a.id,
            name: u.name,
            initial_balance: u.initial_balance,
            account_description: u.account_description,
        }
    } else {
        a
    }
}

pub open spec fn overwritten_category(c: Category, u: UpdateCategory) -> Category {
    if c.id == u.id {
        Category {
            id: c.id,
            name: u.name,
            category_description: u.category_description,
            is_income: u.is_income,
        }
    } else {
        c
    }
}

pub open spec fn overwritten_transaction(t: MoneyTransaction, u: UpdateTransaction) -> MoneyTransaction {
    if t.id == u.id {
        MoneyTransaction {
            id: t.id,
            bank_account: u.bank_account,
            transaction_category: u.transaction_category,
            description: u.description,
            amount: u.amount,
            transaction_date: u.transaction_date,
            is_expense: u.is_expense,
        }
    } else {
        t
    }
}

/// The first currency with id `id`.
pub open spec fn currency_by_id(cs: Seq<Currency>, id: i32) -> Option<Currency>
    decreases cs.len(),
{
    if cs.len() == 0 {
        None
    } else if cs[0].id == id {
        Some(cs[0])
    } else {
        currency_by_id(cs.drop_first(), id)
    }
}

/// What transaction `t` adds to the total of category `category_id` over the
/// expenses (`expense`) or the incomes in the day range from `start` to `end`.
pub open spec fn category_amount(
    t: MoneyTransaction,
    category_id: i32,
    expense: bool,
    start: Date,
    end: Date,
) -> int {
    if t.transaction_category == category_id && t.is_expense == expense && in_day_range(
        t.transaction_date,
        start,
        end,
    ) {
        t.amount as int
    } else {
        0
    }
}

/// The total of category `category_id` over the expenses (`expense`) or the
/// incomes among `ts` in the day range from `start` to `end`.
pub open spec fn category_total(
    ts: Seq<MoneyTransaction>,
    category_id: i32,
    expense: bool,
    start: Date,
    end: Date,
) -> int
    decreases ts.len(),
{
    if ts.len() == 0 {
        0
    } else {
        category_total(ts.drop_last(), category_id, expense, start, end) + category_amount(
            ts.last(),
            category_id,
            expense,
            start,
            end,
        )
    }
}

/// Most recent first: no transaction comes before a later one.
pub open spec fn transactions_by_date_desc(s: Seq<MoneyTransaction>) -> bool {
    forall|i: int, j: int|
        0 <= i < j < s.len() ==> datetime_key(#[trigger] s[i].transaction_date) >= datetime_key(
            #[trigger] s[j].transaction_date,
        )
}

/// Most recent first: no transfer comes before a later one.
pub open spec fn transfers_by_date_desc(s: Seq<AccountTransfer>) -> bool {
    forall|i: int, j: int|
        0 <= i < j < s.len() ==> datetime_key(#[trigger] s[i].transfer_date) >= datetime_key(
            #[trigger] s[j].transfer_date,
        )
}

pub open spec fn transactions_in_range(ts: Seq<MoneyTransaction>, start: Date, end: Date) -> Seq<
    MoneyTransaction,
> {
    ts.filter(|t: MoneyTransaction| in_day_range(t.transaction_date, start, end))
}

pub open spec fn transfers_in_range(ts: Seq<AccountTransfer>, start: Date, end: Date) -> Seq<
    AccountTransfer,
> {
    ts.filter(|t: AccountTransfer| in_day_range(t.transfer_date, start, end))
}

/// Bound on the magnitude of one amount.
pub open spec fn amount_bound() -> int {
    0x8000_0000_0000_0000
}

/// Some account has id `id`.
pub open spec fn has_account(accounts: Seq<Account>, id: i32) -> bool {
    exists|i: int| 0 <= i < accounts.len() && #[trigger] accounts[i].id == id
}

impl LedgerView {
    /// The initial balance that makes the derived balance of account `id`
    /// equal to `new_balance`: the edit is applied as a delta to the stored
    /// baseline.
    pub open spec fn edited_initial_balance(self, id: i32, new_balance: int) -> int {
        initial_balance_of(self.accounts, id) + (new_balance - self.balance_of(id))
    }

    /// Whether a balance edit of account `id` to `new_balance` is accepted:
    /// the account exists and the new baseline fits.
    pub open spec fn accepts_balance_edit(self, id: i32, new_balance: int) -> bool {
        &&& has_account(self.accounts, id)
        &&& i64::MIN <= self.edited_initial_balance(id, new_balance) <= i64::MAX
    }
}

/// The largest id among `ids`, 0 if there is none.
pub open spec fn max_id(ids: Seq<i32>) -> int
    decreases ids.len(),
{
    if ids.len() == 0 {
        0
    } else {
        let m = max_id(ids.drop_last());
        if ids.last() as int > m {
            ids.last() as int
        } else {
            m
        }
    }
}

/// The id counter of a loaded table: above every id and above the number of
/// rows.
pub open spec fn next_id_after(ids: Seq<i32>) -> int {
    if max_id(ids) > ids.len() {
        max_id(ids) + 1
    } else {
        ids.len() as int + 1
    }
}

/// Rows that a store can hold: every id is positive and leaves room for a
/// next one, account ids are distinct, and every movement meets the storage
/// constraint.
pub open spec fn loadable(
    accounts: Seq<Account>,
    categories: Seq<Category>,
    transactions: Seq<MoneyTransaction>,
    transfers: Seq<AccountTransfer>,
) -> bool {
    &&& next_id_after(accounts.map_values(|a: Account| a.id)) <= MAX_ID
    &&& next_id_after(categories.map_values(|c: Category| c.id)) <= MAX_ID
    &&& next_id_after(transactions.map_values(|t: MoneyTransaction| t.id)) <= MAX_ID
    &&& next_id_after(transfers.map_values(|t: AccountTransfer| t.id)) <= MAX_ID
    &&& forall|i: int, j: int|
        0 <= i < j < accounts.len() ==> #[trigger] accounts[i].id != #[trigger] accounts[j].id
    &&& forall|i: int|
        0 <= i < transactions.len() ==> movement_ok(
            #[trigger] transactions[i].amount,
            transactions[i].transaction_date,
        )
    &&& forall|i: int|
        0 <= i < transfers.len() ==> movement_ok(
            #[trigger] transfers[i].amount,
            transfers[i].transfer_date,
        )
}

/// The ledger store. All reads and writes of the ledger go through it.
pub struct Store {
    accounts: Vec<Account>,
    categories: Vec<Category>,
    transactions: Vec<MoneyTransaction>,
    transfers: Vec<AccountTransfer>,
    currencies: Vec<Currency>,
    next_account_id: i32,
    next_category_id: i32,
    next_transaction_id: i32,
    next_transfer_id: i32,
}

impl View for Store {
    type V = LedgerView;

    closed spec fn view(&self) -> LedgerView {
        LedgerView {
            accounts: self.accounts@,
            categories: self.categories@,
            transactions: self.transactions@,
            transfers: self.transfers@,
            currencies: self.currencies@,
            next_account_id: self.next_account_id as int,
            next_category_id: self.next_category_id as int,
            next_transaction_id: self.next_transaction_id as int,
            next_transfer_id: self.next_transfer_id as int,
        }
    }
}

impl Store {
    /// An empty ledger over the currency table `currencies`.
    pub fn new(currencies: Vec<Currency>) -> (r: Store)
        ensures
            r@.wf(),
            r@.accounts.len() == 0,
            r@.categories.len() == 0,
            r@.transactions.len() == 0,
            r@.transfers.len() == 0,
            r@.currencies == currencies@,
            r@.next_account_id == 1,
            r@.next_category_id == 1,
            r@.next_transaction_id == 1,
            r@.next_transfer_id == 1,
    {
        Store {
            accounts: Vec::new(),
            categories: Vec::new(),
            transactions: Vec::new(),
            transfers: Vec::new(),
            currencies,
            next_account_id: 1,
            next_category_id: 1,
            next_transaction_id: 1,
            next_transfer_id: 1,
        }
    }

    /// A store over rows read back from storage; a query error if they break
    /// a constraint of the store. The id counters continue above every id
    /// and above the number of rows.
    pub fn from_tables(
        accounts: Vec<Account>,
        categories: Vec<Category>,
        transactions: Vec<MoneyTransaction>,
        transfers: Vec<AccountTransfer>,
        currencies: Vec<Currency>,
    ) -> (r: Result<Store, DataStoreError>)
        ensures
            r is Ok <==> loadable(accounts@, categories@, transactions@, transfers@),
            r matches Ok(s) ==> s@.wf() && s@ == (LedgerView {
                accounts: accounts@,
                categories: categories@,
                transactions: transactions@,
                transfers: transfers@,
                currencies: currencies@,
                next_account_id: next_id_after(accounts@.map_values(|a: Account| a.id)),
                next_category_id: next_id_after(categories@.map_values(|c: Category| c.id)),
                next_transaction_id: next_id_after(
                    transactions@.map_values(|t: MoneyTransaction| t.id),
                ),
                next_transfer_id: next_id_after(transfers@.map_values(|t: AccountTransfer| t.id)),
            }),
            r is Err ==> r matches Err(DataStoreError::QueryError(_)),
    {
        let account_ids = ids_of_accounts(&accounts);
        let category_ids = ids_of_categories(&categories);
        let transaction_ids = ids_of_transactions(&transactions);
        let transfer_ids = ids_of_transfers(&transfers);
        let next_account_id = match next_id(&account_ids) {
            Some(n) => n,
            None => {
                return Err(DataStoreError::QueryError("no account id is left".to_string()));
            },
        };
        let next_category_id = match next_id(&category_ids) {
            Some(n) => n,
            None => {
                return Err(DataStoreError::QueryError("no category id is left".to_string()));
            },
        };
        let next_transaction_id = match next_id(&transaction_ids) {
            Some(n) => n,
            None => {
                return Err(DataStoreError::QueryError("no transaction id is left".to_string()));
            },
        };
        let next_transfer_id = match next_id(&transfer_ids) {
            Some(n) => n,
            None => {
                return Err(DataStoreError::QueryError("no transfer id is left".to_string()));
            },
        };
        if !distinct_ids(&account_ids) {
            proof {
                assert(!loadable(accounts@, categories@, transactions@, transfers@)) by {
                    let (p, q) = choose|p: int, q: int|
                        0 <= p < q < account_ids@.len() && account_ids@[p] == account_ids@[q];
                    assert(accounts@[p].id == account_ids@[p]);
                    assert(accounts@[q].id == account_ids@[q]);
                }
            }
            return Err(DataStoreError::QueryError("two accounts share an id".to_string()));
        }
        if !valid_transaction_rows(&transactions) {
            return Err(DataStoreError::QueryError("a transaction breaks a constraint".to_string()));
        }
        if !valid_transfer_rows(&transfers) {
            return Err(DataStoreError::QueryError("a transfer breaks a constraint".to_string()));
        }
        proof {
            lemma_ids_below_next(account_ids@);
            lemma_ids_below_next(category_ids@);
            lemma_ids_below_next(transaction_ids@);
            lemma_ids_below_next(transfer_ids@);
            assert forall|i: int| 0 <= i < accounts@.len() implies #[trigger] accounts@[i].id
                < next_account_id by {
                assert(account_ids@[i] == accounts@[i].id);
            }
            assert forall|i: int| 0 <= i < categories@.len() implies #[trigger] categories@[i].id
                < next_category_id by {
                assert(category_ids@[i] == categories@[i].id);
            }
            assert forall|i: int| 0 <= i < transactions@.len() implies #[trigger] transactions@[i].id
                < next_transaction_id by {
                assert(transaction_ids@[i] == transactions@[i].id);
            }
            assert forall|i: int| 0 <= i < transfers@.len() implies #[trigger] transfers@[i].id
                < next_transfer_id by {
                assert(transfer_ids@[i] == transfers@[i].id);
            }
            assert forall|i: int, j: int| 0 <= i < j < accounts@.len() implies #[trigger] accounts@[i].id
                != #[trigger] accounts@[j].id by {
                assert(account_ids@[i] == accounts@[i].id);
                assert(account_ids@[j] == accounts@[j].id);
            }
        }
        Ok(
            Store {
                accounts,
                categories,
                transactions,
                transfers,
                currencies,
                next_account_id,
                next_category_id,
                next_transaction_id,
                next_transfer_id,
            },
        )
    }

    /// Inserts one account, with the next free id.
    pub fn create_account(&mut self, new_account: &NewAccount) -> (r: Result<(), DataStoreError>)
        requires
            old(self)@.wf(),
        ensures
            final(self)@.wf(),
            final(self)@ == old(self)@.after_create_accounts(seq![*new_account]),
            r is Ok <==> room_for(old(self)@.next_account_id, 1),
            r is Err ==> r matches Err(DataStoreError::InsertError(_)),
    {
        if self.next_account_id == MAX_ID {
            return Err(DataStoreError::InsertError("no account id is left".to_string()));
        }
        let ghost before = self@;
        let a = Account {
            id: self.next_account_id,
            name: new_account.name.clone(),
            initial_balance: new_account.initial_balance,
            account_description: new_account.account_description.clone(),
        };
        self.accounts.push(a);
        self.next_account_id = self.next_account_id + 1;
        proof {
            assert(self@.accounts =~= before.accounts + accounts_from(
                seq![*new_account],
                before.next_account_id,
            ));
        }
        Ok(())
    }

    /// Inserts all of `new_accounts` as one atomic unit, with consecutive ids.
    pub fn create_accounts(&mut self, new_accounts: &Vec<NewAccount>) -> (r: Result<
        (),
        DataStoreError,
    >)
        requires
            old(self)@.wf(),
        ensures
            final(self)@.wf(),
            final(self)@ == old(self)@.after_create_accounts(new_accounts@),
            r is Ok <==> room_for(old(self)@.next_account_id, new_accounts@.len() as int),
            r is Err ==> r matches Err(DataStoreError::InsertError(_)),
    {
        if new_accounts.len() > (MAX_ID - self.next_account_id) as usize {
            return Err(DataStoreError::InsertError("no account id is left".to_string()));
        }
        let ghost before = self@;
        let mut i: usize = 0;
        while i < new_accounts.len()
            invariant
                0 <= i <= new_accounts.len(),
                before.wf(),
                room_for(before.next_account_id, new_accounts@.len() as int),
                self.next_account_id == before.next_account_id + i,
                self@ == (LedgerView {
                    accounts: before.accounts + accounts_from(
                        new_accounts@.take(i as int),
                        before.next_account_id,
                    ),
                    next_account_id: before.next_account_id + i,
                    ..before
                }),
            decreases new_accounts.len() - i,
        {
            let na = &new_accounts[i];
            let a = Account {
                id: self.next_account_id,
                name: na.name.clone(),
                initial_balance: na.initial_balance,
                account_description: na.account_description.clone(),
            };
            self.accounts.push(a);
            self.next_account_id = self.next_account_id + 1;
            i = i + 1;
            proof {
                assert(accounts_from(new_accounts@.take(i as int), before.next_account_id)
                    =~= accounts_from(new_accounts@.take(i - 1), before.next_account_id).push(a));
                assert(self@.accounts =~= before.accounts + accounts_from(
                    new_accounts@.take(i as int),
                    before.next_account_id,
                ));
            }
        }
        proof {
            assert(new_accounts@.take(i as int) =~= new_accounts@);
        }
        Ok(())
    }

    /// Inserts one category, with the next free id.
    pub fn create_category(&mut self, new_category: &NewCategory) -> (r: Result<
        (),
        DataStoreError,
    >)
        requires
            old(self)@.wf(),
        ensures
            final(self)@.wf(),
            final(self)@ == old(self)@.after_create_categories(seq![*new_category]),
            r is Ok <==> room_for(old(self)@.next_category_id, 1),
            r is Err ==> r matches Err(DataStoreError::InsertError(_)),
    {
        if self.next_category_id == MAX_ID {
            return Err(DataStoreError::InsertError("no category id is left".to_string()));
        }
        let ghost before = self@;
        let c = Category {
            id: self.next_category_id,
            name: new_category.name.clone(),
            category_description: new_category.category_description.clone(),
            is_income: new_category.is_income,
        };
        self.categories.push(c);
        self.next_category_id = self.next_category_id + 1;
        proof {
            assert(self@.categories =~= before.categories + categories_from(
                seq![*new_category],
                before.next_category_id,
            ));
        }
        Ok(())
    }

    /// Inserts all of `new_categories` as one atomic unit, with consecutive ids.
    pub fn create_categories(&mut self, new_categories: &Vec<NewCategory>) -> (r: Result<
        (),
        DataStoreError,
    >)
        requires
            old(self)@.wf(),
        ensures
            final(self)@.wf(),
            final(self)@ == old(self)@.after_create_categories(new_categories@),
            r is Ok <==> room_for(old(self)@.next_category_id, new_categories@.len() as int),
            r is Err ==> r matches Err(DataStoreError::InsertError(_)),
    {
        if new_categories.len() > (MAX_ID - self.next_category_id) as usize {
            return Err(DataStoreError::InsertError("no category id is left".to_string()));
        }
        let ghost before = self@;
        let mut i: usize = 0;
        while i < new_categories.len()
            invariant
                0 <= i <= new_categories.len(),
                before.wf(),
                room_for(before.next_category_id, new_categories@.len() as int),
                self.next_category_id == before.next_category_id + i,
                self@ == (LedgerView {
                    categories: before.categories + categories_from(
                        new_categories@.take(i as int),
                        before.next_category_id,
                    ),
                    next_category_id: before.next_category_id + i,
                    ..before
                }),
            decreases new_categories.len() - i,
        {
            let nc = &new_categories[i];
            let c = Category {
                id: self.next_category_id,
                name: nc.name.clone(),
                category_description: nc.category_description.clone(),
                is_income: nc.is_income,
            };
            self.categories.push(c);
            self.next_category_id = self.next_category_id + 1;
            i = i + 1;
            proof {
                assert(categories_from(new_categories@.take(i as int), before.next_category_id)
                    =~= categories_from(new_categories@.take(i - 1), before.next_category_id).push(
                    c,
                ));
                assert(self@.categories =~= before.categories + categories_from(
                    new_categories@.take(i as int),
                    before.next_category_id,
                ));
            }
        }
        proof {
            assert(new_categories@.take(i as int) =~= new_categories@);
        }
        Ok(())
    }

    /// Inserts one money transaction, with the next free id. A negative amount
    /// or a date-time that does not exist is rejected.
    pub fn create_money_transaction(&mut self, new_money_transaction: &NewMoneyTransaction) -> (r:
        Result<(), DataStoreError>)
        requires
            old(self)@.wf(),
        ensures
            final(self)@.wf(),
            final(self)@ == old(self)@.after_create_transactions(seq![*new_money_transaction]),
            r is Ok <==> old(self)@.accepts_transactions(seq![*new_money_transaction]),
            r is Err ==> r matches Err(DataStoreError::InsertError(_)),
    {
        let ghost one = seq![*new_money_transaction];
        if !valid_new_transaction(new_money_transaction) {
            proof {
                assert(!new_transaction_ok(one[0]));
            }
            return Err(DataStoreError::InsertError("the transaction breaks a constraint".to_string()));
        }
        if self.next_transaction_id == MAX_ID {
            return Err(DataStoreError::InsertError("no transaction id is left".to_string()));
        }
        let ghost before = self@;
        let t = new_transaction_row(new_money_transaction, self.next_transaction_id);
        self.transactions.push(t);
        self.next_transaction_id = self.next_transaction_id + 1;
        proof {
            assert(all_new_transactions_ok(one));
            assert(self@.transactions =~= before.transactions + transactions_from(
                one,
                before.next_transaction_id,
            ));
        }
        Ok(())
    }

    /// Inserts all of `new_money_transactions` as one atomic unit, with
    /// consecutive ids: if one of them breaks a constraint, none is inserted.
    pub fn create_money_transactions(&mut self, new_money_transactions: &Vec<NewMoneyTransaction>) -> (r:
        Result<(), DataStoreError>)
        requires
            old(self)@.wf(),
        ensures
            final(self)@.wf(),
            final(self)@ == old(self)@.after_create_transactions(new_money_transactions@),
            r is Ok <==> old(self)@.accepts_transactions(new_money_transactions@),
            r is Err ==> r matches Err(DataStoreError::InsertError(_)),
    {
        let list = new_money_transactions;
        if !valid_new_transactions(list) {
            return Err(DataStoreError::InsertError("a transaction breaks a constraint".to_string()));
        }
        if list.len() > (MAX_ID - self.next_transaction_id) as usize {
            return Err(DataStoreError::InsertError("no transaction id is left".to_string()));
        }
        let ghost before = self@;
        let mut i: usize = 0;
        while i < list.len()
            invariant
                0 <= i <= list.len(),
                before.wf(),
                before.accepts_transactions(list@),
                self.next_transaction_id == before.next_transaction_id + i,
                self@ == (LedgerView {
                    transactions: before.transactions + transactions_from(
                        list@.take(i as int),
                        before.next_transaction_id,
                    ),
                    next_transaction_id: before.next_transaction_id + i,
                    ..before
                }),
            decreases list.len() - i,
        {
            let t = new_transaction_row(&list[i], self.next_transaction_id);
            self.transactions.push(t);
            self.next_transaction_id = self.next_transaction_id + 1;
            i = i + 1;
            proof {
                assert(transactions_from(list@.take(i as int), before.next_transaction_id)
                    =~= transactions_from(list@.take(i - 1), before.next_transaction_id).push(t));
                assert(self@.transactions =~= before.transactions + transactions_from(
                    list@.take(i as int),
                    before.next_transaction_id,
                ));
            }
        }
        proof {
            assert(list@.take(i as int) =~= list@);
        }
        Ok(())
    }

    /// Inserts one transfer, with the next free id. A negative amount or a
    /// date-time that does not exist is rejected.
    pub fn create_account_transfer(&mut self, new_account_transfer: &NewAccountTransfer) -> (r:
        Result<(), DataStoreError>)
        requires
            old(self)@.wf(),
        ensures
            final(self)@.wf(),
            final(self)@ == old(self)@.after_create_transfer(*new_account_transfer),
            r is Ok <==> old(self)@.accepts_transfer(*new_account_transfer),
            r is Err ==> r matches Err(DataStoreError::InsertError(_)),
    {
        let nt = new_account_transfer;
        if nt.amount < 0 || !nt.transfer_date.is_valid() {
            return Err(DataStoreError::InsertError("the transfer breaks a constraint".to_string()));
        }
        if self.next_transfer_id == MAX_ID {
            return Err(DataStoreError::InsertError("no transfer id is left".to_string()));
        }
        let t = AccountTransfer {
            id: self.next_transfer_id,
            from_account: nt.from_account,
            to_account: nt.to_account,
            transfer_date: nt.transfer_date,
            description: match &nt.description {
                Some(d) => Some(d.clone()),
                None => None,
            },
            amount: nt.amount,
        };
        self.transfers.push(t);
        self.next_transfer_id = self.next_transfer_id + 1;
        Ok(())
    }
    /// Overwrites name, description and initial balance of the account with
    /// id `update_account.id`; no account changes if there is none.
    pub fn update_account(&mut self, update_account: &UpdateAccount) -> (r: Result<
        (),
        DataStoreError,
    >)
        requires
            old(self)@.wf(),
        ensures
            final(self)@.wf(),
            final(self)@ == old(self)@.after_update_account(*update_account),
            r is Ok,
    {
        let ghost before = self@;
        let u = update_account;
        let mut i: usize = 0;
        while i < self.accounts.len()
            invariant
                0 <= i <= self.accounts.len(),
                before.wf(),
                self.accounts.len() == before.accounts.len(),
                forall|j: int|
                    0 <= j < i ==> #[trigger] self.accounts@[j] == overwritten_account(
                        before.accounts[j],
                        *u,
                    ),
                forall|j: int|
                    i <= j < self.accounts.len() ==> #[trigger] self.accounts@[j]
                        == before.accounts[j],
                self@ == (LedgerView { accounts: self.accounts@, ..before }),
            decreases self.accounts.len() - i,
        {
            if self.accounts[i].id == u.id {
                let a = Account {
                    id: u.id,
                    name: u.name.clone(),
                    initial_balance: u.initial_balance,
                    account_description: u.account_description.clone(),
                };
                self.accounts.set(i, a);
            }
            i = i + 1;
        }
        proof {
            assert(self.accounts@ =~= before.accounts.map_values(
                |a: Account| overwritten_account(a, *u),
            ));
        }
        Ok(())
    }

    /// Overwrites name, description and kind of the category with id
    /// `update_category.id`; no category changes if there is none.
    pub fn update_category(&mut self, update_category: &UpdateCategory) -> (r: Result<
        (),
        DataStoreError,
    >)
        requires
            old(self)@.wf(),
        ensures
            final(self)@.wf(),
            final(self)@ == old(self)@.after_update_category(*update_category),
            r is Ok,
    {
        let ghost before = self@;
        let u = update_category;
        let mut i: usize = 0;
        while i < self.categories.len()
            invariant
                0 <= i <= self.categories.len(),
                before.wf(),
                self.categories.len() == before.categories.len(),
                forall|j: int|
                    0 <= j < i ==> #[trigger] self.categories@[j] == overwritten_category(
                        before.categories[j],
                        *u,
                    ),
                forall|j: int|
                    i <= j < self.categories.len() ==> #[trigger] self.categories@[j]
                        == before.categories[j],
                self@ == (LedgerView { categories: self.categories@, ..before }),
            decreases self.categories.len() - i,
        {
            if self.categories[i].id == u.id {
                let c = Category {
                    id: u.id,
                    name: u.name.clone(),
                    category_description: u.category_description.clone(),
                    is_income: u.is_income,
                };
                self.categories.set(i, c);
            }
            i = i + 1;
        }
        proof {
            assert(self.categories@ =~= before.categories.map_values(
                |c: Category| overwritten_category(c, *u),
            ));
        }
        Ok(())
    }

    /// Overwrites every field of the money transaction with id
    /// `updated_transaction.id`, as one atomic unit. A negative amount or a
    /// date-time that does not exist is rejected.
    pub fn update_transaction(&mut self, updated_transaction: &UpdateTransaction) -> (r: Result<
        (),
        DataStoreError,
    >)
        requires
            old(self)@.wf(),
        ensures
            final(self)@.wf(),
            final(self)@ == old(self)@.after_update_transaction(*updated_transaction),
            r is Ok <==> old(self)@.accepts_update_transaction(*updated_transaction),
            r is Err ==> r matches Err(DataStoreError::UpdateError(_)),
    {
        let u = updated_transaction;
        if u.amount < 0 || !u.transaction_date.is_valid() {
            return Err(DataStoreError::UpdateError("the transaction breaks a constraint".to_string()));
        }
        let ghost before = self@;
        let mut i: usize = 0;
        while i < self.transactions.len()
            invariant
                0 <= i <= self.transactions.len(),
                before.wf(),
                movement_ok(u.amount, u.transaction_date),
                self.transactions.len() == before.transactions.len(),
                forall|j: int|
                    0 <= j < i ==> #[trigger] self.transactions@[j] == overwritten_transaction(
                        before.transactions[j],
                        *u,
                    ),
                forall|j: int|
                    i <= j < self.transactions.len() ==> #[trigger] self.transactions@[j]
                        == before.transactions[j],
                self@ == (LedgerView { transactions: self.transactions@, ..before }),
            decreases self.transactions.len() - i,
        {
            if self.transactions[i].id == u.id {
                let t = MoneyTransaction {
                    id: u.id,
                    bank_account: u.bank_account,
                    transaction_category: u.transaction_category,
                    description: u.description.clone(),
                    amount: u.amount,
                    transaction_date: u.transaction_date,
                    is_expense: u.is_expense,
                };
                self.transactions.set(i, t);
            }
            i = i + 1;
        }
        proof {
            assert(self.transactions@ =~= before.transactions.map_values(
                |t: MoneyTransaction| overwritten_transaction(t, *u),
            ));
        }
        Ok(())
    }

    /// Deletes the money transaction with id `transaction_id`, as one atomic
    /// unit; nothing changes if there is none.
    pub fn delete_transaction(&mut self, transaction_id: &i32) -> (r: Result<(), DataStoreError>)
        requires
            old(self)@.wf(),
        ensures
            final(self)@.wf(),
            final(self)@ == old(self)@.after_delete_transaction(*transaction_id),
            r is Ok,
    {
        let ghost before = self@;
        let ghost keep = |t: MoneyTransaction| t.id != *transaction_id;
        let mut kept: Vec<MoneyTransaction> = Vec::new();
        let mut i: usize = 0;
        while i < self.transactions.len()
            invariant
                0 <= i <= self.transactions.len(),
                self@ == before,
                before.wf(),
                keep == (|t: MoneyTransaction| t.id != *transaction_id),
                kept.len() <= i,
                kept@ == before.transactions.take(i as int).filter(keep),
                forall|j: int|
                    0 <= j < kept.len() ==> #[trigger] kept@[j].id < before.next_transaction_id
                        && movement_ok(kept@[j].amount, kept@[j].transaction_date),
            decreases self.transactions.len() - i,
        {
            let ghost t0 = self.transactions@[i as int];
            proof {
                assert(before.transactions.take(i + 1) =~= before.transactions.take(
                    i as int,
                ).push(t0));
                before.transactions.take(i as int).lemma_filter_push(t0, keep);
            }
            proof {
                assert(before.transactions[i as int].id < before.next_transaction_id);
                assert(movement_ok(
                    before.transactions[i as int].amount,
                    before.transactions[i as int].transaction_date,
                ));
            }
            let ghost kept0 = kept@;
            if self.transactions[i].id != *transaction_id {
                kept.push(self.transactions[i].duplicate());
                proof {
                    assert(keep(t0));
                    assert(kept@ == kept0.push(t0));
                }
            } else {
                proof {
                    assert(!keep(t0));
                }
            }
            i = i + 1;
        }
        proof {
            assert(before.transactions.take(i as int) =~= before.transactions);
        }
        self.transactions = kept;
        Ok(())
    }

    /// Deletes every account, money transaction and category. Transfers and
    /// currencies stay.
    pub fn drop_all(&mut self) -> (r: Result<(), DataStoreError>)
        requires
            old(self)@.wf(),
        ensures
            final(self)@.wf(),
            final(self)@ == old(self)@.after_drop_all(),
            r is Ok,
    {
        self.accounts = Vec::new();
        self.transactions = Vec::new();
        self.categories = Vec::new();
        self.next_account_id = 1;
        self.next_transaction_id = 1;
        self.next_category_id = 1;
        proof {
            assert(self@.accounts =~= Seq::<Account>::empty());
            assert(self@.categories =~= Seq::<Category>::empty());
            assert(self@.transactions =~= Seq::<MoneyTransaction>::empty());
        }
        Ok(())
    }

    /// All accounts, in storage order.
    pub fn get_accounts(&self) -> (r: Result<Vec<Account>, DataStoreError>)
        ensures
            r matches Ok(v) && v@ == self@.accounts,
    {
        let mut out: Vec<Account> = Vec::new();
        let mut i: usize = 0;
        while i < self.accounts.len()
            invariant
                0 <= i <= self.accounts.len(),
                out@ == self.accounts@.take(i as int),
            decreases self.accounts.len() - i,
        {
            out.push(self.accounts[i].duplicate());
            i = i + 1;
            proof {
                assert(out@ =~= self.accounts@.take(i as int));
            }
        }
        proof {
            assert(self.accounts@.take(i as int) =~= self.accounts@);
        }
        Ok(out)
    }

    /// All categories, in storage order.
    pub fn get_categories(&self) -> (r: Result<Vec<Category>, DataStoreError>)
        ensures
            r matches Ok(v) && v@ == self@.categories,
    {
        let mut out: Vec<Category> = Vec::new();
        let mut i: usize = 0;
        while i < self.categories.len()
            invariant
                0 <= i <= self.categories.len(),
                out@ == self.categories@.take(i as int),
            decreases self.categories.len() - i,
        {
            out.push(self.categories[i].duplicate());
            i = i + 1;
            proof {
                assert(out@ =~= self.categories@.take(i as int));
            }
        }
        proof {
            assert(self.categories@.take(i as int) =~= self.categories@);
        }
        Ok(out)
    }

    /// All transfers, in storage order.
    pub fn get_transfers(&self) -> (r: Result<Vec<AccountTransfer>, DataStoreError>)
        ensures
            r matches Ok(v) && v@ == self@.transfers,
    {
        let mut out: Vec<AccountTransfer> = Vec::new();
        let mut i: usize = 0;
        while i < self.transfers.len()
            invariant
                0 <= i <= self.transfers.len(),
                out@ == self.transfers@.take(i as int),
            decreases self.transfers.len() - i,
        {
            out.push(self.transfers[i].duplicate());
            i = i + 1;
            proof {
                assert(out@ =~= self.transfers@.take(i as int));
            }
        }
        proof {
            assert(self.transfers@.take(i as int) =~= self.transfers@);
        }
        Ok(out)
    }

    /// All currencies of the reference table.
    pub fn get_currencies(&self) -> (r: Result<Vec<Currency>, DataStoreError>)
        ensures
            r matches Ok(v) && v@ == self@.currencies,
    {
        let mut out: Vec<Currency> = Vec::new();
        let mut i: usize = 0;
        while i < self.currencies.len()
            invariant
                0 <= i <= self.currencies.len(),
                out@ == self.currencies@.take(i as int),
            decreases self.currencies.len() - i,
        {
            out.push(self.currencies[i].duplicate());
            i = i + 1;
            proof {
                assert(out@ =~= self.currencies@.take(i as int));
            }
        }
        proof {
            assert(self.currencies@.take(i as int) =~= self.currencies@);
        }
        Ok(out)
    }

    /// The symbol of the currency with id `currency_id`; a query error if
    /// there is none.
    pub fn get_currency_symbol_by_id(&self, currency_id: i32) -> (r: Result<
        String,
        DataStoreError,
    >)
        ensures
            match currency_by_id(self@.currencies, currency_id) {
                Some(c) => r == Ok::<String, DataStoreError>(c.symbol),
                None => r matches Err(DataStoreError::QueryError(_)),
            },
    {
        let mut i: usize = 0;
        proof {
            assert(self.currencies@.skip(0) =~= self.currencies@);
        }
        while i < self.currencies.len()
            invariant
                0 <= i <= self.currencies.len(),
                currency_by_id(self.currencies@.skip(i as int), currency_id) == currency_by_id(
                    self.currencies@,
                    currency_id,
                ),
            decreases self.currencies.len() - i,
        {
            proof {
                assert(self.currencies@.skip(i as int).drop_first() =~= self.currencies@.skip(
                    i + 1,
                ));
            }
            if self.currencies[i].id == currency_id {
                return Ok(self.currencies[i].symbol.clone());
            }
            i = i + 1;
        }
        Err(DataStoreError::QueryError("no currency has this id".to_string()))
    }
    /// Initial balance of the first account with id `account_id`, 0 if there
    /// is none.
    fn initial_balance(&self, account_id: i32) -> (r: i64)
        ensures
            r as int == initial_balance_of(self@.accounts, account_id),
    {
        let mut i: usize = 0;
        proof {
            assert(self.accounts@.skip(0) =~= self.accounts@);
        }
        while i < self.accounts.len()
            invariant
                0 <= i <= self.accounts.len(),
                initial_balance_of(self.accounts@.skip(i as int), account_id) == initial_balance_of(
                    self.accounts@,
                    account_id,
                ),
            decreases self.accounts.len() - i,
        {
            proof {
                assert(self.accounts@.skip(i as int).drop_first() =~= self.accounts@.skip(i + 1));
                assert(self.accounts@.skip(i as int)[0] == self.accounts@[i as int]);
            }
            if self.accounts[i].id == account_id {
                return self.accounts[i].initial_balance;
            }
            i = i + 1;
        }
        0
    }

    /// The index of the first account with id `account_id`.
    fn account_index(&self, account_id: i32) -> (r: Option<usize>)
        ensures
            match r {
                Some(i) => i < self@.accounts.len() && self@.accounts[i as int].id == account_id
                    && initial_balance_of(self@.accounts, account_id)
                    == self@.accounts[i as int].initial_balance,
                None => !has_account(self@.accounts, account_id) && initial_balance_of(
                    self@.accounts,
                    account_id,
                ) == 0,
            },
    {
        let mut i: usize = 0;
        proof {
            assert(self.accounts@.skip(0) =~= self.accounts@);
        }
        while i < self.accounts.len()
            invariant
                0 <= i <= self.accounts.len(),
                initial_balance_of(self.accounts@.skip(i as int), account_id) == initial_balance_of(
                    self.accounts@,
                    account_id,
                ),
                forall|j: int| 0 <= j < i ==> #[trigger] self.accounts@[j].id != account_id,
            decreases self.accounts.len() - i,
        {
            proof {
                assert(self.accounts@.skip(i as int).drop_first() =~= self.accounts@.skip(i + 1));
                assert(self.accounts@.skip(i as int)[0] == self.accounts@[i as int]);
            }
            if self.accounts[i].id == account_id {
                return Some(i);
            }
            i = i + 1;
        }
        proof {
            assert(self.accounts@.skip(i as int).len() == 0);
        }
        None
    }

    /// Sets the derived balance of account `account_id` to `new_balance`, and
    /// its name and description, by moving its initial balance by the
    /// difference between `new_balance` and its current balance. Every
    /// movement on the account is kept.
    pub fn edit_account_balance(
        &mut self,
        account_id: i32,
        name: String,
        account_description: String,
        new_balance: i128,
    ) -> (r: Result<(), DataStoreError>)
        requires
            old(self)@.wf(),
        ensures
            final(self)@.wf(),
            r is Ok <==> old(self)@.accepts_balance_edit(account_id, new_balance as int),
            r is Ok ==> final(self)@ == old(self)@.after_update_account(
                UpdateAccount {
                    id: account_id,
                    name,
                    initial_balance: old(self)@.edited_initial_balance(
                        account_id,
                        new_balance as int,
                    ) as i64,
                    account_description,
                },
            ),
            r is Err ==> final(self)@ == old(self)@ && r matches Err(
                DataStoreError::UpdateError(_),
            ),
    {
        let index = match self.account_index(account_id) {
            Some(i) => i,
            None => {
                return Err(DataStoreError::UpdateError("no account has this id".to_string()));
            },
        };
        let current = match self.get_account_balance(account_id) {
            Ok(b) => b,
            Err(_) => {
                return Err(DataStoreError::UpdateError("the balance cannot be read".to_string()));
            },
        };
        let initial = self.accounts[index].initial_balance as i128;
        let adjusted = match new_balance.checked_sub(current) {
            Some(delta) => match initial.checked_add(delta) {
                Some(a) => a,
                None => {
                    return Err(DataStoreError::UpdateError("the balance is out of range".to_string()));
                },
            },
            None => {
                return Err(DataStoreError::UpdateError("the balance is out of range".to_string()));
            },
        };
        if adjusted < i64::MIN as i128 || adjusted > i64::MAX as i128 {
            return Err(DataStoreError::UpdateError("the balance is out of range".to_string()));
        }
        let update = UpdateAccount {
            id: account_id,
            name,
            initial_balance: adjusted as i64,
            account_description,
        };
        self.update_account(&update)
    }

    /// The derived balance of account `account_id`: its initial balance (0 if
    /// there is no such account), plus its incomes, minus its expenses, plus
    /// the transfers to it, minus the transfers from it.
    pub fn get_account_balance(&self, account_id: i32) -> (r: Result<i128, DataStoreError>)
        requires
            self@.wf(),
        ensures
            r matches Ok(b) && b as int == self@.balance_of(account_id),
    {
        let mut total: i128 = self.initial_balance(account_id) as i128;
        let ghost init = total as int;
        let mut k: usize = 0;
        while k < self.transactions.len()
            invariant
                0 <= k <= self.transactions.len(),
                self@.wf(),
                -amount_bound() <= init <= amount_bound(),
                total == init + transactions_effect(self.transactions@.take(k as int), account_id),
                -(k as int) * amount_bound() <= transactions_effect(
                    self.transactions@.take(k as int),
                    account_id,
                ) <= (k as int) * amount_bound(),
            decreases self.transactions.len() - k,
        {
            let t = &self.transactions[k];
            proof {
                assert(self.transactions@.take(k + 1).drop_last() =~= self.transactions@.take(
                    k as int,
                ));
                assert(movement_ok(t.amount, t.transaction_date));
            }
            if t.bank_account == account_id {
                if t.is_expense {
                    total = total - t.amount as i128;
                } else {
                    total = total + t.amount as i128;
                }
            }
            k = k + 1;
        }
        let ghost after_transactions = total as int;
        let mut m: usize = 0;
        while m < self.transfers.len()
            invariant
                0 <= m <= self.transfers.len(),
                self@.wf(),
                -amount_bound() - self.transactions.len() * amount_bound() <= after_transactions
                    <= amount_bound() + self.transactions.len() * amount_bound(),
                total == after_transactions + transfers_effect(
                    self.transfers@.take(m as int),
                    account_id,
                ),
                -(m as int) * amount_bound() <= transfers_effect(
                    self.transfers@.take(m as int),
                    account_id,
                ) <= (m as int) * amount_bound(),
            decreases self.transfers.len() - m,
        {
            let t = &self.transfers[m];
            proof {
                assert(self.transfers@.take(m + 1).drop_last() =~= self.transfers@.take(
                    m as int,
                ));
                assert(movement_ok(t.amount, t.transfer_date));
            }
            if t.from_account == account_id {
                total = total - t.amount as i128;
            }
            if t.to_account == account_id {
                total = total + t.amount as i128;
            }
            m = m + 1;
        }
        proof {
            assert(self.transactions@.take(k as int) =~= self.transactions@);
            assert(self.transfers@.take(m as int) =~= self.transfers@);
        }
        Ok(total)
    }

    fn category_sum(&self, category_id: i32, start_date: &Date, end_date: &Date, expense: bool) -> (r:
        i128)
        requires
            self@.wf(),
        ensures
            r as int == category_total(
                self@.transactions,
                category_id,
                expense,
                *start_date,
                *end_date,
            ),
    {
        let mut total: i128 = 0;
        let mut k: usize = 0;
        while k < self.transactions.len()
            invariant
                0 <= k <= self.transactions.len(),
                self@.wf(),
                total == category_total(
                    self.transactions@.take(k as int),
                    category_id,
                    expense,
                    *start_date,
                    *end_date,
                ),
                0 <= total <= (k as int) * amount_bound(),
            decreases self.transactions.len() - k,
        {
            let t = &self.transactions[k];
            proof {
                assert(self.transactions@.take(k + 1).drop_last() =~= self.transactions@.take(
                    k as int,
                ));
                assert(movement_ok(t.amount, t.transaction_date));
            }
            if t.transaction_category == category_id && t.is_expense == expense
                && is_in_day_range(&t.transaction_date, start_date, end_date) {
                total = total + t.amount as i128;
            }
            k = k + 1;
        }
        proof {
            assert(self.transactions@.take(k as int) =~= self.transactions@);
        }
        total
    }

    /// The sum of the expenses of category `category_id` dated from
    /// `start_date` at 00:00:00 to `end_date` at 23:59:59; 0 if there is none.
    pub fn calculate_expense_by_category(
        &self,
        category_id: i32,
        start_date: &Date,
        end_date: &Date,
    ) -> (r: Result<i128, DataStoreError>)
        requires
            self@.wf(),
        ensures
            r matches Ok(v) && v as int == category_total(
                self@.transactions,
                category_id,
                true,
                *start_date,
                *end_date,
            ),
    {
        Ok(self.category_sum(category_id, start_date, end_date, true))
    }

    /// The sum of the incomes of category `category_id` dated from
    /// `start_date` at 00:00:00 to `end_date` at 23:59:59; 0 if there is none.
    pub fn calculate_income_by_category(
        &self,
        category_id: i32,
        start_date: &Date,
        end_date: &Date,
    ) -> (r: Result<i128, DataStoreError>)
        requires
            self@.wf(),
        ensures
            r matches Ok(v) && v as int == category_total(
                self@.transactions,
                category_id,
                false,
                *start_date,
                *end_date,
            ),
    {
        Ok(self.category_sum(category_id, start_date, end_date, false))
    }

    /// All money transactions, most recent first.
    pub fn get_money_transactions(&self) -> (r: Result<Vec<MoneyTransaction>, DataStoreError>)
        ensures
            r matches Ok(v) && v@.to_multiset() == self@.transactions.to_multiset()
                && transactions_by_date_desc(v@),
    {
        broadcast use vstd::seq_lib::group_to_multiset_ensures;

        let mut out: Vec<MoneyTransaction> = Vec::new();
        let mut i: usize = 0;
        while i < self.transactions.len()
            invariant
                0 <= i <= self.transactions.len(),
                out@.to_multiset() == self.transactions@.take(i as int).to_multiset(),
                transactions_by_date_desc(out@),
            decreases self.transactions.len() - i,
        {
            proof {
                assert(self.transactions@.take(i + 1) =~= self.transactions@.take(i as int).push(
                    self.transactions@[i as int],
                ));
            }
            proof {
                vstd::seq_lib::to_multiset_build(
                    self.transactions@.take(i as int),
                    self.transactions@[i as int],
                );
            }
            insert_transaction_by_date(&mut out, self.transactions[i].duplicate());
            i = i + 1;
        }
        proof {
            assert(self.transactions@.take(i as int) =~= self.transactions@);
        }
        Ok(out)
    }

    /// The money transactions dated from `start_date` at 00:00:00 to
    /// `end_date` at 23:59:59, both included, most recent first.
    pub fn get_money_transactions_date_range(&self, start_date: &Date, end_date: &Date) -> (r:
        Result<Vec<MoneyTransaction>, DataStoreError>)
        ensures
            r matches Ok(v) && v@.to_multiset() == transactions_in_range(
                self@.transactions,
                *start_date,
                *end_date,
            ).to_multiset() && transactions_by_date_desc(v@),
    {
        broadcast use vstd::seq_lib::group_to_multiset_ensures;

        let ghost pred = |t: MoneyTransaction| in_day_range(t.transaction_date, *start_date, *end_date);
        let mut out: Vec<MoneyTransaction> = Vec::new();
        let mut i: usize = 0;
        while i < self.transactions.len()
            invariant
                0 <= i <= self.transactions.len(),
                pred == (|t: MoneyTransaction| in_day_range(t.transaction_date, *start_date, *end_date)),
                out@.to_multiset() == self.transactions@.take(i as int).filter(pred).to_multiset(),
                transactions_by_date_desc(out@),
            decreases self.transactions.len() - i,
        {
            let ghost t0 = self.transactions@[i as int];
            proof {
                assert(self.transactions@.take(i + 1) =~= self.transactions@.take(i as int).push(
                    t0,
                ));
                self.transactions@.take(i as int).lemma_filter_push(t0, pred);
                vstd::seq_lib::to_multiset_build(self.transactions@.take(i as int).filter(pred), t0);
            }
            if is_in_day_range(&self.transactions[i].transaction_date, start_date, end_date) {
                insert_transaction_by_date(&mut out, self.transactions[i].duplicate());
            }
            i = i + 1;
        }
        proof {
            assert(self.transactions@.take(i as int) =~= self.transactions@);
        }
        Ok(out)
    }

    /// The transfers dated from `start_date` at 00:00:00 to `end_date` at
    /// 23:59:59, both included, most recent first.
    pub fn get_transfers_date_range(&self, start_date: &Date, end_date: &Date) -> (r: Result<
        Vec<AccountTransfer>,
        DataStoreError,
    >)
        ensures
            r matches Ok(v) && v@.to_multiset() == transfers_in_range(
                self@.transfers,
                *start_date,
                *end_date,
            ).to_multiset() && transfers_by_date_desc(v@),
    {
        broadcast use vstd::seq_lib::group_to_multiset_ensures;

        let ghost pred = |t: AccountTransfer| in_day_range(t.transfer_date, *start_date, *end_date);
        let mut out: Vec<AccountTransfer> = Vec::new();
        let mut i: usize = 0;
        while i < self.transfers.len()
            invariant
                0 <= i <= self.transfers.len(),
                pred == (|t: AccountTransfer| in_day_range(t.transfer_date, *start_date, *end_date)),
                out@.to_multiset() == self.transfers@.take(i as int).filter(pred).to_multiset(),
                transfers_by_date_desc(out@),
            decreases self.transfers.len() - i,
        {
            let ghost t0 = self.transfers@[i as int];
            proof {
                assert(self.transfers@.take(i + 1) =~= self.transfers@.take(i as int).push(t0));
                self.transfers@.take(i as int).lemma_filter_push(t0, pred);
                vstd::seq_lib::to_multiset_build(self.transfers@.take(i as int).filter(pred), t0);
            }
            if is_in_day_range(&self.transfers[i].transfer_date, start_date, end_date) {
                insert_transfer_by_date(&mut out, self.transfers[i].duplicate());
            }
            i = i + 1;
        }
        proof {
            assert(self.transfers@.take(i as int) =~= self.transfers@);
        }
        Ok(out)
    }
}

/// Inserts `t` into `out`, kept most recent first, after the transactions
/// that are not older than it.
fn insert_transaction_by_date(out: &mut Vec<MoneyTransaction>, t: MoneyTransaction)
    requires
        transactions_by_date_desc(old(out)@),
    ensures
        transactions_by_date_desc(final(out)@),
        final(out)@.to_multiset() == old(out)@.to_multiset().insert(t),
{
    broadcast use vstd::seq_lib::group_to_multiset_ensures;

    let k = datetime_ordinal(&t.transaction_date);
    let mut pos: usize = 0;
    while pos < out.len() && datetime_ordinal(&out[pos].transaction_date) >= k
        invariant
            0 <= pos <= out.len(),
            out@ == old(out)@,
            transactions_by_date_desc(out@),
            forall|j: int|
                0 <= j < pos ==> datetime_key(#[trigger] out@[j].transaction_date) >= k,
        decreases out.len() - pos,
    {
        pos = pos + 1;
    }
    let ghost before = out@;
    out.insert(pos, t);
    proof {
        assert forall|i: int, j: int| 0 <= i < j < out@.len() implies datetime_key(
            #[trigger] out@[i].transaction_date,
        ) >= datetime_key(#[trigger] out@[j].transaction_date) by {
            if j < pos {
            } else if j == pos {
            } else if i < pos {
                assert(datetime_key(before[j - 1].transaction_date) <= datetime_key(
                    before[pos as int].transaction_date,
                ));
            } else if i == pos {
                assert(datetime_key(before[j - 1].transaction_date) <= datetime_key(
                    before[pos as int].transaction_date,
                ));
            } else {
                assert(before[i - 1] == out@[i]);
                assert(before[j - 1] == out@[j]);
            }
        }
    }
}

/// Inserts `t` into `out`, kept most recent first, after the transfers that
/// are not older than it.
fn insert_transfer_by_date(out: &mut Vec<AccountTransfer>, t: AccountTransfer)
    requires
        transfers_by_date_desc(old(out)@),
    ensures
        transfers_by_date_desc(final(out)@),
        final(out)@.to_multiset() == old(out)@.to_multiset().insert(t),
{
    broadcast use vstd::seq_lib::group_to_multiset_ensures;

    let k = datetime_ordinal(&t.transfer_date);
    let mut pos: usize = 0;
    while pos < out.len() && datetime_ordinal(&out[pos].transfer_date) >= k
        invariant
            0 <= pos <= out.len(),
            out@ == old(out)@,
            transfers_by_date_desc(out@),
            forall|j: int| 0 <= j < pos ==> datetime_key(#[trigger] out@[j].transfer_date) >= k,
        decreases out.len() - pos,
    {
        pos = pos + 1;
    }
    let ghost before = out@;
    out.insert(pos, t);
    proof {
        assert forall|i: int, j: int| 0 <= i < j < out@.len() implies datetime_key(
            #[trigger] out@[i].transfer_date,
        ) >= datetime_key(#[trigger] out@[j].transfer_date) by {
            if j < pos {
            } else if j == pos {
            } else if i < pos {
                assert(datetime_key(before[j - 1].transfer_date) <= datetime_key(
                    before[pos as int].transfer_date,
                ));
            } else if i == pos {
                assert(datetime_key(before[j - 1].transfer_date) <= datetime_key(
                    before[pos as int].transfer_date,
                ));
            } else {
                assert(before[i - 1] == out@[i]);
                assert(before[j - 1] == out@[j]);
            }
        }
    }
}

impl Default for Store {
    /// An empty ledger with an empty currency table.
    fn default() -> (r: Store)
        ensures
            r@.wf(),
            r@.accounts.len() == 0,
            r@.categories.len() == 0,
            r@.transactions.len() == 0,
            r@.transfers.len() == 0,
            r@.currencies.len() == 0,
    {
        Store::new(Vec::new())
    }
}

proof fn lemma_max_id_bounds(ids: Seq<i32>)
    ensures
        forall|i: int| 0 <= i < ids.len() ==> #[trigger] ids[i] <= max_id(ids),
        0 <= max_id(ids),
    decreases ids.len(),
{
    if ids.len() > 0 {
        lemma_max_id_bounds(ids.drop_last());
        assert forall|i: int| 0 <= i < ids.len() implies #[trigger] ids[i] <= max_id(ids) by {
            if i < ids.len() - 1 {
                assert(ids.drop_last()[i] == ids[i]);
            }
        }
    }
}

proof fn lemma_ids_below_next(ids: Seq<i32>)
    ensures
        forall|i: int| 0 <= i < ids.len() ==> #[trigger] ids[i] < next_id_after(ids),
        ids.len() < next_id_after(ids),
        1 <= next_id_after(ids),
{
    lemma_max_id_bounds(ids);
}

/// `next_id_after(ids)`, where it lies in the id space.
fn next_id(ids: &Vec<i32>) -> (r: Option<i32>)
    ensures
        match r {
            Some(n) => n as int == next_id_after(ids@) && next_id_after(ids@) <= MAX_ID,
            None => next_id_after(ids@) > MAX_ID,
        },
{
    let mut m: i64 = 0;
    let mut i: usize = 0;
    while i < ids.len()
        invariant
            0 <= i <= ids.len(),
            m as int == max_id(ids@.take(i as int)),
            0 <= m <= i32::MAX,
        decreases ids.len() - i,
    {
        proof {
            assert(ids@.take(i + 1).drop_last() =~= ids@.take(i as int));
            assert(ids@.take(i + 1).last() == ids@[i as int]);
            lemma_max_id_bounds(ids@.take(i as int));
        }
        if ids[i] as i64 > m {
            m = ids[i] as i64;
        }
        i = i + 1;
    }
    proof {
        assert(ids@.take(i as int) =~= ids@);
    }
    if ids.len() >= MAX_ID as usize {
        return None;
    }
    let n: i64 = if m > ids.len() as i64 {
        m + 1
    } else {
        ids.len() as i64 + 1
    };
    if n > MAX_ID as i64 {
        None
    } else {
        Some(n as i32)
    }
}

/// Whether the ids are pairwise distinct.
fn distinct_ids(ids: &Vec<i32>) -> (r: bool)
    ensures
        r == (forall|p: int, q: int| 0 <= p < q < ids@.len() ==> ids@[p] != ids@[q]),
{
    let mut q: usize = 0;
    while q < ids.len()
        invariant
            0 <= q <= ids.len(),
            forall|a: int, b: int| 0 <= a < b < q ==> ids@[a] != ids@[b],
        decreases ids.len() - q,
    {
        let mut p: usize = 0;
        while p < q
            invariant
                0 <= p <= q < ids.len(),
                forall|a: int, b: int| 0 <= a < b < q ==> ids@[a] != ids@[b],
                forall|a: int| 0 <= a < p ==> ids@[a] != ids@[q as int],
            decreases q - p,
        {
            if ids[p] == ids[q] {
                return false;
            }
            p = p + 1;
        }
        q = q + 1;
    }
    true
}

fn ids_of_accounts(rows: &Vec<Account>) -> (r: Vec<i32>)
    ensures
        r@ == rows@.map_values(|a: Account| a.id),
{
    let mut out: Vec<i32> = Vec::new();
    let mut i: usize = 0;
    while i < rows.len()
        invariant
            0 <= i <= rows.len(),
            out@ == rows@.take(i as int).map_values(|a: Account| a.id),
        decreases rows.len() - i,
    {
        out.push(rows[i].id);
        i = i + 1;
        proof {
            assert(out@ =~= rows@.take(i as int).map_values(|a: Account| a.id));
        }
    }
    proof {
        assert(rows@.take(i as int) =~= rows@);
    }
    out
}

fn ids_of_categories(rows: &Vec<Category>) -> (r: Vec<i32>)
    ensures
        r@ == rows@.map_values(|c: Category| c.id),
{
    let mut out: Vec<i32> = Vec::new();
    let mut i: usize = 0;
    while i < rows.len()
        invariant
            0 <= i <= rows.len(),
            out@ == rows@.take(i as int).map_values(|c: Category| c.id),
        decreases rows.len() - i,
    {
        out.push(rows[i].id);
        i = i + 1;
        proof {
            assert(out@ =~= rows@.take(i as int).map_values(|c: Category| c.id));
        }
    }
    proof {
        assert(rows@.take(i as int) =~= rows@);
    }
    out
}

fn ids_of_transactions(rows: &Vec<MoneyTransaction>) -> (r: Vec<i32>)
    ensures
        r@ == rows@.map_values(|t: MoneyTransaction| t.id),
{
    let mut out: Vec<i32> = Vec::new();
    let mut i: usize = 0;
    while i < rows.len()
        invariant
            0 <= i <= rows.len(),
            out@ == rows@.take(i as int).map_values(|t: MoneyTransaction| t.id),
        decreases rows.len() - i,
    {
        out.push(rows[i].id);
        i = i + 1;
        proof {
            assert(out@ =~= rows@.take(i as int).map_values(|t: MoneyTransaction| t.id));
        }
    }
    proof {
        assert(rows@.take(i as int) =~= rows@);
    }
    out
}

fn ids_of_transfers(rows: &Vec<AccountTransfer>) -> (r: Vec<i32>)
    ensures
        r@ == rows@.map_values(|t: AccountTransfer| t.id),
{
    let mut out: Vec<i32> = Vec::new();
    let mut i: usize = 0;
    while i < rows.len()
        invariant
            0 <= i <= rows.len(),
            out@ == rows@.take(i as int).map_values(|t: AccountTransfer| t.id),
        decreases rows.len() - i,
    {
        out.push(rows[i].id);
        i = i + 1;
        proof {
            assert(out@ =~= rows@.take(i as int).map_values(|t: AccountTransfer| t.id));
        }
    }
    proof {
        assert(rows@.take(i as int) =~= rows@);
    }
    out
}

fn valid_transaction_rows(rows: &Vec<MoneyTransaction>) -> (r: bool)
    ensures
        r == (forall|i: int|
            0 <= i < rows@.len() ==> movement_ok(
                #[trigger] rows@[i].amount,
                rows@[i].transaction_date,
            )),
{
    let mut k: usize = 0;
    while k < rows.len()
        invariant
            0 <= k <= rows.len(),
            forall|j: int|
                0 <= j < k ==> movement_ok(#[trigger] rows@[j].amount, rows@[j].transaction_date),
        decreases rows.len() - k,
    {
        if rows[k].amount < 0 || !rows[k].transaction_date.is_valid() {
            return false;
        }
        k = k + 1;
    }
    true
}

fn valid_transfer_rows(rows: &Vec<AccountTransfer>) -> (r: bool)
    ensures
        r == (forall|i: int|
            0 <= i < rows@.len() ==> movement_ok(#[trigger] rows@[i].amount, rows@[i].transfer_date)),
{
    let mut k: usize = 0;
    while k < rows.len()
        invariant
            0 <= k <= rows.len(),
            forall|j: int|
                0 <= j < k ==> movement_ok(#[trigger] rows@[j].amount, rows@[j].transfer_date),
        decreases rows.len() - k,
    {
        if rows[k].amount < 0 || !rows[k].transfer_date.is_valid() {
            return false;
        }
        k = k + 1;
    }
    true
}

fn valid_new_transaction(t: &NewMoneyTransaction) -> (r: bool)
    ensures
        r == new_transaction_ok(*t),
{
    t.amount >= 0 && t.transaction_date.is_valid()
}

fn valid_new_transactions(list: &Vec<NewMoneyTransaction>) -> (r: bool)
    ensures
        r == all_new_transactions_ok(list@),
{
    let mut k: usize = 0;
    while k < list.len()
        invariant
            0 <= k <= list.len(),
            forall|j: int| 0 <= j < k ==> new_transaction_ok(#[trigger] list@[j]),
        decreases list.len() - k,
    {
        if !valid_new_transaction(&list[k]) {
            proof {
                assert(!new_transaction_ok(list@[k as int]));
            }
            return false;
        }
        k = k + 1;
    }
    true
}

fn new_transaction_row(t: &NewMoneyTransaction, id: i32) -> (r: MoneyTransaction)
    ensures
        r == transaction_with_id(*t, id),
{
    MoneyTransaction {
        id,
        bank_account: t.bank_account,
        transaction_category: t.transaction_category,
        description: t.description.clone(),
        amount: t.amount,
        transaction_date: t.transaction_date,
        is_expense: t.is_expense,
    }
}

} // verus!
