//! The ledger's records and the projections used to create and update them.
//!
//! Amounts are integers in minor currency units (cents for most currencies).

use crate::dates::DateTime;
use vstd::prelude::*;

verus! {

/// A bank account. Its balance is derived from `initial_balance` and the
/// movements that touch it.
#[derive(Clone, Debug, PartialEq, Eq)]
pub struct Account {
    pub id: i32,
    pub name: String,
    pub initial_balance: i64,
    pub account_description: String,
}

/// The fields of an account that its creator chooses.
#[derive(Clone, Debug, PartialEq, Eq)]
pub struct NewAccount {
    pub name: String,
    pub initial_balance: i64,
    pub account_description: String,
}

/// A full overwrite of the account with id `id`.
#[derive(Clone, Debug, PartialEq, Eq)]
pub struct UpdateAccount {
    pub id: i32,
    pub name: String,
    pub initial_balance: i64,
    pub account_description: String,
}

/// A category: either an income or an expense category.
#[derive(Clone, Debug, PartialEq, Eq)]
pub struct Category {
    pub id: i32,
    pub name: String,
    pub category_description: String,
    pub is_income: bool,
}

/// The fields of a category that its creator chooses.
#[derive(Clone, Debug, PartialEq, Eq)]
pub struct NewCategory {
    pub name: String,
    pub is_income: bool,
    pub category_description: String,
}

/// A full overwrite of the category with id `id`.
#[derive(Clone, Debug, PartialEq, Eq)]
pub struct UpdateCategory {
    pub id: i32,
    pub name: String,
    pub is_income: bool,
    pub category_description: String,
}

/// A movement of money on one account: `-amount` if `is_expense`, else
/// `+amount`.
#[derive(Clone, Debug, PartialEq, Eq)]
pub struct MoneyTransaction {
    pub id: i32,
    pub bank_account: i32,
    pub transaction_category: i32,
    pub description: String,
    pub amount: i64,
    pub transaction_date: DateTime,
    pub is_expense: bool,
}

/// The fields of a money transaction that its creator chooses.
#[derive(Clone, Debug, PartialEq, Eq)]
pub struct NewMoneyTransaction {
    pub bank_account: i32,
    pub transaction_category: i32,
    pub description: String,
    pub amount: i64,
    pub transaction_date: DateTime,
    pub is_expense: bool,
}

/// A full overwrite of the money transaction with id `id`.
#[derive(Clone, Debug, PartialEq, Eq)]
pub struct UpdateTransaction {
    pub id: i32,
    pub bank_account: i32,
    pub transaction_category: i32,
    pub description: String,
    pub amount: i64,
    pub transaction_date: DateTime,
    pub is_expense: bool,
}

/// A movement of `amount` from one account to another.
#[derive(Clone, Debug, PartialEq, Eq)]
pub struct AccountTransfer {
    pub id: i32,
    pub from_account: i32,
    pub to_account: i32,
    pub transfer_date: DateTime,
    pub description: Option<String>,
    pub amount: i64,
}

/// The fields of a transfer that its creator chooses.
#[derive(Clone, Debug, PartialEq, Eq)]
pub struct NewAccountTransfer {
    pub from_account: i32,
    pub to_account: i32,
    pub transfer_date: DateTime,
    pub description: Option<String>,
    pub amount: i64,
}

/// A currency of the reference table.
#[derive(Clone, Debug, PartialEq, Eq)]
pub struct Currency {
    pub id: i32,
    pub label: String,
    pub symbol: String,
}

pub open spec fn new_account_of(a: Account) -> NewAccount {
    NewAccount {
        name: a.name,
        initial_balance: a.initial_balance,
        account_description: a.account_description,
    }
}

pub open spec fn new_category_of(c: Category) -> NewCategory {
    NewCategory { name: c.name, is_income: c.is_income, category_description: c.category_description }
}

pub open spec fn new_transaction_of(t: MoneyTransaction) -> NewMoneyTransaction {
    NewMoneyTransaction {
        bank_account: t.bank_account,
        transaction_category: t.transaction_category,
        description: t.description,
        amount: t.amount,
        transaction_date: t.transaction_date,
        is_expense: t.is_expense,
    }
}

pub open spec fn account_with_id(a: NewAccount, id: i32) -> Account {
    Account {
        id,
        name: a.name,
        initial_balance: a.initial_balance,
        account_description: a.account_description,
    }
}

pub open spec fn category_with_id(c: NewCategory, id: i32) -> Category {
    Category {
        id,
        name: c.name,
        category_description: c.category_description,
        is_income: c.is_income,
    }
}

pub open spec fn transaction_with_id(t: NewMoneyTransaction, id: i32) -> MoneyTransaction {
    MoneyTransaction {
        id,
        bank_account: t.bank_account,
        transaction_category: t.transaction_category,
        description: t.description,
        amount: t.amount,
        transaction_date: t.transaction_date,
        is_expense: t.is_expense,
    }
}

pub open spec fn transfer_with_id(t: NewAccountTransfer, id: i32) -> AccountTransfer {
    AccountTransfer {
        id,
        from_account: t.from_account,
        to_account: t.to_account,
        transfer_date: t.transfer_date,
        description: t.description,
        amount: t.amount,
    }
}

fn copy_text(s: &Option<String>) -> (r: Option<String>)
    ensures
        r == *s,
{
    match s {
        Some(t) => Some(t.clone()),
        None => None,
    }
}

impl Account {
    /// A field-by-field copy.
    pub fn duplicate(&self) -> (r: Account)
        ensures
            r == *self,
    {
        Account {
            id: self.id,
            name: self.name.clone(),
            initial_balance: self.initial_balance,
            account_description: self.account_description.clone(),
        }
    }
}

impl Category {
    /// A field-by-field copy.
    pub fn duplicate(&self) -> (r: Category)
        ensures
            r == *self,
    {
        Category {
            id: self.id,
            name: self.name.clone(),
            category_description: self.category_description.clone(),
            is_income: self.is_income,
        }
    }
}

impl MoneyTransaction {
    /// A field-by-field copy.
    pub fn duplicate(&self) -> (r: MoneyTransaction)
        ensures
            r == *self,
    {
        MoneyTransaction {
            id: self.id,
            bank_account: self.bank_account,
            transaction_category: self.transaction_category,
            description: self.description.clone(),
            amount: self.amount,
            transaction_date: self.transaction_date,
            is_expense: self.is_expense,
        }
    }
}

impl AccountTransfer {
    /// A field-by-field copy.
    pub fn duplicate(&self) -> (r: AccountTransfer)
        ensures
            r == *self,
    {
        AccountTransfer {
            id: self.id,
            from_account: self.from_account,
            to_account: self.to_account,
            transfer_date: self.transfer_date,
            description: copy_text(&self.description),
            amount: self.amount,
        }
    }
}

impl Currency {
    /// A field-by-field copy.
    pub fn duplicate(&self) -> (r: Currency)
        ensures
            r == *self,
    {
        Currency { id: self.id, label: self.label.clone(), symbol: self.symbol.clone() }
    }
}

impl<'a> From<&'a Account> for NewAccount {
    fn from(value: &'a Account) -> (r: NewAccount) {
        NewAccount {
            name: value.name.clone(),
            initial_balance: value.initial_balance,
            account_description: value.account_description.clone(),
        }
    }
}

impl<'a> vstd::std_specs::convert::FromSpecImpl<&'a Account> for NewAccount {
    open spec fn obeys_from_spec() -> bool {
        true
    }

    open spec fn from_spec(v: &'a Account) -> NewAccount {
        new_account_of(*v)
    }
}

impl<'a> From<&'a Category> for NewCategory {
    fn from(value: &'a Category) -> (r: NewCategory) {
        NewCategory {
            name: value.name.clone(),
            is_income: value.is_income,
            category_description: value.category_description.clone(),
        }
    }
}

impl<'a> vstd::std_specs::convert::FromSpecImpl<&'a Category> for NewCategory {
    open spec fn obeys_from_spec() -> bool {
        true
    }

    open spec fn from_spec(v: &'a Category) -> NewCategory {
        new_category_of(*v)
    }
}

impl<'a> From<&'a MoneyTransaction> for NewMoneyTransaction {
    fn from(value: &'a MoneyTransaction) -> (r: NewMoneyTransaction) {
        NewMoneyTransaction {
            bank_account: value.bank_account,
            transaction_category: value.transaction_category,
            description: value.description.clone(),
            amount: value.amount,
            transaction_date: value.transaction_date,
            is_expense: value.is_expense,
        }
    }
}

impl<'a> vstd::std_specs::convert::FromSpecImpl<&'a MoneyTransaction> for NewMoneyTransaction {
    open spec fn obeys_from_spec() -> bool {
        true
    }

    open spec fn from_spec(v: &'a MoneyTransaction) -> NewMoneyTransaction {
        new_transaction_of(*v)
    }
}

} // verus!
