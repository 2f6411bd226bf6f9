//! Properties of the ledger that relate several operations, stated over the
//! store's contents and proved.

use crate::dates::{at_hms, date_key, Date};
use crate::models::{
    new_account_of, new_category_of, new_transaction_of, transfer_with_id, Account,
    AccountTransfer, Category, Currency, MoneyTransaction, NewAccountTransfer, NewMoneyTransaction,
    UpdateAccount,
};
use crate::store::{
    accounts_from, categories_from, category_amount, category_total, has_account,
    initial_balance_of, movement_ok, new_transaction_ok, overwritten_account, room_for,
    transactions_effect, transactions_from, transactions_in_range, transfers_effect,
    transfers_in_range, LedgerView,
};
use crate::sync::{after_import, currency_id_by_symbol, exported_currency, SyncModel};
use vstd::prelude::*;

verus! {

broadcast use vstd::seq_lib::group_to_multiset_ensures;

/// What a new money transaction adds to the balance of account `id`.
pub open spec fn new_transaction_effect(t: NewMoneyTransaction, id: i32) -> int {
    if t.bank_account != id {
        0
    } else if t.is_expense {
        -t.amount
    } else {
        t.amount as int
    }
}

/// What new money transactions add to the balance of account `id`: incomes
/// count positive, expenses negative.
pub open spec fn new_transactions_effect(ts: Seq<NewMoneyTransaction>, id: i32) -> int
    decreases ts.len(),
{
    if ts.len() == 0 {
        0
    } else {
        new_transactions_effect(ts.drop_last(), id) + new_transaction_effect(ts.last(), id)
    }
}

/// What a new transfer adds to the balance of account `id`.
pub open spec fn new_transfer_effect(t: NewAccountTransfer, id: i32) -> int {
    (if t.to_account == id {
        t.amount as int
    } else {
        0
    }) - (if t.from_account == id {
        t.amount as int
    } else {
        0
    })
}

/// What new transfers add to the balance of account `id`: incoming count
/// positive, outgoing negative.
pub open spec fn new_transfers_effect(ts: Seq<NewAccountTransfer>, id: i32) -> int
    decreases ts.len(),
{
    if ts.len() == 0 {
        0
    } else {
        new_transfers_effect(ts.drop_last(), id) + new_transfer_effect(ts.last(), id)
    }
}

/// The store after the transfers `ts` are created one after the other.
pub open spec fn after_create_transfers(v: LedgerView, ts: Seq<NewAccountTransfer>) -> LedgerView
    decreases ts.len(),
{
    if ts.len() == 0 {
        v
    } else {
        after_create_transfers(v, ts.drop_last()).after_create_transfer(ts.last())
    }
}

/// Every transfer of `ts` is accepted when they are created one after the
/// other on `v`.
pub open spec fn accepts_transfers(v: LedgerView, ts: Seq<NewAccountTransfer>) -> bool {
    &&& room_for(v.next_transfer_id, ts.len() as int)
    &&& forall|k: int| 0 <= k < ts.len() ==> movement_ok(#[trigger] ts[k].amount, ts[k].transfer_date)
}

/// No money transaction of `v` is on account `id`, and no transfer of `v`
/// touches it.
pub open spec fn no_movements(v: LedgerView, id: i32) -> bool {
    &&& forall|k: int| 0 <= k < v.transactions.len() ==> #[trigger] v.transactions[k].bank_account != id
    &&& forall|k: int|
        0 <= k < v.transfers.len() ==> #[trigger] v.transfers[k].from_account != id
            && v.transfers[k].to_account != id
}

proof fn lemma_initial_balance_of_unique(accounts: Seq<Account>, i: int)
    requires
        0 <= i < accounts.len(),
        forall|p: int, q: int|
            0 <= p < q < accounts.len() ==> #[trigger] accounts[p].id != #[trigger] accounts[q].id,
    ensures
        initial_balance_of(accounts, accounts[i].id) == accounts[i].initial_balance,
    decreases i,
{
    if i > 0 {
        assert(accounts[0].id != accounts[i].id);
        let tail = accounts.drop_first();
        assert(tail[i - 1] == accounts[i]);
        assert forall|p: int, q: int| 0 <= p < q < tail.len() implies #[trigger] tail[p].id
            != #[trigger] tail[q].id by {
            assert(tail[p] == accounts[p + 1]);
            assert(tail[q] == accounts[q + 1]);
        }
        lemma_initial_balance_of_unique(tail, i - 1);
    }
}

proof fn lemma_transactions_effect_none(ts: Seq<MoneyTransaction>, id: i32)
    requires
        forall|k: int| 0 <= k < ts.len() ==> #[trigger] ts[k].bank_account != id,
    ensures
        transactions_effect(ts, id) == 0,
    decreases ts.len(),
{
    if ts.len() > 0 {
        assert(ts.last() == ts[ts.len() - 1]);
        lemma_transactions_effect_none(ts.drop_last(), id);
    }
}

proof fn lemma_transfers_effect_none(ts: Seq<AccountTransfer>, id: i32)
    requires
        forall|k: int|
            0 <= k < ts.len() ==> #[trigger] ts[k].from_account != id && ts[k].to_account != id,
    ensures
        transfers_effect(ts, id) == 0,
    decreases ts.len(),
{
    if ts.len() > 0 {
        assert(ts.last() == ts[ts.len() - 1]);
        lemma_transfers_effect_none(ts.drop_last(), id);
    }
}

/// An account with no money transaction and no transfer has its initial
/// balance as balance.
pub proof fn lemma_balance_without_movements(v: LedgerView, i: int)
    requires
        v.wf(),
        0 <= i < v.accounts.len(),
        no_movements(v, v.accounts[i].id),
    ensures
        v.balance_of(v.accounts[i].id) == v.accounts[i].initial_balance,
{
    lemma_initial_balance_of_unique(v.accounts, i);
    lemma_transactions_effect_none(v.transactions, v.accounts[i].id);
    lemma_transfers_effect_none(v.transfers, v.accounts[i].id);
}

proof fn lemma_transactions_effect_append(a: Seq<MoneyTransaction>, b: Seq<MoneyTransaction>, id: i32)
    ensures
        transactions_effect(a + b, id) == transactions_effect(a, id) + transactions_effect(b, id),
    decreases b.len(),
{
    if b.len() == 0 {
        assert(a + b =~= a);
    } else {
        assert((a + b).drop_last() =~= a + b.drop_last());
        assert((a + b).last() == b.last());
        lemma_transactions_effect_append(a, b.drop_last(), id);
    }
}

proof fn lemma_transactions_from_effect(list: Seq<NewMoneyTransaction>, first_id: int, id: i32)
    ensures
        transactions_effect(transactions_from(list, first_id), id) == new_transactions_effect(
            list,
            id,
        ),
    decreases list.len(),
{
    if list.len() > 0 {
        assert(transactions_from(list, first_id).drop_last() =~= transactions_from(
            list.drop_last(),
            first_id,
        ));
        lemma_transactions_from_effect(list.drop_last(), first_id, id);
    }
}

/// Creating a batch of money transactions moves the balance of every account
/// by what the batch adds to it.
pub proof fn lemma_balance_after_transactions(
    v: LedgerView,
    list: Seq<NewMoneyTransaction>,
    id: i32,
)
    requires
        v.accepts_transactions(list),
    ensures
        v.after_create_transactions(list).balance_of(id) == v.balance_of(id)
            + new_transactions_effect(list, id),
{
    lemma_transactions_effect_append(
        v.transactions,
        transactions_from(list, v.next_transaction_id),
        id,
    );
    lemma_transactions_from_effect(list, v.next_transaction_id, id);
}

/// Creating a transfer moves the balance of every account by what the
/// transfer adds to it.
pub proof fn lemma_balance_after_transfer(v: LedgerView, t: NewAccountTransfer, id: i32)
    requires
        v.accepts_transfer(t),
    ensures
        v.after_create_transfer(t).balance_of(id) == v.balance_of(id) + new_transfer_effect(t, id),
{
    let s = v.transfers.push(transfer_with_id(t, v.next_transfer_id as i32));
    assert(s.drop_last() =~= v.transfers);
}

proof fn lemma_balance_after_transfers(v: LedgerView, ts: Seq<NewAccountTransfer>, id: i32)
    requires
        accepts_transfers(v, ts),
    ensures
        after_create_transfers(v, ts).balance_of(id) == v.balance_of(id) + new_transfers_effect(
            ts,
            id,
        ),
        after_create_transfers(v, ts).next_transfer_id == v.next_transfer_id + ts.len(),
        after_create_transfers(v, ts).accounts == v.accounts,
    decreases ts.len(),
{
    if ts.len() > 0 {
        let front = ts.drop_last();
        assert(accepts_transfers(v, front)) by {
            assert forall|k: int| 0 <= k < front.len() implies movement_ok(
                #[trigger] front[k].amount,
                front[k].transfer_date,
            ) by {
                assert(front[k] == ts[k]);
            }
        }
        lemma_balance_after_transfers(v, front, id);
        assert(ts.last() == ts[ts.len() - 1]);
        lemma_balance_after_transfer(after_create_transfers(v, front), ts.last(), id);
    }
}

/// The balance of an account that had no movement is its initial balance,
/// plus what the money transactions created on it add, plus what the
/// transfers created after them add.
pub proof fn lemma_balance_is_initial_plus_movements(
    v: LedgerView,
    i: int,
    transactions: Seq<NewMoneyTransaction>,
    transfers: Seq<NewAccountTransfer>,
)
    requires
        v.wf(),
        0 <= i < v.accounts.len(),
        no_movements(v, v.accounts[i].id),
        v.accepts_transactions(transactions),
        accepts_transfers(v.after_create_transactions(transactions), transfers),
    ensures
        after_create_transfers(v.after_create_transactions(transactions), transfers).balance_of(
            v.accounts[i].id,
        ) == v.accounts[i].initial_balance + new_transactions_effect(
            transactions,
            v.accounts[i].id,
        ) + new_transfers_effect(transfers, v.accounts[i].id),
{
    let id = v.accounts[i].id;
    lemma_balance_without_movements(v, i);
    lemma_balance_after_transactions(v, transactions, id);
    lemma_balance_after_transfers(v.after_create_transactions(transactions), transfers, id);
}

proof fn lemma_initial_balance_after_overwrite(accounts: Seq<Account>, u: UpdateAccount)
    requires
        has_account(accounts, u.id),
    ensures
        initial_balance_of(accounts.map_values(|a: Account| overwritten_account(a, u)), u.id)
            == u.initial_balance,
        has_account(accounts.map_values(|a: Account| overwritten_account(a, u)), u.id),
    decreases accounts.len(),
{
    let m = accounts.map_values(|a: Account| overwritten_account(a, u));
    let w = choose|w: int| 0 <= w < accounts.len() && #[trigger] accounts[w].id == u.id;
    assert(m[w].id == u.id);
    if accounts[0].id != u.id {
        let tail = accounts.drop_first();
        assert(tail[w - 1] == accounts[w]);
        assert(m.drop_first() =~= tail.map_values(|a: Account| overwritten_account(a, u)));
        lemma_initial_balance_after_overwrite(tail, u);
    }
}

/// Editing the displayed balance of an account from its current value `x` to
/// `y`, then back to `x`, restores its initial balance; after each edit the
/// displayed balance is the one asked for.
pub proof fn lemma_balance_edit_round_trip(
    v: LedgerView,
    id: i32,
    y: int,
    first: UpdateAccount,
    second: UpdateAccount,
)
    requires
        v.wf(),
        v.accepts_balance_edit(id, y),
        first.id == id,
        first.initial_balance == v.edited_initial_balance(id, y),
        v.after_update_account(first).accepts_balance_edit(id, v.balance_of(id)),
        second.id == id,
        second.initial_balance == v.after_update_account(first).edited_initial_balance(
            id,
            v.balance_of(id),
        ),
    ensures
        v.after_update_account(first).balance_of(id) == y,
        v.after_update_account(first).after_update_account(second).balance_of(id) == v.balance_of(
            id,
        ),
        initial_balance_of(v.after_update_account(first).after_update_account(second).accounts, id)
            == initial_balance_of(v.accounts, id),
{
    lemma_initial_balance_after_overwrite(v.accounts, first);
    let v1 = v.after_update_account(first);
    lemma_initial_balance_after_overwrite(v1.accounts, second);
}

/// A money transaction dated at the first second of the first day of a range,
/// or at the last second of its last day, lies in the range.
pub proof fn lemma_transaction_range_includes_boundaries(
    ts: Seq<MoneyTransaction>,
    start: Date,
    end: Date,
    i: int,
)
    requires
        date_key(start) <= date_key(end),
        0 <= i < ts.len(),
        ts[i].transaction_date == at_hms(start, 0, 0, 0) || ts[i].transaction_date == at_hms(
            end,
            23,
            59,
            59,
        ),
    ensures
        transactions_in_range(ts, start, end).contains(ts[i]),
        transactions_in_range(ts, start, end).to_multiset().count(ts[i]) > 0,
{
    let p = |t: MoneyTransaction| crate::dates::in_day_range(t.transaction_date, start, end);
    assert(p(ts[i]));
    ts.lemma_filter_contains(p, i);
    assert(transactions_in_range(ts, start, end) == ts.filter(p));
}

/// A transfer dated at the first second of the first day of a range, or at
/// the last second of its last day, lies in the range.
pub proof fn lemma_transfer_range_includes_boundaries(
    ts: Seq<AccountTransfer>,
    start: Date,
    end: Date,
    i: int,
)
    requires
        date_key(start) <= date_key(end),
        0 <= i < ts.len(),
        ts[i].transfer_date == at_hms(start, 0, 0, 0) || ts[i].transfer_date == at_hms(
            end,
            23,
            59,
            59,
        ),
    ensures
        transfers_in_range(ts, start, end).contains(ts[i]),
        transfers_in_range(ts, start, end).to_multiset().count(ts[i]) > 0,
{
    let p = |t: AccountTransfer| crate::dates::in_day_range(t.transfer_date, start, end);
    assert(p(ts[i]));
    ts.lemma_filter_contains(p, i);
    assert(transfers_in_range(ts, start, end) == ts.filter(p));
}

/// The total of a category is 0 when none of the money transactions matches
/// it, its kind and the range.
pub proof fn lemma_category_total_without_match(
    ts: Seq<MoneyTransaction>,
    category_id: i32,
    expense: bool,
    start: Date,
    end: Date,
)
    requires
        forall|k: int|
            0 <= k < ts.len() ==> category_amount(#[trigger] ts[k], category_id, expense, start, end)
                == 0,
    ensures
        category_total(ts, category_id, expense, start, end) == 0,
    decreases ts.len(),
{
    if ts.len() > 0 {
        assert(ts.last() == ts[ts.len() - 1]);
        assert forall|k: int| 0 <= k < ts.drop_last().len() implies category_amount(
            #[trigger] ts.drop_last()[k],
            category_id,
            expense,
            start,
            end,
        ) == 0 by {
            assert(ts.drop_last()[k] == ts[k]);
        }
        lemma_category_total_without_match(ts.drop_last(), category_id, expense, start, end);
    }
}

/// A batch of money transactions of which one breaks a constraint leaves the
/// store as it was: none of its elements is stored.
pub proof fn lemma_rejected_batch_stores_nothing(
    v: LedgerView,
    list: Seq<NewMoneyTransaction>,
    k: int,
)
    requires
        0 <= k < list.len(),
        !new_transaction_ok(list[k]),
    ensures
        v.after_create_transactions(list) == v,
{
}

proof fn lemma_map_values_to_multiset<A, B>(a: Seq<A>, b: Seq<A>, f: spec_fn(A) -> B)
    requires
        a.to_multiset() == b.to_multiset(),
    ensures
        a.map_values(f).to_multiset() == b.map_values(f).to_multiset(),
    decreases a.len(),
{
    vstd::seq_lib::to_multiset_len(a);
    vstd::seq_lib::to_multiset_len(b);
    if a.len() == 0 {
        assert(b.len() == 0);
        assert(a.map_values(f) =~= b.map_values(f));
    } else {
        let x = a.last();
        let a1 = a.drop_last();
        assert(a =~= a1.push(x));
        assert(a.contains(x)) by {
            assert(a[a.len() - 1] == x);
        }
        vstd::seq_lib::to_multiset_contains(a, x);
        vstd::seq_lib::to_multiset_contains(b, x);
        assert(b.contains(x));
        let j = choose|j: int| 0 <= j < b.len() && b[j] == x;
        let b1 = b.remove(j);
        assert(a1.to_multiset() =~= a.to_multiset().remove(x));
        assert(b1.to_multiset() == b.to_multiset().remove(x));
        lemma_map_values_to_multiset(a1, b1, f);
        assert(a.map_values(f) =~= a1.map_values(f).push(f(x)));
        assert(b.map_values(f) =~= b1.map_values(f).insert(j, f(x)));
    }
}

proof fn lemma_first_currency_with_symbol(cs: Seq<Currency>, symbol: Seq<char>)
    requires
        exists|k: int| 0 <= k < cs.len() && #[trigger] cs[k].symbol@ == symbol,
    ensures
        exists|k: int|
            0 <= k < cs.len() && #[trigger] cs[k].id == currency_id_by_symbol(cs, symbol)
                && cs[k].symbol@ == symbol,
    decreases cs.len(),
{
    if cs[0].symbol@ == symbol {
        assert(cs[0].id == currency_id_by_symbol(cs, symbol));
    } else {
        let w = choose|k: int| 0 <= k < cs.len() && #[trigger] cs[k].symbol@ == symbol;
        let tail = cs.drop_first();
        assert(tail[w - 1] == cs[w]);
        lemma_first_currency_with_symbol(tail, symbol);
        let k = choose|k: int|
            0 <= k < tail.len() && #[trigger] tail[k].id == currency_id_by_symbol(tail, symbol)
                && tail[k].symbol@ == symbol;
        assert(cs[k + 1] == tail[k]);
    }
}

/// Importing, into any store, the snapshot exported from a store gives the
/// same accounts, categories and money transactions, up to their ids (the
/// money transactions as a multiset, since export orders them by date), and
/// makes active a currency with the exported symbol where the currency table
/// has one.
pub proof fn lemma_export_import_round_trip(
    source: LedgerView,
    target: LedgerView,
    snapshot: SyncModel,
    currency_id: i32,
)
    requires
        source.wf(),
        target.wf(),
        snapshot.accounts@ == source.accounts,
        snapshot.categories@ == source.categories,
        snapshot.transactions@.to_multiset() == source.transactions.to_multiset(),
        snapshot.currency@ == exported_currency(source.currencies, currency_id),
    ensures
        after_import(target, snapshot).accounts.map_values(|a: Account| new_account_of(a))
            == source.accounts.map_values(|a: Account| new_account_of(a)),
        after_import(target, snapshot).categories.map_values(|c: Category| new_category_of(c))
            == source.categories.map_values(|c: Category| new_category_of(c)),
        after_import(target, snapshot).transactions.map_values(
            |t: MoneyTransaction| new_transaction_of(t),
        ).to_multiset() == source.transactions.map_values(
            |t: MoneyTransaction| new_transaction_of(t),
        ).to_multiset(),
        after_import(target, snapshot).currencies == target.currencies,
        (exists|k: int|
            0 <= k < target.currencies.len() && #[trigger] target.currencies[k].symbol@
                == snapshot.currency@) ==> (exists|k: int|
            0 <= k < target.currencies.len() && #[trigger] target.currencies[k].id
                == currency_id_by_symbol(target.currencies, snapshot.currency@)
                && target.currencies[k].symbol@ == snapshot.currency@),
{
    let fa = |a: Account| new_account_of(a);
    let fc = |c: Category| new_category_of(c);
    let ft = |t: MoneyTransaction| new_transaction_of(t);
    let la = snapshot.accounts@.map_values(fa);
    let lc = snapshot.categories@.map_values(fc);
    let lt = snapshot.transactions@.map_values(ft);
    let v0 = target.after_drop_all();
    let v1 = v0.after_create_accounts(la);
    let v2 = v1.after_create_categories(lc);
    let v3 = v2.after_create_transactions(lt);
    assert(v3 == after_import(target, snapshot));
    // The accounts fit in a fresh id space.
    assert(room_for(1, la.len() as int));
    assert(v1.accounts =~= accounts_from(la, 1));
    assert(v1.accounts.map_values(fa) =~= la);
    // The categories too.
    assert(room_for(1, lc.len() as int));
    assert(v2.categories =~= categories_from(lc, 1));
    assert(v2.categories.map_values(fc) =~= lc);
    // Every money transaction of the snapshot comes from the source, so it
    // meets the constraints.
    assert(snapshot.transactions@.len() == source.transactions.len()) by {
        vstd::seq_lib::to_multiset_len(snapshot.transactions@);
        vstd::seq_lib::to_multiset_len(source.transactions);
    }
    assert forall|k: int| 0 <= k < lt.len() implies new_transaction_ok(#[trigger] lt[k]) by {
        let t = snapshot.transactions@[k];
        assert(snapshot.transactions@.contains(t));
        vstd::seq_lib::to_multiset_contains(snapshot.transactions@, t);
        vstd::seq_lib::to_multiset_contains(source.transactions, t);
        assert(source.transactions.contains(t));
        let w = choose|w: int| 0 <= w < source.transactions.len() && source.transactions[w] == t;
        assert(movement_ok(source.transactions[w].amount, source.transactions[w].transaction_date));
    }
    assert(v2.accepts_transactions(lt));
    assert(v3.transactions =~= transactions_from(lt, 1));
    assert(v3.transactions.map_values(ft) =~= lt);
    lemma_map_values_to_multiset(snapshot.transactions@, source.transactions, ft);
    if exists|k: int|
        0 <= k < target.currencies.len() && #[trigger] target.currencies[k].symbol@
            == snapshot.currency@ {
        lemma_first_currency_with_symbol(target.currencies, snapshot.currency@);
    }
}

} // verus!
