use vstd::prelude::*;

use crate::ledger::{involves, AccountView, LedgerError, LedgerView, Transaction};

verus! {

/// The ledger reached from `l` by opening one account per owner, in order.
pub open spec fn create_all(l: LedgerView, owners: Seq<Seq<char>>) -> LedgerView
    decreases owners.len(),
{
    if owners.len() == 0 {
        l
    } else {
        create_all(l, owners.drop_last()).after_create(owners.last())
    }
}

/// The empty ledger.
pub open spec fn empty_ledger() -> LedgerView {
    LedgerView { accounts: Seq::empty(), transactions: Seq::empty() }
}

/// Opening accounts on an empty ledger hands out the ids 0, 1, 2, ... in call
/// order: before the k-th call there are k accounts (the id that call returns),
/// and afterwards account k belongs to the k-th owner.
pub proof fn lemma_ids_in_call_order(owners: Seq<Seq<char>>)
    requires
        owners.len() <= u64::MAX,
    ensures
        forall|k: int|
            0 <= k <= owners.len() ==> #[trigger] create_all(empty_ledger(), owners.take(k)).accounts.len() == k,
        forall|k: int|
            0 <= k < owners.len() ==> create_all(empty_ledger(), owners).accounts[k] == (AccountView {
                id: k as u64,
                owner: owners[k],
                balance: 0,
            }),
    decreases owners.len(),
{
    if owners.len() > 0 {
        let init = owners.drop_last();
        lemma_ids_in_call_order(init);
        assert(init.take(init.len() as int) =~= init);
        let before = create_all(empty_ledger(), init);
        assert(before.accounts.len() == init.len());
        assert(create_all(empty_ledger(), owners) == before.after_create(owners.last()));
        assert forall|k: int| 0 <= k <= owners.len() implies #[trigger] create_all(
            empty_ledger(),
            owners.take(k),
        ).accounts.len() == k by {
            if k < owners.len() {
                assert(owners.take(k) =~= init.take(k));
                assert(create_all(empty_ledger(), init.take(k)).accounts.len() == k);
            } else {
                assert(owners.take(k) =~= owners);
            }
        }
        assert forall|k: int| 0 <= k < owners.len() implies create_all(empty_ledger(), owners).accounts[k]
            == (AccountView { id: k as u64, owner: owners[k], balance: 0 }) by {
            if k < init.len() {
                assert(before.accounts[k] == (AccountView { id: k as u64, owner: init[k], balance: 0 }));
            }
        }
    }
}

/// After an account is opened for `owner`, looking up the returned id gives that
/// id, that owner and a zero balance.
pub proof fn lemma_lookup_after_create(l: LedgerView, owner: Seq<char>)
    requires
        l.wf(),
        l.accounts.len() <= u64::MAX,
    ensures
        l.after_create(owner).wf(),
        l.after_create(owner).lookup(l.accounts.len() as u64) == Some(
            AccountView { id: l.accounts.len() as u64, owner, balance: 0 },
        ),
{
    let n = l.after_create(owner);
    assert(n.wf());
}

/// A transfer, whatever its outcome, keeps the ledger well formed when `now` is
/// no earlier than the last recorded timestamp.
pub proof fn lemma_transfer_keeps_wf(l: LedgerView, from: u64, to: u64, amount: i64, now: u64)
    requires
        l.wf(),
        now >= l.latest_time(),
    ensures
        l.after_transfer(from, to, amount, now).wf(),
        l.after_transfer(from, to, amount, now).accounts.len() == l.accounts.len(),
{
    let n = l.after_transfer(from, to, amount, now);
    if l.transfer_result(from, to, amount as int) is Ok {
        assert forall|j: int, k: int| 0 <= j <= k < n.transactions.len() implies (#[trigger] n.transactions[j]).timestamp
            <= (#[trigger] n.transactions[k]).timestamp by {
            if k == l.transactions.len() && j < k {
                assert(l.transactions[j].timestamp <= l.transactions.last().timestamp);
            }
        }
    }
}

/// A successful transfer between two different accounts debits the sender and
/// credits the receiver by the amount, leaves every other balance as it was, and
/// appends the transfer, stamped no earlier than any recorded transaction.
pub proof fn lemma_transfer_moves_amount(l: LedgerView, a: u64, b: u64, amount: i64, now: u64)
    requires
        l.wf(),
        a != b,
        l.transfer_result(a, b, amount as int) is Ok,
        now >= l.latest_time(),
    ensures
        l.after_transfer(a, b, amount, now).balance(a) == l.balance(a) - amount,
        l.after_transfer(a, b, amount, now).balance(b) == l.balance(b) + amount,
        forall|c: u64|
            c != a && c != b ==> #[trigger] l.after_transfer(a, b, amount, now).balance(c)
                == l.balance(c),
        l.after_transfer(a, b, amount, now).transactions == l.transactions.push(
            Transaction { from_account: a, to_account: b, amount, timestamp: now },
        ),
        forall|j: int| 0 <= j < l.transactions.len() ==> #[trigger] l.transactions[j].timestamp <= now,
{
    let n = l.after_transfer(a, b, amount, now);
    lemma_transfer_keeps_wf(l, a, b, amount, now);
    assert forall|j: int| 0 <= j < l.transactions.len() implies #[trigger] l.transactions[j].timestamp
        <= now by {
        assert(l.transactions[j].timestamp <= l.transactions.last().timestamp);
    }
}

/// A successful transfer from an account to itself leaves every balance as it
/// was and is still appended to the log.
pub proof fn lemma_self_transfer_keeps_balances(l: LedgerView, a: u64, amount: i64, now: u64)
    requires
        l.wf(),
        l.transfer_result(a, a, amount as int) is Ok,
    ensures
        forall|c: u64| #[trigger] l.after_transfer(a, a, amount, now).balance(c) == l.balance(c),
        l.after_transfer(a, a, amount, now).transactions == l.transactions.push(
            Transaction { from_account: a, to_account: a, amount, timestamp: now },
        ),
{
}

/// A transfer naming an id that no account has is refused as `AccountNotFound`
/// and changes nothing.
pub proof fn lemma_unknown_account_refused(l: LedgerView, from: u64, to: u64, amount: i64, now: u64)
    requires
        l.wf(),
        from >= l.accounts.len() || to >= l.accounts.len(),
    ensures
        l.transfer_result(from, to, amount as int) == Err::<(), LedgerError>(LedgerError::AccountNotFound),
        l.after_transfer(from, to, amount, now) == l,
{
}

/// A transfer between existing accounts of more than the sender holds is refused
/// as `InsufficientFunds` and changes nothing.
pub proof fn lemma_overdraft_refused(l: LedgerView, from: u64, to: u64, amount: i64, now: u64)
    requires
        l.wf(),
        l.has(from),
        l.has(to),
        amount > l.balance(from),
    ensures
        l.transfer_result(from, to, amount as int) == Err::<(), LedgerError>(LedgerError::InsufficientFunds),
        l.after_transfer(from, to, amount, now) == l,
{
}

/// The history of an account holds exactly the recorded transactions in which it
/// is sender or receiver, each in the order of the log.
pub proof fn lemma_history_exact(l: LedgerView, id: u64)
    ensures
        forall|t: Transaction|
            #[trigger] l.history(id).contains(t) <==> (l.transactions.contains(t) && involves(t, id)),
        l.history(id) == l.transactions.filter(|t: Transaction| involves(t, id)),
{
    broadcast use vstd::seq_lib::group_filter_ensures;

    let pred = |t: Transaction| involves(t, id);
    assert forall|t: Transaction| #[trigger] l.history(id).contains(t) <==> (l.transactions.contains(t)
        && involves(t, id)) by {
        if l.history(id).contains(t) {
            l.transactions.lemma_filter_contains_rev(pred, t);
        }
        if l.transactions.contains(t) && involves(t, id) {
            let i = choose|i: int| 0 <= i < l.transactions.len() && l.transactions[i] == t;
            l.transactions.lemma_filter_contains(pred, i);
        }
    }
}

} // verus!
