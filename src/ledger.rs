use vstd::prelude::*;

verus! {

/// The two ways a transfer can be refused.
#[derive(Clone, Copy, Debug, PartialEq, Eq, Structural)]
pub enum LedgerError {
    AccountNotFound,
    InsufficientFunds,
}

impl LedgerError {
    /// The message reported to callers for this error.
    pub fn message(&self) -> (r: &'static str)
        ensures
            *self == LedgerError::AccountNotFound ==> r@ == "Account not found"@,
            *self == LedgerError::InsufficientFunds ==> r@ == "Insufficient funds"@,
    {
        match self {
            LedgerError::AccountNotFound => "Account not found",
            LedgerError::InsufficientFunds => "Insufficient funds",
        }
    }
}

/// An account: its id, its owner and its balance in the smallest unit of currency.
#[derive(Clone, Debug)]
pub struct Account {
    pub id: u64,
    pub owner: String,
    pub balance: i64,
}

/// What an account holds, as mathematical values.
pub struct AccountView {
    pub id: u64,
    pub owner: Seq<char>,
    pub balance: int,
}

impl View for Account {
    type V = AccountView;

    open spec fn view(&self) -> AccountView {
        AccountView { id: self.id, owner: self.owner@, balance: self.balance as int }
    }
}

impl Account {
    /// A copy of this account, field for field.
    pub fn duplicate(&self) -> (r: Account)
        ensures
            r@ == self@,
    {
        Account { id: self.id, owner: self.owner.clone(), balance: self.balance }
    }
}

/// A recorded transfer between two accounts.
#[derive(Clone, Copy, Debug, PartialEq, Eq, Structural)]
pub struct Transaction {
    pub from_account: u64,
    pub to_account: u64,
    pub amount: i64,
    pub timestamp: u64,
}

/// Whether a transaction has the given account as sender or receiver.
pub open spec fn involves(t: Transaction, id: u64) -> bool {
    t.from_account == id || t.to_account == id
}

/// The ledger as mathematical values: accounts and the transaction log, both in order.
pub struct LedgerView {
    pub accounts: Seq<AccountView>,
    pub transactions: Seq<Transaction>,
}

impl LedgerView {
    /// Ids are the positions of the accounts, every transaction names existing
    /// accounts, and timestamps never decrease along the log.
    pub open spec fn wf(self) -> bool {
        &&& forall|i: int| 0 <= i < self.accounts.len() ==> #[trigger] self.accounts[i].id == i
        &&& forall|j: int|
            0 <= j < self.transactions.len() ==> {
                &&& (#[trigger] self.transactions[j]).from_account < self.accounts.len()
                &&& self.transactions[j].to_account < self.accounts.len()
            }
        &&& forall|j: int, k: int|
            0 <= j <= k < self.transactions.len() ==> (#[trigger] self.transactions[j]).timestamp
                <= (#[trigger] self.transactions[k]).timestamp
    }

    /// The account with the given id, if there is one; ids are positions.
    pub open spec fn lookup(self, id: u64) -> Option<AccountView> {
        if id < self.accounts.len() {
            Some(self.accounts[id as int])
        } else {
            None
        }
    }

    /// Whether an account with the given id exists.
    pub open spec fn has(self, id: u64) -> bool {
        self.lookup(id) is Some
    }

    /// The balance of the account with the given id (0 where there is none).
    pub open spec fn balance(self, id: u64) -> int {
        match self.lookup(id) {
            Some(a) => a.balance,
            None => 0,
        }
    }

    /// The timestamp of the last recorded transaction, or 0 for an empty log.
    pub open spec fn latest_time(self) -> u64 {
        if self.transactions.len() == 0 {
            0
        } else {
            self.transactions.last().timestamp
        }
    }

    /// The state after opening an account for `owner`: it gets the next id and a zero balance.
    pub open spec fn after_create(self, owner: Seq<char>) -> LedgerView {
        LedgerView {
            accounts: self.accounts.push(
                AccountView { id: self.accounts.len() as u64, owner, balance: 0 },
            ),
            transactions: self.transactions,
        }
    }

    /// The outcome of a transfer: both accounts must exist, and the sender must
    /// hold at least the amount.
    pub open spec fn transfer_result(self, from: u64, to: u64, amount: int) -> Result<(), LedgerError> {
        if !self.has(from) || !self.has(to) {
            Err(LedgerError::AccountNotFound)
        } else if self.balance(from) < amount {
            Err(LedgerError::InsufficientFunds)
        } else {
            Ok(())
        }
    }

    /// The state after a transfer at time `now`: on success the sender is debited,
    /// then the receiver credited, and the transfer is appended to the log;
    /// on failure nothing changes.
    pub open spec fn after_transfer(self, from: u64, to: u64, amount: i64, now: u64) -> LedgerView {
        if self.transfer_result(from, to, amount as int) is Ok {
            let debited = self.accounts.update(
                from as int,
                AccountView { balance: self.accounts[from as int].balance - amount, ..self.accounts[from as int] },
            );
            let credited = debited.update(
                to as int,
                AccountView { balance: debited[to as int].balance + amount, ..debited[to as int] },
            );
            LedgerView {
                accounts: credited,
                transactions: self.transactions.push(
                    Transaction { from_account: from, to_account: to, amount, timestamp: now },
                ),
            }
        } else {
            self
        }
    }

    /// Whether the balances a transfer would produce, the intermediate one included,
    /// fit in a signed 64-bit integer.
    pub open spec fn transfer_fits(self, from: u64, to: u64, amount: i64) -> bool {
        self.transfer_result(from, to, amount as int) is Ok ==> {
            let debited = self.accounts[from as int].balance - amount;
            let before = if from == to { debited } else { self.accounts[to as int].balance };
            &&& i64::MIN <= debited <= i64::MAX
            &&& i64::MIN <= before + amount <= i64::MAX
        }
    }

    /// The transactions in which the account takes part, in the order they were recorded.
    pub open spec fn history(self, id: u64) -> Seq<Transaction> {
        self.transactions.filter(|t: Transaction| involves(t, id))
    }
}

/// Ledger state: the accounts, whose ids are their positions, and the append-only
/// log of transfers.
pub struct Ledger {
    accounts: Vec<Account>,
    transactions: Vec<Transaction>,
}

/// The views of a sequence of accounts.
pub open spec fn account_views(accounts: Seq<Account>) -> Seq<AccountView> {
    accounts.map_values(|a: Account| a@)
}

impl View for Ledger {
    type V = LedgerView;

    closed spec fn view(&self) -> LedgerView {
        LedgerView { accounts: account_views(self.accounts@), transactions: self.transactions@ }
    }
}

/// Sets the balance of the account at position `i`, leaving the rest as it was.
fn set_balance(accounts: &mut Vec<Account>, i: usize, balance: i64)
    requires
        i < old(accounts)@.len(),
    ensures
        final(accounts)@.len() == old(accounts)@.len(),
        account_views(final(accounts)@) == account_views(old(accounts)@).update(
            i as int,
            AccountView { balance: balance as int, ..account_views(old(accounts)@)[i as int] },
        ),
{
    let ghost before = account_views(accounts@);
    let mut a = accounts[i].duplicate();
    a.balance = balance;
    accounts.set(i, a);
    assert(account_views(accounts@) =~= before.update(
        i as int,
        AccountView { balance: balance as int, ..before[i as int] },
    ));
}

impl Ledger {
    /// An empty ledger: no accounts and no transactions.
    pub fn new() -> (r: Ledger)
        ensures
            r@.wf(),
            r@.accounts.len() == 0,
            r@.transactions.len() == 0,
    {
        let r = Ledger { accounts: Vec::new(), transactions: Vec::new() };
        assert(r@.accounts =~= Seq::<AccountView>::empty());
        r
    }

    /// The position of the account with the given id, by a scan from the front.
    fn position_of(&self, id: u64) -> (r: Option<usize>)
        requires
            self@.wf(),
        ensures
            r is Some <==> id < self@.accounts.len(),
            r matches Some(i) ==> i == id,
    {
        let mut i: usize = 0;
        while i < self.accounts.len()
            invariant
                self@.wf(),
                0 <= i <= self.accounts.len(),
                i <= id,
            decreases self.accounts.len() - i,
        {
            proof {
                assert(self@.accounts[i as int].id == i);
            }
            if self.accounts[i].id == id {
                return Some(i);
            }
            i = i + 1;
        }
        None
    }

    /// Opens an account for `owner` with a zero balance and returns its id, which
    /// is the number of accounts that existed before.
    pub fn create_account(&mut self, owner: String) -> (id: u64)
        requires
            old(self)@.wf(),
        ensures
            id == old(self)@.accounts.len(),
            final(self)@ == old(self)@.after_create(owner@),
            final(self)@.wf(),
            final(self)@.lookup(id) == Some(AccountView { id, owner: owner@, balance: 0 }),
    {
        let id = self.accounts.len() as u64;
        let ghost owner_v = owner@;
        self.accounts.push(Account { id, owner, balance: 0 });
        assert(self@.accounts =~= old(self)@.after_create(owner_v).accounts);
        id
    }

    /// Moves `amount` from one account to another and records the transfer with
    /// timestamp `now`. Both ids are resolved before any balance changes; a sender
    /// holding less than `amount` is refused. The amount itself is not checked.
    pub fn process_transaction(&mut self, from_account: u64, to_account: u64, amount: i64, now: u64) -> (r: Result<(), LedgerError>)
        requires
            old(self)@.wf(),
            now >= old(self)@.latest_time(),
            old(self)@.transfer_fits(from_account, to_account, amount),
        ensures
            r == old(self)@.transfer_result(from_account, to_account, amount as int),
            final(self)@ == old(self)@.after_transfer(from_account, to_account, amount, now),
            final(self)@.wf(),
    {
        let from_idx = self.position_of(from_account);
        let to_idx = self.position_of(to_account);
        match (from_idx, to_idx) {
            (Some(fi), Some(ti)) => {
                assert(self@.accounts[fi as int] == self.accounts@[fi as int]@);
                assert(self@.accounts[ti as int] == self.accounts@[ti as int]@);
                if self.accounts[fi].balance >= amount {
                    let ghost before = self@;
                    let debited = self.accounts[fi].balance - amount;
                    set_balance(&mut self.accounts, fi, debited);
                    assert(self@.accounts[ti as int] == self.accounts@[ti as int]@);
                    let credited = self.accounts[ti].balance + amount;
                    set_balance(&mut self.accounts, ti, credited);
                    self.transactions.push(
                        Transaction { from_account, to_account, amount, timestamp: now },
                    );
                    let ghost after = before.after_transfer(from_account, to_account, amount, now);
                    assert(self@.accounts =~= after.accounts);
                    assert(self@.transactions =~= after.transactions);
                    Ok(())
                } else {
                    Err(LedgerError::InsufficientFunds)
                }
            },
            _ => Err(LedgerError::AccountNotFound),
        }
    }

    /// A copy of the account with the given id, if there is one.
    pub fn get_account(&self, account_id: u64) -> (r: Option<Account>)
        requires
            self@.wf(),
        ensures
            r matches Some(a) ==> self@.lookup(account_id) == Some(a@),
            r is None <==> self@.lookup(account_id) is None,
    {
        match self.position_of(account_id) {
            Some(i) => {
                assert(self@.accounts[i as int] == self.accounts@[i as int]@);
                Some(self.accounts[i].duplicate())
            },
            None => None,
        }
    }

    /// The transactions in which the account takes part, in log order.
    fn history_of(&self, account_id: u64) -> (r: Vec<Transaction>)
        ensures
            r@ == self@.history(account_id),
    {
        let mut out: Vec<Transaction> = Vec::new();
        let mut i: usize = 0;
        while i < self.transactions.len()
            invariant
                0 <= i <= self.transactions@.len(),
                out@ == self.transactions@.take(i as int).filter(|t: Transaction| involves(t, account_id)),
            decreases self.transactions.len() - i,
        {
            let t = self.transactions[i];
            proof {
                let pred = |t: Transaction| involves(t, account_id);
                assert(self.transactions@.take(i + 1) =~= self.transactions@.take(i as int).push(t));
                self.transactions@.take(i as int).lemma_filter_push(t, pred);
            }
            if t.from_account == account_id || t.to_account == account_id {
                out.push(t);
            }
            i = i + 1;
        }
        assert(self.transactions@.take(i as int) =~= self.transactions@);
        out
    }

    /// The account with the given id together with every transaction it sent or
    /// received, in log order; `None` where no such account exists.
    pub fn get_account_with_history(&self, account_id: u64) -> (r: Option<(Account, Vec<Transaction>)>)
        requires
            self@.wf(),
        ensures
            r matches Some(p) ==> self@.lookup(account_id) == Some(p.0@) && p.1@ == self@.history(account_id),
            r is None <==> self@.lookup(account_id) is None,
    {
        let account = self.get_account(account_id);
        match account {
            Some(a) => Some((a, self.history_of(account_id))),
            None => None,
        }
    }

    /// Rebuilds a ledger from stored accounts and transactions. It is `None` unless
    /// ids are the accounts' positions, every transaction names existing accounts
    /// and timestamps never decrease along the log.
    pub fn from_parts(accounts: Vec<Account>, transactions: Vec<Transaction>) -> (r: Option<Ledger>)
        ensures
            r is Some <==> (LedgerView { accounts: account_views(accounts@), transactions: transactions@ }).wf(),
            r matches Some(l) ==> l@ == (LedgerView { accounts: account_views(accounts@), transactions: transactions@ }),
    {
        let ghost v = LedgerView { accounts: account_views(accounts@), transactions: transactions@ };
        let n = accounts.len();
        let mut i: usize = 0;
        while i < n
            invariant
                v == (LedgerView { accounts: account_views(accounts@), transactions: transactions@ }),
                n == accounts@.len(),
                v.accounts.len() == n,
                0 <= i <= n,
                forall|k: int| 0 <= k < i ==> #[trigger] v.accounts[k].id == k,
            decreases n - i,
        {
            assert(v.accounts[i as int] == accounts@[i as int]@);
            if accounts[i].id != i as u64 {
                assert(v.accounts[i as int].id != i);
                return None;
            }
            i = i + 1;
        }
        let count = n as u64;
        let mut j: usize = 0;
        while j < transactions.len()
            invariant
                v == (LedgerView { accounts: account_views(accounts@), transactions: transactions@ }),
                v.accounts.len() == count,
                forall|k: int| 0 <= k < v.accounts.len() ==> #[trigger] v.accounts[k].id == k,
                0 <= j <= transactions@.len(),
                forall|k: int| 0 <= k < j ==> {
                    &&& (#[trigger] v.transactions[k]).from_account < v.accounts.len()
                    &&& v.transactions[k].to_account < v.accounts.len()
                },
                forall|a: int, b: int| 0 <= a <= b < j ==> (#[trigger] v.transactions[a]).timestamp
                    <= (#[trigger] v.transactions[b]).timestamp,
            decreases transactions.len() - j,
        {
            let t = transactions[j];
            if t.from_account >= count || t.to_account >= count {
                assert(v.transactions[j as int] == t);
                return None;
            }
            if j > 0 && transactions[j - 1].timestamp > t.timestamp {
                assert(v.transactions[j - 1].timestamp > v.transactions[j as int].timestamp);
                return None;
            }
            proof {
                assert forall|a: int, b: int| 0 <= a <= b < j + 1 implies (#[trigger] v.transactions[a]).timestamp
                    <= (#[trigger] v.transactions[b]).timestamp by {
                    if b == j && a < b {
                        assert(v.transactions[a].timestamp <= v.transactions[j - 1].timestamp);
                    }
                }
            }
            j = j + 1;
        }
        Some(Ledger { accounts, transactions })
    }

    /// The accounts and the transaction log, for storing.
    pub fn into_parts(self) -> (r: (Vec<Account>, Vec<Transaction>))
        ensures
            account_views(r.0@) == self@.accounts,
            r.1@ == self@.transactions,
    {
        (self.accounts, self.transactions)
    }

    /// The timestamp of the last recorded transaction, or 0 for an empty log.
    pub fn latest_timestamp(&self) -> (r: u64)
        ensures
            r == self@.latest_time(),
    {
        let n = self.transactions.len();
        if n == 0 {
            0
        } else {
            self.transactions[n - 1].timestamp
        }
    }

    /// Whether the balances a transfer would produce fit in a signed 64-bit
    /// integer; a transfer that would be refused always fits.
    pub fn transfer_fits(&self, from_account: u64, to_account: u64, amount: i64) -> (r: bool)
        requires
            self@.wf(),
        ensures
            r == self@.transfer_fits(from_account, to_account, amount),
    {
        match (self.position_of(from_account), self.position_of(to_account)) {
            (Some(fi), Some(ti)) => {
                assert(self@.accounts[fi as int] == self.accounts@[fi as int]@);
                assert(self@.accounts[ti as int] == self.accounts@[ti as int]@);
                if self.accounts[fi].balance < amount {
                    return true;
                }
                let debited: i128 = self.accounts[fi].balance as i128 - amount as i128;
                let before: i128 = if fi == ti {
                    debited
                } else {
                    self.accounts[ti].balance as i128
                };
                let credited: i128 = before + amount as i128;
                i64::MIN as i128 <= debited && debited <= i64::MAX as i128
                    && i64::MIN as i128 <= credited && credited <= i64::MAX as i128
            },
            _ => true,
        }
    }
}

} // verus!
