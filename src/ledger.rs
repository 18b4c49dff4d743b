//! A ledger: a chart of accounts and the transactions posted to it, with the
//! queries that carry balances from one ledger over to another.
use vstd::prelude::*;

use crate::aggregate::{pair_sums, unzip_sums};
use crate::fixed::{Fixed, FixedError};

verus! {

/// The stable identity of an account, a transaction or a split (a UUID).
#[derive(Debug, Clone, Copy, PartialEq, Eq, Structural)]
pub struct AccountId(pub u128);

/// An account of a chart of accounts.
#[derive(Debug, Clone)]
pub struct Account {
    pub name: String,
    pub id: AccountId,
    pub acc_type: String,
    pub parent: Option<AccountId>,
    pub is_readonly: bool,
}

/// One leg of a transaction: an amount posted to one account.
#[derive(Debug, Clone)]
pub struct Split {
    pub id: u128,
    pub memo: Option<String>,
    /// The amount in the transaction's currency.
    pub value: Fixed,
    /// The amount in the account's own commodity.
    pub quantity: Fixed,
    pub account: AccountId,
}

/// A transaction. Two splits to one account are both kept, and both count
/// towards the account's total.
#[derive(Debug, Clone)]
pub struct Transaction {
    pub id: u128,
    /// When the transaction took effect, in seconds since the Unix epoch.
    pub date_posted: i64,
    /// When the transaction was entered, in seconds since the Unix epoch.
    pub date_entered: i64,
    pub description: String,
    pub splits: Vec<Split>,
}

/// The accounts and the transactions of one ledger.
#[derive(Debug, Clone)]
pub struct Book {
    pub accounts: Vec<Account>,
    pub transactions: Vec<Transaction>,
}

/// Why a ledger could not be read or queried.
#[derive(Debug)]
pub enum LedgerError {
    /// An identifier is not a UUID.
    UuidError(uuid::Error),
    /// A timestamp could not be read.
    DateTimeError(chrono::ParseError),
    /// A record lacks the value named.
    MissingValue(&'static str),
    /// The value named cannot be written.
    InvalidValue(&'static str),
    /// An amount could not be read.
    FixedError(FixedError),
    /// A parent names an account that the ledger does not hold.
    DanglingAccountReference(AccountId),
    /// The parents of the account named lead round in a cycle.
    CyclicParents(AccountId),
    /// The word does not name a kind of account.
    InvalidAccountType(String),
}

/// The first place at or after `from` where `accounts` holds `id`.
pub open spec fn find_id(accounts: Seq<Account>, id: AccountId, from: int) -> Option<int>
    decreases accounts.len() - from,
{
    if from < 0 || from >= accounts.len() {
        None
    } else if accounts[from].id == id {
        Some(from)
    } else {
        find_id(accounts, id, from + 1)
    }
}

/// Whether account `a` of `src` and account `b` of `tgt` have the same name
/// and, level by level up to their roots, parents of the same names; each
/// parent is looked up in its own ledger. A parent that cannot be found is an
/// error, and so is a walk longer than `fuel` steps.
pub open spec fn chain_matches(
    src: Seq<Account>,
    tgt: Seq<Account>,
    a: Account,
    b: Account,
    fuel: nat,
) -> Result<bool, LedgerError>
    decreases fuel,
{
    if a.name@ != b.name@ {
        Ok(false)
    } else {
        match (a.parent, b.parent) {
            (None, None) => Ok(true),
            (Some(pa), Some(pb)) => match find_id(src, pa, 0) {
                None => Err(LedgerError::DanglingAccountReference(pa)),
                Some(i) => match find_id(tgt, pb, 0) {
                    None => Err(LedgerError::DanglingAccountReference(pb)),
                    Some(j) => if fuel == 0 {
                        Err(LedgerError::CyclicParents(a.id))
                    } else {
                        chain_matches(src, tgt, src[i], tgt[j], (fuel - 1) as nat)
                    },
                },
            },
            _ => Ok(false),
        }
    }
}

/// The places, in order, of the accounts among the first `n` of `tgt` that
/// correspond to `acc` of `src`, or the first error met on the way.
pub open spec fn matching_targets(src: Seq<Account>, tgt: Seq<Account>, acc: Account, n: int) -> Result<
    Seq<usize>,
    LedgerError,
>
    decreases n,
{
    if n <= 0 {
        Ok(Seq::empty())
    } else {
        match matching_targets(src, tgt, acc, n - 1) {
            Err(e) => Err(e),
            Ok(found) => match chain_matches(src, tgt, acc, tgt[n - 1], src.len()) {
                Err(e) => Err(e),
                Ok(true) => Ok(found.push((n - 1) as usize)),
                Ok(false) => Ok(found),
            },
        }
    }
}

/// A place that the search finds holds the identity searched for.
pub proof fn lemma_find_id_found(accounts: Seq<Account>, id: AccountId, from: int)
    requires
        find_id(accounts, id, from) is Some,
    ensures
        ({
            let i = find_id(accounts, id, from)->0;
            &&& from <= i < accounts.len()
            &&& accounts[i].id == id
        }),
    decreases accounts.len() - from,
{
    if from >= 0 && from < accounts.len() && accounts[from].id != id {
        lemma_find_id_found(accounts, id, from + 1);
    }
}

/// Whether every parent that `accounts` holds stands before its child.
pub open spec fn parents_first(accounts: Seq<Account>) -> bool {
    forall|i: int|
        0 <= i < accounts.len() ==> match #[trigger] accounts[i].parent {
            None => true,
            Some(p) => match find_id(accounts, p, 0) {
                None => true,
                Some(j) => j < i,
            },
        }
}

/// In a source ledger that lists each parent before its children, the walk up
/// from its account at place `i` never runs out of steps when it may take
/// `i` of them: it ends in a match, a mismatch or a missing parent, never in
/// [`LedgerError::CyclicParents`].
pub proof fn lemma_walk_never_runs_out(src: Seq<Account>, tgt: Seq<Account>, i: int, b: Account, fuel: nat)
    requires
        parents_first(src),
        0 <= i < src.len(),
        fuel >= i,
    ensures
        !(chain_matches(src, tgt, src[i], b, fuel) matches Err(LedgerError::CyclicParents(_))),
    decreases i,
{
    let a = src[i];
    if a.name@ == b.name@ {
        if let (Some(pa), Some(pb)) = (a.parent, b.parent) {
            if let Some(j) = find_id(src, pa, 0) {
                lemma_find_id_found(src, pa, 0);
                assert(j < i);
                if let Some(k) = find_id(tgt, pb, 0) {
                    lemma_walk_never_runs_out(src, tgt, j, tgt[k], (fuel - 1) as nat);
                }
            }
        }
    }
}

/// The search lists just the account at place `t` (none where `t` is out of
/// range) when it alone among the first `n` target accounts corresponds and
/// every other one was compared without error and does not.
pub proof fn lemma_matching_only(src: Seq<Account>, tgt: Seq<Account>, acc: Account, t: int, n: int)
    requires
        0 <= n <= tgt.len(),
        tgt.len() <= usize::MAX,
        forall|j: int|
            0 <= j < n && j != t ==> #[trigger] chain_matches(src, tgt, acc, tgt[j], src.len()) == Ok::<
                bool,
                LedgerError,
            >(false),
        0 <= t < n ==> chain_matches(src, tgt, acc, tgt[t], src.len()) == Ok::<bool, LedgerError>(true),
    ensures
        matching_targets(src, tgt, acc, n) == Ok::<Seq<usize>, LedgerError>(
            if 0 <= t < n {
                seq![t as usize]
            } else {
                Seq::empty()
            },
        ),
    decreases n,
{
    if n > 0 {
        lemma_matching_only(src, tgt, acc, t, n - 1);
        if t == n - 1 {
            assert(Seq::<usize>::empty().push(t as usize) =~= seq![t as usize]);
        } else {
            assert(chain_matches(src, tgt, acc, tgt[n - 1], src.len()) == Ok::<bool, LedgerError>(false));
        }
    }
}

/// A source account whose name chain only the target account at place `t`
/// shares, every other target account having been compared without error,
/// is translated to that account.
pub proof fn lemma_unique_correspondent(src: Seq<Account>, tgt: Seq<Account>, acc: Account, t: int)
    requires
        0 <= t < tgt.len(),
        tgt.len() <= usize::MAX,
        chain_matches(src, tgt, acc, tgt[t], src.len()) == Ok::<bool, LedgerError>(true),
        forall|j: int|
            0 <= j < tgt.len() && j != t ==> #[trigger] chain_matches(src, tgt, acc, tgt[j], src.len()) == Ok::<
                bool,
                LedgerError,
            >(false),
    ensures
        matching_targets(src, tgt, acc, tgt.len() as int) == Ok::<Seq<usize>, LedgerError>(seq![t as usize]),
{
    lemma_matching_only(src, tgt, acc, t, tgt.len() as int);
}

/// A source account that no target account corresponds to, every target
/// account having been compared without error, is translated to nothing.
pub proof fn lemma_no_correspondent(src: Seq<Account>, tgt: Seq<Account>, acc: Account)
    requires
        tgt.len() <= usize::MAX,
        forall|j: int|
            0 <= j < tgt.len() ==> #[trigger] chain_matches(src, tgt, acc, tgt[j], src.len()) == Ok::<
                bool,
                LedgerError,
            >(false),
    ensures
        matching_targets(src, tgt, acc, tgt.len() as int) == Ok::<Seq<usize>, LedgerError>(Seq::empty()),
{
    lemma_matching_only(src, tgt, acc, -1, tgt.len() as int);
}

/// Two distinct target accounts that both correspond leave the search with
/// no single answer: where it succeeds it lists more than one account, so the
/// source account is translated to nothing rather than to either of them.
pub proof fn lemma_ambiguous_correspondents(src: Seq<Account>, tgt: Seq<Account>, acc: Account, i: int, j: int)
    requires
        0 <= i < tgt.len(),
        0 <= j < tgt.len(),
        i != j,
        tgt.len() <= usize::MAX,
        chain_matches(src, tgt, acc, tgt[i], src.len()) == Ok::<bool, LedgerError>(true),
        chain_matches(src, tgt, acc, tgt[j], src.len()) == Ok::<bool, LedgerError>(true),
    ensures
        matching_targets(src, tgt, acc, tgt.len() as int) matches Ok(found) ==> found.len() > 1,
{
    let n = tgt.len() as int;
    if matching_targets(src, tgt, acc, n) is Ok {
        lemma_matching_targets_exact(src, tgt, acc, n);
        let found = matching_targets(src, tgt, acc, n)->Ok_0;
        assert(found.contains(i as usize));
        assert(found.contains(j as usize));
        let ki = choose|k: int| 0 <= k < found.len() && found[k] == i as usize;
        let kj = choose|k: int| 0 <= k < found.len() && found[k] == j as usize;
        assert(ki != kj);
    }
}

/// Likewise for the walk up towards an ancestor: in a ledger that lists each
/// parent before its children, it never reports a cycle.
pub proof fn lemma_walk_up_never_runs_out(accounts: Seq<Account>, i: int, target: AccountId, fuel: nat)
    requires
        parents_first(accounts),
        0 <= i < accounts.len(),
        fuel >= i,
    ensures
        !(descends_from(accounts, accounts[i], target, fuel) matches Err(LedgerError::CyclicParents(_))),
    decreases i,
{
    let a = accounts[i];
    if a.id != target {
        if let Some(p) = a.parent {
            if p != target {
                if let Some(j) = find_id(accounts, p, 0) {
                    lemma_find_id_found(accounts, p, 0);
                    assert(j < i);
                    lemma_walk_up_never_runs_out(accounts, j, target, (fuel - 1) as nat);
                }
            }
        }
    }
}

/// The matching search lists exactly the target accounts that correspond:
/// where it succeeds, every account it looked at was compared without error,
/// and a place is listed just when its account corresponds.
pub proof fn lemma_matching_targets_exact(src: Seq<Account>, tgt: Seq<Account>, acc: Account, n: int)
    requires
        0 <= n <= tgt.len(),
        tgt.len() <= usize::MAX,
        matching_targets(src, tgt, acc, n) is Ok,
    ensures
        forall|j: int|
            0 <= j < n ==> (#[trigger] chain_matches(src, tgt, acc, tgt[j], src.len())) is Ok && (chain_matches(
                src,
                tgt,
                acc,
                tgt[j],
                src.len(),
            ) == Ok::<bool, LedgerError>(true) <==> matching_targets(src, tgt, acc, n)->Ok_0.contains(j as usize)),
        forall|k: int|
            0 <= k < matching_targets(src, tgt, acc, n)->Ok_0.len() ==> #[trigger] matching_targets(
                src,
                tgt,
                acc,
                n,
            )->Ok_0[k] < n,
    decreases n,
{
    if n > 0 {
        lemma_matching_targets_exact(src, tgt, acc, n - 1);
        let prev = matching_targets(src, tgt, acc, n - 1)->Ok_0;
        let cur = matching_targets(src, tgt, acc, n)->Ok_0;
        let last = chain_matches(src, tgt, acc, tgt[n - 1], src.len());
        let m = (n - 1) as usize;
        assert(m as int == n - 1);
        if last == Ok::<bool, LedgerError>(true) {
            assert(cur == prev.push(m));
            assert(cur[prev.len() as int] == m);
        } else {
            assert(cur == prev);
        }
        assert forall|j: int| 0 <= j < n implies (#[trigger] chain_matches(src, tgt, acc, tgt[j], src.len())) is Ok
            && (chain_matches(src, tgt, acc, tgt[j], src.len()) == Ok::<bool, LedgerError>(true) <==> cur.contains(
            j as usize,
        )) by {
            if cur.contains(j as usize) {
                let k = choose|k: int| 0 <= k < cur.len() && cur[k] == j as usize;
                if k < prev.len() {
                    assert(prev[k] == cur[k]);
                    assert(prev.contains(j as usize));
                }
            }
            if j < n - 1 && prev.contains(j as usize) {
                let k = choose|k: int| 0 <= k < prev.len() && prev[k] == j as usize;
                assert(cur[k] == prev[k]);
            }
            if j == n - 1 && prev.contains(j as usize) {
                let k = choose|k: int| 0 <= k < prev.len() && prev[k] == j as usize;
                assert(prev[k] < n - 1);
            }
        }
        assert forall|k: int| 0 <= k < cur.len() implies #[trigger] cur[k] < n by {
            if k < prev.len() {
                assert(cur[k] == prev[k]);
            }
        }
    }
}

/// Whether `child` is the account `target` or lies below it, walking up
/// through the parents in `accounts`, at most `fuel` steps.
pub open spec fn descends_from(accounts: Seq<Account>, child: Account, target: AccountId, fuel: nat) -> Result<
    bool,
    LedgerError,
>
    decreases fuel,
{
    if child.id == target {
        Ok(true)
    } else {
        match child.parent {
            None => Ok(false),
            Some(p) => if p == target {
                Ok(true)
            } else {
                match find_id(accounts, p, 0) {
                    None => Err(LedgerError::DanglingAccountReference(p)),
                    Some(i) => if fuel == 0 {
                        Err(LedgerError::CyclicParents(child.id))
                    } else {
                        descends_from(accounts, accounts[i], target, (fuel - 1) as nat)
                    },
                }
            },
        }
    }
}

/// Whether `child` lies below (or is) one of `roots`, trying them in order;
/// the first error met on the way is the answer.
pub open spec fn under_any(accounts: Seq<Account>, child: Account, roots: Seq<AccountId>) -> Result<bool, LedgerError>
    decreases roots.len(),
{
    if roots.len() == 0 {
        Ok(false)
    } else {
        match descends_from(accounts, child, roots[0], accounts.len()) {
            Err(e) => Err(e),
            Ok(true) => Ok(true),
            Ok(false) => under_any(accounts, child, roots.drop_first()),
        }
    }
}

/// A closing balance to carry over: the account of the target ledger it goes
/// to, and the value and quantity to post there.
#[derive(Debug, Clone, Copy)]
pub struct OpeningBalance {
    pub account: AccountId,
    pub value: Fixed,
    pub quantity: Fixed,
}

/// What the account `acc` of `src` carries over to `tgt`: nothing where it has
/// no single corresponding account, where its total value or total quantity is
/// zero, or where the corresponding account lies below none of `roots`.
pub open spec fn carried_balance(src: Book, tgt: Book, acc: Account, roots: Seq<AccountId>) -> Result<
    Option<OpeningBalance>,
    LedgerError,
> {
    match matching_targets(src.accounts@, tgt.accounts@, acc, tgt.accounts@.len() as int) {
        Err(e) => Err(e),
        Ok(found) => if found.len() != 1 {
            Ok(None)
        } else {
            let t = tgt.accounts@[found[0] as int];
            match total_of(src.transactions@, acc.id) {
                Err(fe) => Err(LedgerError::FixedError(fe)),
                Ok((v, q)) => if v.0 == 0 || q.0 == 0 {
                    Ok(None)
                } else {
                    match under_any(tgt.accounts@, t, roots) {
                        Err(e) => Err(e),
                        Ok(false) => Ok(None),
                        Ok(true) => Ok(Some(OpeningBalance { account: t.id, value: v, quantity: q })),
                    }
                },
            }
        },
    }
}

/// The balances that the first `n` accounts of `src` carry over, in order, or
/// the first error met.
pub open spec fn carried_balances(src: Book, tgt: Book, roots: Seq<AccountId>, n: int) -> Result<
    Seq<OpeningBalance>,
    LedgerError,
>
    decreases n,
{
    if n <= 0 {
        Ok(Seq::empty())
    } else {
        match carried_balances(src, tgt, roots, n - 1) {
            Err(e) => Err(e),
            Ok(done) => match carried_balance(src, tgt, src.accounts@[n - 1], roots) {
                Err(e) => Err(e),
                Ok(None) => Ok(done),
                Ok(Some(b)) => Ok(done.push(b)),
            },
        }
    }
}

/// Once carrying balances over fails, it fails the same way over any longer
/// prefix of the source accounts.
proof fn lemma_carry_error_stays(src: Book, tgt: Book, roots: Seq<AccountId>, k: int, n: int)
    requires
        0 <= k <= n,
        carried_balances(src, tgt, roots, k) is Err,
    ensures
        carried_balances(src, tgt, roots, n) == carried_balances(src, tgt, roots, k),
    decreases n - k,
{
    if k < n {
        lemma_carry_error_stays(src, tgt, roots, k + 1, n);
    }
}

/// The (value, quantity) pairs that `splits` post to `id`, in order.
pub open spec fn split_postings(splits: Seq<Split>, id: AccountId) -> Seq<(Fixed, Fixed)>
    decreases splits.len(),
{
    if splits.len() == 0 {
        Seq::empty()
    } else {
        let rest = split_postings(splits.drop_last(), id);
        let s = splits.last();
        if s.account == id {
            rest.push((s.value, s.quantity))
        } else {
            rest
        }
    }
}

/// The (value, quantity) pairs that `transactions` post to `id`, in order.
pub open spec fn postings(transactions: Seq<Transaction>, id: AccountId) -> Seq<(Fixed, Fixed)>
    decreases transactions.len(),
{
    if transactions.len() == 0 {
        Seq::empty()
    } else {
        postings(transactions.drop_last(), id) + split_postings(transactions.last().splits@, id)
    }
}

/// The total value and total quantity posted to `id`: each side summed on
/// its own from `0/1`, or zero hundredths for both where nothing was posted.
pub open spec fn total_of(transactions: Seq<Transaction>, id: AccountId) -> Result<(Fixed, Fixed), FixedError> {
    if postings(transactions, id).len() == 0 {
        Ok((Fixed(0, 100), Fixed(0, 100)))
    } else {
        pair_sums((Fixed(0, 1), Fixed(0, 1)), postings(transactions, id))
    }
}

/// Asking a ledger for the total of an account twice gives the same answer
/// twice: the total depends on the transactions and the account alone.
pub proof fn lemma_total_idempotent(
    transactions: Seq<Transaction>,
    id: AccountId,
    first: Result<(Fixed, Fixed), FixedError>,
    second: Result<(Fixed, Fixed), FixedError>,
)
    requires
        first == total_of(transactions, id),
        second == total_of(transactions, id),
    ensures
        first == second,
{
}

/// A collection that yields its item when it holds exactly one.
pub trait Single<T>: Sized {
    spec fn items(&self) -> Seq<T>;

    /// The only item, or `None` where there are none or several.
    fn single(self) -> (r: Option<T>)
        ensures
            r is Some <==> self.items().len() == 1,
            r matches Some(x) ==> x == self.items()[0],
    ;
}

impl<T> Single<T> for Vec<T> {
    open spec fn items(&self) -> Seq<T> {
        self@
    }

    fn single(self) -> (r: Option<T>) {
        let mut v = self;
        if v.len() == 1 {
            v.pop()
        } else {
            None
        }
    }
}

/// The place of the first account of `accounts` with the identity `id`.
pub fn find_account(accounts: &Vec<Account>, id: AccountId) -> (r: Option<usize>)
    ensures
        r matches Some(i) ==> i < accounts@.len() && accounts@[i as int].id == id && find_id(
            accounts@,
            id,
            0,
        ) == Some(i as int),
        r is None ==> find_id(accounts@, id, 0) is None,
{
    let mut i: usize = 0;
    while i < accounts.len()
        invariant
            i <= accounts@.len(),
            find_id(accounts@, id, 0) == find_id(accounts@, id, i as int),
        decreases accounts@.len() - i,
    {
        if accounts[i].id == id {
            return Some(i);
        }
        i = i + 1;
    }
    None
}

impl Book {
    /// The total value and total quantity posted to `acc`, over all
    /// transactions, each side summed on its own from `0/1`; `0/100` for each
    /// where nothing was posted.
    pub fn get_account_total(&self, acc: &Account) -> (r: Result<(Fixed, Fixed), FixedError>)
        ensures
            r == total_of(self.transactions@, acc.id),
    {
        let mut pairs: Vec<(Fixed, Fixed)> = Vec::new();
        let mut t: usize = 0;
        while t < self.transactions.len()
            invariant
                t <= self.transactions@.len(),
                pairs@ == postings(self.transactions@.subrange(0, t as int), acc.id),
            decreases self.transactions@.len() - t,
        {
            let tr = &self.transactions[t];
            let ghost before = pairs@;
            let mut k: usize = 0;
            while k < tr.splits.len()
                invariant
                    k <= tr.splits@.len(),
                    pairs@ == before + split_postings(tr.splits@.subrange(0, k as int), acc.id),
                decreases tr.splits@.len() - k,
            {
                let s = &tr.splits[k];
                assert(tr.splits@.subrange(0, k + 1).drop_last() =~= tr.splits@.subrange(0, k as int));
                if s.account == acc.id {
                    pairs.push((s.value, s.quantity));
                }
                k = k + 1;
                assert(pairs@ =~= before + split_postings(tr.splits@.subrange(0, k as int), acc.id));
            }
            assert(tr.splits@.subrange(0, k as int) =~= tr.splits@);
            assert(self.transactions@.subrange(0, t + 1).drop_last() =~= self.transactions@.subrange(
                0,
                t as int,
            ));
            t = t + 1;
        }
        assert(self.transactions@.subrange(0, t as int) =~= self.transactions@);
        if pairs.len() == 0 {
            return Ok((Fixed(0, 100), Fixed(0, 100)));
        }
        unzip_sums((Fixed(0, 1), Fixed(0, 1)), &pairs)
    }

    /// Drops every transaction, keeping the accounts.
    pub fn clear_transactions(&mut self)
        ensures
            final(self).accounts@ == old(self).accounts@,
            final(self).transactions@.len() == 0,
    {
        self.transactions.clear();
    }

    /// Whether `source_acc` of `source` corresponds to `target_acc` of
    /// `target`, as [`chain_matches`] says, with the walk bounded by the number
    /// of accounts of `source` (an acyclic chain is never longer).
    pub fn check_parents(source: &Book, target: &Book, source_acc: &Account, target_acc: &Account) -> (r:
        Result<bool, LedgerError>)
        ensures
            r == chain_matches(
                source.accounts@,
                target.accounts@,
                *source_acc,
                *target_acc,
                source.accounts@.len(),
            ),
    {
        Book::walk_parents(source, target, source_acc, target_acc, source.accounts.len())
    }

    fn walk_parents(source: &Book, target: &Book, a: &Account, b: &Account, fuel: usize) -> (r: Result<
        bool,
        LedgerError,
    >)
        ensures
            r == chain_matches(source.accounts@, target.accounts@, *a, *b, fuel as nat),
        decreases fuel,
    {
        if a.name != b.name {
            return Ok(false);
        }
        match (a.parent, b.parent) {
            (Some(pa), Some(pb)) => {
                let i = match find_account(&source.accounts, pa) {
                    Some(i) => i,
                    None => {
                        return Err(LedgerError::DanglingAccountReference(pa));
                    },
                };
                let j = match find_account(&target.accounts, pb) {
                    Some(j) => j,
                    None => {
                        return Err(LedgerError::DanglingAccountReference(pb));
                    },
                };
                if fuel == 0 {
                    return Err(LedgerError::CyclicParents(a.id));
                }
                Book::walk_parents(source, target, &source.accounts[i], &target.accounts[j], fuel - 1)
            },
            (None, None) => Ok(true),
            _ => Ok(false),
        }
    }

    /// The one account of `target` that corresponds to `account` of `source`,
    /// or `None` where there is none or more than one.
    pub fn translate_account<'b>(source: &Book, target: &'b Book, account: &Account) -> (r: Result<
        Option<&'b Account>,
        LedgerError,
    >)
        ensures
            match matching_targets(
                source.accounts@,
                target.accounts@,
                *account,
                target.accounts@.len() as int,
            ) {
                Err(e) => r == Err::<Option<&Account>, LedgerError>(e),
                Ok(found) => if found.len() == 1 {
                    r matches Ok(Some(a)) && *a == target.accounts@[found[0] as int]
                } else {
                    r matches Ok(None)
                },
            },
    {
        let mut found: Vec<usize> = Vec::new();
        let mut i: usize = 0;
        while i < target.accounts.len()
            invariant
                i <= target.accounts@.len(),
                forall|k: int| 0 <= k < found@.len() ==> found@[k] < i,
                matching_targets(source.accounts@, target.accounts@, *account, i as int) == Ok::<
                    Seq<usize>,
                    LedgerError,
                >(found@),
            decreases target.accounts@.len() - i,
        {
            match Book::check_parents(source, target, account, &target.accounts[i]) {
                Ok(true) => {
                    found.push(i);
                },
                Ok(false) => {},
                Err(e) => {
                    proof {
                        lemma_matching_error_stays(
                            source.accounts@,
                            target.accounts@,
                            *account,
                            i as int + 1,
                            target.accounts@.len() as int,
                        );
                    }
                    return Err(e);
                },
            }
            i = i + 1;
        }
        match found.single() {
            Some(k) => Ok(Some(&target.accounts[k])),
            None => Ok(None),
        }
    }

    /// Whether `child` lies below (or is) one of `roots`, as [`under_any`] says.
    pub fn is_under_any(&self, child: &Account, roots: &Vec<AccountId>) -> (r: Result<bool, LedgerError>)
        ensures
            r == under_any(self.accounts@, *child, roots@),
    {
        let mut k: usize = 0;
        assert(roots@.subrange(0, roots@.len() as int) =~= roots@);
        while k < roots.len()
            invariant
                k <= roots@.len(),
                under_any(self.accounts@, *child, roots@) == under_any(
                    self.accounts@,
                    *child,
                    roots@.subrange(k as int, roots@.len() as int),
                ),
            decreases roots@.len() - k,
        {
            let ghost rest = roots@.subrange(k as int, roots@.len() as int);
            assert(rest.drop_first() =~= roots@.subrange(k + 1, roots@.len() as int));
            assert(rest[0] == roots@[k as int]);
            match self.walk_up(child, roots[k], self.accounts.len()) {
                Err(e) => {
                    return Err(e);
                },
                Ok(true) => {
                    return Ok(true);
                },
                Ok(false) => {},
            }
            k = k + 1;
        }
        assert(roots@.subrange(k as int, roots@.len() as int) =~= Seq::<AccountId>::empty());
        Ok(false)
    }

    /// The closing balances of `source` to carry over to `target`, one for
    /// each source account that has a single corresponding account below one
    /// of `roots` and a nonzero total value and quantity, in the order of the
    /// source accounts.
    pub fn opening_balances(source: &Book, target: &Book, roots: &Vec<AccountId>) -> (r: Result<
        Vec<OpeningBalance>,
        LedgerError,
    >)
        ensures
            match carried_balances(*source, *target, roots@, source.accounts@.len() as int) {
                Ok(bs) => r matches Ok(v) && v@ == bs,
                Err(e) => r matches Err(x) && x == e,
            },
    {
        let mut out: Vec<OpeningBalance> = Vec::new();
        let mut i: usize = 0;
        while i < source.accounts.len()
            invariant
                i <= source.accounts@.len(),
                carried_balances(*source, *target, roots@, i as int) == Ok::<Seq<OpeningBalance>, LedgerError>(
                    out@,
                ),
            decreases source.accounts@.len() - i,
        {
            let acc = &source.accounts[i];
            let step = Book::carry_one(source, target, acc, roots);
            match step {
                Err(e) => {
                    proof {
                        lemma_carry_error_stays(
                            *source,
                            *target,
                            roots@,
                            i as int + 1,
                            source.accounts@.len() as int,
                        );
                    }
                    return Err(e);
                },
                Ok(None) => {},
                Ok(Some(b)) => {
                    out.push(b);
                },
            }
            i = i + 1;
        }
        Ok(out)
    }

    /// What the account `acc` of `source` carries over, as [`carried_balance`] says.
    fn carry_one(source: &Book, target: &Book, acc: &Account, roots: &Vec<AccountId>) -> (r: Result<
        Option<OpeningBalance>,
        LedgerError,
    >)
        ensures
            r == carried_balance(*source, *target, *acc, roots@),
    {
        let t = match Book::translate_account(source, target, acc) {
            Err(e) => {
                return Err(e);
            },
            Ok(None) => {
                return Ok(None);
            },
            Ok(Some(t)) => t,
        };
        let (v, q) = match source.get_account_total(acc) {
            Err(fe) => {
                return Err(LedgerError::FixedError(fe));
            },
            Ok(vq) => vq,
        };
        if v.is_zero() || q.is_zero() {
            return Ok(None);
        }
        match target.is_under_any(t, roots) {
            Err(e) => Err(e),
            Ok(false) => Ok(None),
            Ok(true) => Ok(Some(OpeningBalance { account: t.id, value: v, quantity: q })),
        }
    }

    /// Whether `child` is `target` or lies below it in this ledger, as
    /// [`descends_from`] says, with the walk bounded by the number of accounts.
    pub fn is_child_of(&self, child: &Account, target: &Account) -> (r: Result<bool, LedgerError>)
        ensures
            r == descends_from(self.accounts@, *child, target.id, self.accounts@.len()),
    {
        self.walk_up(child, target.id, self.accounts.len())
    }

    fn walk_up(&self, child: &Account, target: AccountId, fuel: usize) -> (r: Result<bool, LedgerError>)
        ensures
            r == descends_from(self.accounts@, *child, target, fuel as nat),
        decreases fuel,
    {
        if child.id == target {
            return Ok(true);
        }
        match child.parent {
            None => Ok(false),
            Some(p) => {
                if p == target {
                    return Ok(true);
                }
                match find_account(&self.accounts, p) {
                    None => Err(LedgerError::DanglingAccountReference(p)),
                    Some(i) => {
                        if fuel == 0 {
                            return Err(LedgerError::CyclicParents(child.id));
                        }
                        self.walk_up(&self.accounts[i], target, fuel - 1)
                    },
                }
            },
        }
    }
}

/// Once the search for matching accounts fails, it fails the same way over
/// any longer prefix.
proof fn lemma_matching_error_stays(src: Seq<Account>, tgt: Seq<Account>, acc: Account, k: int, n: int)
    requires
        0 <= k <= n,
        matching_targets(src, tgt, acc, k) is Err,
    ensures
        matching_targets(src, tgt, acc, n) == matching_targets(src, tgt, acc, k),
    decreases n - k,
{
    if k < n {
        lemma_matching_error_stays(src, tgt, acc, k + 1, n);
    }
}

} // verus!
