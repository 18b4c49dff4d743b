use gnc_carry::fixed::{Fixed, FixedError};
use gnc_carry::ledger::{find_account, Account, AccountId, Book, LedgerError, Single, Split, Transaction};

fn account(name: &str, id: u128, parent: Option<u128>) -> Account {
    Account {
        name: name.to_string(),
        id: AccountId(id),
        acc_type: "ASSET".to_string(),
        parent: parent.map(AccountId),
        is_readonly: false,
    }
}

fn book(accounts: Vec<Account>) -> Book {
    Book { accounts, transactions: Vec::new() }
}

fn split(id: u128, account: u128, value: Fixed, quantity: Fixed) -> Split {
    Split { id, memo: None, value, quantity, account: AccountId(account) }
}

fn transaction(id: u128, splits: Vec<Split>) -> Transaction {
    Transaction { id, date_posted: 0, date_entered: 0, description: String::new(), splits }
}

fn source_tree() -> Book {
    book(vec![account("Root", 1, None), account("Assets", 2, Some(1)), account("Bank", 3, Some(2))])
}

#[test]
fn translate_matches_same_shape() {
    let source = source_tree();
    let target = book(vec![
        account("Bank", 30, Some(20)),
        account("Root", 10, None),
        account("Assets", 20, Some(10)),
    ]);
    let found = Book::translate_account(&source, &target, &source.accounts[2]).unwrap();
    assert_eq!(found.map(|a| a.id), Some(AccountId(30)));
}

#[test]
fn translate_rejects_renamed_ancestor() {
    let source = source_tree();
    let target = book(vec![
        account("Root", 10, None),
        account("CurrentAssets", 20, Some(10)),
        account("Bank", 30, Some(20)),
    ]);
    let found = Book::translate_account(&source, &target, &source.accounts[2]).unwrap();
    assert!(found.is_none());
}

#[test]
fn translate_refuses_ambiguous_match() {
    let source = source_tree();
    let target = book(vec![
        account("Root", 10, None),
        account("Assets", 20, Some(10)),
        account("Bank", 30, Some(20)),
        account("Assets", 21, Some(10)),
        account("Bank", 31, Some(21)),
    ]);
    let found = Book::translate_account(&source, &target, &source.accounts[2]).unwrap();
    assert!(found.is_none());
}

#[test]
fn translate_tells_same_leaf_name_apart() {
    let source = source_tree();
    let target = book(vec![
        account("Root", 10, None),
        account("Equity", 20, Some(10)),
        account("Bank", 30, Some(20)),
        account("Assets", 21, Some(10)),
        account("Bank", 31, Some(21)),
    ]);
    let found = Book::translate_account(&source, &target, &source.accounts[2]).unwrap();
    assert_eq!(found.map(|a| a.id), Some(AccountId(31)));
}

#[test]
fn root_does_not_match_non_root() {
    let source = book(vec![account("Bank", 1, None)]);
    let target = book(vec![account("Root", 10, None), account("Bank", 11, Some(10))]);
    assert!(matches!(Book::check_parents(&source, &target, &source.accounts[0], &target.accounts[1]), Ok(false)));
    assert!(matches!(Book::check_parents(&source, &target, &source.accounts[0], &target.accounts[0]), Ok(false)));
    let found = Book::translate_account(&source, &target, &source.accounts[0]).unwrap();
    assert!(found.is_none());
}

#[test]
fn dangling_parent_is_an_error() {
    let source = book(vec![account("Bank", 3, Some(99))]);
    let target = book(vec![account("Root", 10, None), account("Bank", 30, Some(10))]);
    let r = Book::translate_account(&source, &target, &source.accounts[0]);
    assert!(matches!(r, Err(LedgerError::DanglingAccountReference(AccountId(99)))));
}

#[test]
fn cyclic_parents_are_an_error() {
    let source = book(vec![account("A", 1, Some(2)), account("A", 2, Some(1))]);
    let target = book(vec![account("A", 10, Some(10))]);
    let r = Book::check_parents(&source, &target, &source.accounts[0], &target.accounts[0]);
    assert!(matches!(r, Err(LedgerError::CyclicParents(_))));
}

#[test]
fn total_sums_postings() {
    let mut ledger = source_tree();
    ledger.transactions = vec![
        transaction(100, vec![split(1, 3, Fixed(30, 100), Fixed(30, 100)), split(2, 2, Fixed(-30, 100), Fixed(-30, 100))]),
        transaction(101, vec![split(3, 3, Fixed(-10, 100), Fixed(-10, 100)), split(4, 2, Fixed(10, 100), Fixed(10, 100))]),
        transaction(102, vec![split(5, 3, Fixed(5, 100), Fixed(5, 100)), split(6, 2, Fixed(-5, 100), Fixed(-5, 100))]),
    ];
    let (v, q) = ledger.get_account_total(&ledger.accounts[2]).unwrap();
    assert_eq!((v.0, v.1, q.0, q.1), (25, 100, 25, 100));
    let (v, q) = ledger.get_account_total(&ledger.accounts[0]).unwrap();
    assert_eq!((v.0, v.1, q.0, q.1), (0, 100, 0, 100));
}

#[test]
fn total_sums_repeated_splits_of_one_account() {
    let mut ledger = source_tree();
    ledger.transactions =
        vec![transaction(100, vec![split(1, 3, Fixed(1, 10), Fixed(1, 1)), split(2, 3, Fixed(2, 100), Fixed(2, 1))])];
    let (v, q) = ledger.get_account_total(&ledger.accounts[2]).unwrap();
    assert_eq!((v.0, v.1, q.0, q.1), (12, 100, 3, 1));
}

#[test]
fn total_is_idempotent() {
    let mut ledger = source_tree();
    ledger.transactions = vec![transaction(100, vec![split(1, 3, Fixed(42, 100), Fixed(4, 10))])];
    let first = ledger.get_account_total(&ledger.accounts[2]).unwrap();
    let second = ledger.get_account_total(&ledger.accounts[2]).unwrap();
    assert_eq!((first.0 .0, first.0 .1, first.1 .0, first.1 .1), (second.0 .0, second.0 .1, second.1 .0, second.1 .1));
    assert_eq!((first.0 .0, first.0 .1, first.1 .0, first.1 .1), (42, 100, 4, 10));
}

#[test]
fn total_starts_from_zero_over_one() {
    let mut ledger = source_tree();
    ledger.transactions = vec![transaction(100, vec![split(1, 3, Fixed(1, 3), Fixed(1, 7))])];
    let (v, q) = ledger.get_account_total(&ledger.accounts[2]).unwrap();
    assert_eq!((v.0, v.1, q.0, q.1), (1, 3, 1, 7));
}

#[test]
fn total_reports_incommensurable_amounts() {
    let mut ledger = source_tree();
    ledger.transactions =
        vec![transaction(100, vec![split(1, 3, Fixed(1, 3), Fixed(1, 3)), split(2, 3, Fixed(1, 2), Fixed(1, 2))])];
    assert!(matches!(
        ledger.get_account_total(&ledger.accounts[2]),
        Err(FixedError::IncommensurableDenominators)
    ));
}

#[test]
fn clear_transactions_keeps_accounts() {
    let mut ledger = source_tree();
    ledger.transactions = vec![transaction(100, vec![])];
    ledger.clear_transactions();
    assert_eq!(ledger.transactions.len(), 0);
    assert_eq!(ledger.accounts.len(), 3);
}

#[test]
fn child_of_walks_up_the_tree() {
    let ledger = source_tree();
    assert!(matches!(ledger.is_child_of(&ledger.accounts[2], &ledger.accounts[0]), Ok(true)));
    assert!(matches!(ledger.is_child_of(&ledger.accounts[2], &ledger.accounts[2]), Ok(true)));
    assert!(matches!(ledger.is_child_of(&ledger.accounts[0], &ledger.accounts[2]), Ok(false)));
    let broken = book(vec![account("Bank", 3, Some(2)), account("Assets", 2, Some(7))]);
    assert!(matches!(broken.is_child_of(&broken.accounts[0], &account("X", 9, None)), Err(LedgerError::DanglingAccountReference(AccountId(7)))));
}

#[test]
fn find_account_gives_first_place() {
    let accounts = vec![account("A", 1, None), account("B", 2, None), account("C", 2, None)];
    assert_eq!(find_account(&accounts, AccountId(2)), Some(1));
    assert_eq!(find_account(&accounts, AccountId(5)), None);
}

#[test]
fn single_needs_exactly_one() {
    assert_eq!(vec![7].single(), Some(7));
    assert_eq!(Vec::<i32>::new().single(), None);
    assert_eq!(vec![7, 8].single(), None);
}

#[test]
fn opening_balances_carry_nonzero_totals_below_roots() {
    let mut source = book(vec![
        account("Root", 1, None),
        account("Assets", 2, Some(1)),
        account("Bank", 3, Some(2)),
        account("Income", 4, Some(1)),
        account("Cash", 5, Some(2)),
    ]);
    source.transactions = vec![
        transaction(100, vec![split(1, 3, Fixed(30, 100), Fixed(30, 100)), split(2, 4, Fixed(-30, 100), Fixed(-30, 100))]),
        transaction(101, vec![split(3, 3, Fixed(-5, 100), Fixed(-5, 100)), split(4, 4, Fixed(5, 100), Fixed(5, 100))]),
    ];
    let target = book(vec![
        account("Root", 10, None),
        account("Assets", 20, Some(10)),
        account("Bank", 30, Some(20)),
        account("Income", 40, Some(10)),
        account("Cash", 50, Some(20)),
    ]);
    let balances = Book::opening_balances(&source, &target, &vec![AccountId(20)]).unwrap();
    assert_eq!(balances.len(), 1);
    assert_eq!(balances[0].account, AccountId(30));
    assert_eq!((balances[0].value.0, balances[0].value.1), (25, 100));
    assert_eq!((balances[0].quantity.0, balances[0].quantity.1), (25, 100));
    let both = Book::opening_balances(&source, &target, &vec![AccountId(20), AccountId(40)]).unwrap();
    assert_eq!(both.iter().map(|b| b.account).collect::<Vec<_>>(), vec![AccountId(30), AccountId(40)]);
    assert_eq!((both[1].value.0, both[1].value.1), (-25, 100));
}

#[test]
fn opening_balances_report_dangling_parents() {
    let source = book(vec![account("Bank", 3, Some(2))]);
    let target = book(vec![account("Bank", 30, Some(20))]);
    assert!(matches!(
        Book::opening_balances(&source, &target, &vec![]),
        Err(LedgerError::DanglingAccountReference(AccountId(2)))
    ));
}

#[test]
fn under_any_tries_each_root() {
    let ledger = source_tree();
    assert!(matches!(ledger.is_under_any(&ledger.accounts[2], &vec![AccountId(9), AccountId(2)]), Ok(true)));
    assert!(matches!(ledger.is_under_any(&ledger.accounts[0], &vec![AccountId(2)]), Ok(false)));
    assert!(matches!(ledger.is_under_any(&ledger.accounts[0], &vec![]), Ok(false)));
}

#[test]
fn translate_against_empty_target() {
    let source = source_tree();
    let target = book(vec![]);
    let found = Book::translate_account(&source, &target, &source.accounts[2]).unwrap();
    assert!(found.is_none());
}
