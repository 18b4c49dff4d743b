//! Reading the records of a GnuCash book into a [`Book`].
use vstd::prelude::*;

use crate::bindings::{ActSlotsSlot, GncAccount, GncBook, GncTransaction, TrnSplit};
use crate::fixed::{first_slash, fixed_of_parts, has_slash, parses_to, Fixed};
use crate::ledger::{Account, AccountId, Book, LedgerError, Split, Transaction};
use crate::outside::{instant_of_text, parse_instant_text, parse_uuid_text, uuid_of_text};
use crate::text::same_text;

verus! {

/// The identifier that an optional text field writes, if it is there and writes one.
pub open spec fn uuid_field(text: Option<String>) -> Option<u128> {
    match text {
        Some(t) => uuid_of_text(t@),
        None => None,
    }
}

/// Whether `e` is the error for an identifier field `text`, named `what`,
/// that does not give an identifier.
pub open spec fn uuid_field_error(text: Option<String>, what: &'static str, e: LedgerError) -> bool {
    match text {
        None => e == LedgerError::MissingValue(what),
        Some(_) => e is UuidError,
    }
}

/// The amount that the text `s` writes, if it writes one.
pub open spec fn fixed_field(s: Seq<char>) -> Option<Fixed> {
    if has_slash(s) {
        match fixed_of_parts(s.subrange(0, first_slash(s)), s.subrange(first_slash(s) + 1, s.len() as int)) {
            Ok(f) => Some(f),
            Err(_) => None,
        }
    } else {
        None
    }
}

/// The first place at or after `from` of a slot keyed `key`.
pub open spec fn slot_with_key(slots: Seq<ActSlotsSlot>, key: Seq<char>, from: int) -> Option<int>
    decreases slots.len() - from,
{
    if from < 0 || from >= slots.len() {
        None
    } else if slots[from].slot_key@ == key {
        Some(from)
    } else {
        slot_with_key(slots, key, from + 1)
    }
}

/// The parent that the account record names: `Some(None)` for none, and
/// `None` where the one it names is not an identifier.
pub open spec fn parent_field(g: GncAccount) -> Option<Option<AccountId>> {
    match g.act_parent {
        None => Some(None),
        Some(p) => match uuid_field(p.text) {
            Some(v) => Some(Some(AccountId(v))),
            None => None,
        },
    }
}

/// Whether the account record is marked as a placeholder, which makes the
/// account read-only; `None` where the mark has no value.
pub open spec fn readonly_field(g: GncAccount) -> Option<bool> {
    match g.act_slots {
        None => Some(false),
        Some(slots) => match slot_with_key(slots.slot@, "placeholder"@, 0) {
            None => Some(false),
            Some(i) => match slots.slot@[i].slot_value.text {
                None => None,
                Some(t) => Some(t@ == "true"@),
            },
        },
    }
}

/// Whether the account record can be read.
pub open spec fn account_readable(g: GncAccount) -> bool {
    uuid_field(g.act_id.text) is Some && parent_field(g) is Some && readonly_field(g) is Some
}

/// Whether `a` is what the account record `g` reads as.
pub open spec fn account_read(g: GncAccount, a: Account) -> bool {
    &&& a.name@ == g.act_name@
    &&& Some(a.id.0) == uuid_field(g.act_id.text)
    &&& a.acc_type@ == g.act_type@
    &&& Some(a.parent) == parent_field(g)
    &&& Some(a.is_readonly) == readonly_field(g)
}

/// Whether the split record can be read.
pub open spec fn split_readable(g: TrnSplit) -> bool {
    &&& uuid_field(g.split_id.text) is Some
    &&& fixed_field(g.split_value@) is Some
    &&& fixed_field(g.split_quantity@) is Some
    &&& uuid_field(g.split_account.text) is Some
}

/// Whether `s` is what the split record `g` reads as.
pub open spec fn split_read(g: TrnSplit, s: Split) -> bool {
    &&& Some(s.id) == uuid_field(g.split_id.text)
    &&& s.memo == g.split_memo
    &&& Some(s.value) == fixed_field(g.split_value@)
    &&& Some(s.quantity) == fixed_field(g.split_quantity@)
    &&& Some(s.account.0) == uuid_field(g.split_account.text)
}

/// Whether the transaction record can be read.
pub open spec fn transaction_readable(g: GncTransaction) -> bool {
    &&& uuid_field(g.trn_id.text) is Some
    &&& instant_of_text(g.trn_date_posted.ts_date@) is Some
    &&& instant_of_text(g.trn_date_entered.ts_date@) is Some
    &&& forall|i: int|
        0 <= i < g.trn_splits.trn_split@.len() ==> split_readable(#[trigger] g.trn_splits.trn_split@[i])
}

/// Whether `t` is what the transaction record `g` reads as.
pub open spec fn transaction_read(g: GncTransaction, t: Transaction) -> bool {
    &&& Some(t.id) == uuid_field(g.trn_id.text)
    &&& Some(t.date_posted) == instant_of_text(g.trn_date_posted.ts_date@)
    &&& Some(t.date_entered) == instant_of_text(g.trn_date_entered.ts_date@)
    &&& t.description@ == g.trn_description@
    &&& t.splits@.len() == g.trn_splits.trn_split@.len()
    &&& forall|i: int|
        0 <= i < t.splits@.len() ==> split_read(#[trigger] g.trn_splits.trn_split@[i], t.splits@[i])
}

/// Whether the book record can be read.
pub open spec fn book_readable(g: GncBook) -> bool {
    &&& forall|i: int| 0 <= i < g.gnc_account@.len() ==> account_readable(#[trigger] g.gnc_account@[i])
    &&& forall|i: int|
        0 <= i < g.gnc_transaction@.len() ==> transaction_readable(#[trigger] g.gnc_transaction@[i])
}

/// Whether `b` is what the book record `g` reads as.
pub open spec fn book_read(g: GncBook, b: Book) -> bool {
    &&& b.accounts@.len() == g.gnc_account@.len()
    &&& forall|i: int| 0 <= i < b.accounts@.len() ==> account_read(#[trigger] g.gnc_account@[i], b.accounts@[i])
    &&& b.transactions@.len() == g.gnc_transaction@.len()
    &&& forall|i: int|
        0 <= i < b.transactions@.len() ==> transaction_read(
            #[trigger] g.gnc_transaction@[i],
            b.transactions@[i],
        )
}

/// Whether `e` is the error of reading the amount text `s`.
pub open spec fn amount_error(s: Seq<char>, e: LedgerError) -> bool {
    e matches LedgerError::FixedError(fe) && parses_to(s, Err(fe))
}

/// Whether `e` is the error of reading the account record `g`: that of its
/// first field that cannot be read.
pub open spec fn account_error(g: GncAccount, e: LedgerError) -> bool {
    if uuid_field(g.act_id.text) is None {
        uuid_field_error(g.act_id.text, "act:id", e)
    } else if parent_field(g) is None {
        uuid_field_error(g.act_parent->0.text, "act:parent->value", e)
    } else {
        e == LedgerError::MissingValue("slot:value->value")
    }
}

/// Whether `e` is the error of reading the split record `g`: that of its
/// first field that cannot be read.
pub open spec fn split_error(g: TrnSplit, e: LedgerError) -> bool {
    if uuid_field(g.split_id.text) is None {
        uuid_field_error(g.split_id.text, "split:id", e)
    } else if fixed_field(g.split_value@) is None {
        amount_error(g.split_value@, e)
    } else if fixed_field(g.split_quantity@) is None {
        amount_error(g.split_quantity@, e)
    } else {
        uuid_field_error(g.split_account.text, "split:account", e)
    }
}

/// Whether `e` is the error of reading the transaction record `g`: that of
/// its first field that cannot be read, or of its first unreadable split.
pub open spec fn transaction_error(g: GncTransaction, e: LedgerError) -> bool {
    if uuid_field(g.trn_id.text) is None {
        uuid_field_error(g.trn_id.text, "trn:id", e)
    } else if instant_of_text(g.trn_date_posted.ts_date@) is None || instant_of_text(
        g.trn_date_entered.ts_date@,
    ) is None {
        e is DateTimeError
    } else {
        exists|k: int|
            0 <= k < g.trn_splits.trn_split@.len() && !split_readable(#[trigger] g.trn_splits.trn_split@[k])
                && split_error(g.trn_splits.trn_split@[k], e) && forall|j: int|
                0 <= j < k ==> split_readable(#[trigger] g.trn_splits.trn_split@[j])
    }
}

/// Whether `e` is the error of reading the book record `g`: that of its first
/// unreadable account, or, where all accounts can be read, of its first
/// unreadable transaction.
pub open spec fn book_error(g: GncBook, e: LedgerError) -> bool {
    if exists|k: int| 0 <= k < g.gnc_account@.len() && !account_readable(#[trigger] g.gnc_account@[k]) {
        exists|k: int|
            0 <= k < g.gnc_account@.len() && !account_readable(#[trigger] g.gnc_account@[k]) && account_error(
                g.gnc_account@[k],
                e,
            ) && forall|j: int| 0 <= j < k ==> account_readable(#[trigger] g.gnc_account@[j])
    } else {
        exists|k: int|
            0 <= k < g.gnc_transaction@.len() && !transaction_readable(#[trigger] g.gnc_transaction@[k])
                && transaction_error(g.gnc_transaction@[k], e) && forall|j: int|
                0 <= j < k ==> transaction_readable(#[trigger] g.gnc_transaction@[j])
    }
}

/// Reads the identifier field `source`; `missing` names it in the error
/// for a field that is not there.
pub fn parse_uuid(source: &Option<String>, missing: &'static str) -> (r: Result<u128, LedgerError>)
    ensures
        match uuid_field(*source) {
            Some(v) => r == Ok::<u128, LedgerError>(v),
            None => r matches Err(e) && uuid_field_error(*source, missing, e),
        },
{
    match source {
        None => Err(LedgerError::MissingValue(missing)),
        Some(t) => match parse_uuid_text(t.as_str()) {
            Ok(v) => Ok(v),
            Err(e) => Err(LedgerError::UuidError(e)),
        },
    }
}

/// Reads an amount field.
fn parse_amount(s: &String) -> (r: Result<Fixed, LedgerError>)
    ensures
        match fixed_field(s@) {
            Some(f) => r == Ok::<Fixed, LedgerError>(f),
            None => r matches Err(LedgerError::FixedError(fe)) && parses_to(s@, Err(fe)),
        },
{
    let r = Fixed::from_str(s.as_str());
    match r {
        Ok(f) => Ok(f),
        Err(fe) => Err(LedgerError::FixedError(fe)),
    }
}

/// The place of the first slot keyed `placeholder`.
fn find_placeholder(slots: &Vec<ActSlotsSlot>) -> (r: Option<usize>)
    ensures
        r matches Some(i) ==> i < slots@.len() && slot_with_key(slots@, "placeholder"@, 0) == Some(
            i as int,
        ),
        r is None ==> slot_with_key(slots@, "placeholder"@, 0) is None,
{
    let mut i: usize = 0;
    while i < slots.len()
        invariant
            i <= slots@.len(),
            slot_with_key(slots@, "placeholder"@, 0) == slot_with_key(slots@, "placeholder"@, i as int),
        decreases slots@.len() - i,
    {
        if same_text(slots[i].slot_key.as_str(), "placeholder") {
            return Some(i);
        }
        i = i + 1;
    }
    None
}

impl Account {
    /// Reads an account record.
    pub fn try_from(value: &GncAccount) -> (r: Result<Account, LedgerError>)
        ensures
            r is Ok <==> account_readable(*value),
            r matches Ok(a) ==> account_read(*value, a),
            !account_readable(*value) ==> (r matches Err(e) && account_error(*value, e)),
    {
        let id = match parse_uuid(&value.act_id.text, "act:id") {
            Ok(v) => v,
            Err(e) => {
                return Err(e);
            },
        };
        let parent = match &value.act_parent {
            None => None,
            Some(p) => match parse_uuid(&p.text, "act:parent->value") {
                Ok(v) => Some(AccountId(v)),
                Err(e) => {
                    return Err(e);
                },
            },
        };
        let is_readonly = match &value.act_slots {
            None => false,
            Some(slots) => match find_placeholder(&slots.slot) {
                None => false,
                Some(i) => match &slots.slot[i].slot_value.text {
                    None => {
                        return Err(LedgerError::MissingValue("slot:value->value"));
                    },
                    Some(t) => same_text(t.as_str(), "true"),
                },
            },
        };
        Ok(Account {
            name: value.act_name.clone(),
            id: AccountId(id),
            acc_type: value.act_type.clone(),
            parent,
            is_readonly,
        })
    }
}

impl Split {
    /// Reads a split record.
    pub fn try_from(value: &TrnSplit) -> (r: Result<Split, LedgerError>)
        ensures
            r is Ok <==> split_readable(*value),
            r matches Ok(s) ==> split_read(*value, s),
            !split_readable(*value) ==> (r matches Err(e) && split_error(*value, e)),
    {
        let id = match parse_uuid(&value.split_id.text, "split:id") {
            Ok(v) => v,
            Err(e) => {
                return Err(e);
            },
        };
        let amount = match parse_amount(&value.split_value) {
            Ok(v) => v,
            Err(e) => {
                return Err(e);
            },
        };
        let quantity = match parse_amount(&value.split_quantity) {
            Ok(v) => v,
            Err(e) => {
                return Err(e);
            },
        };
        let account = match parse_uuid(&value.split_account.text, "split:account") {
            Ok(v) => v,
            Err(e) => {
                return Err(e);
            },
        };
        Ok(Split { id, memo: value.split_memo.clone(), value: amount, quantity, account: AccountId(account) })
    }
}

impl Transaction {
    /// Reads a transaction record with its splits.
    pub fn try_from(value: &GncTransaction) -> (r: Result<Transaction, LedgerError>)
        ensures
            r is Ok <==> transaction_readable(*value),
            r matches Ok(t) ==> transaction_read(*value, t),
            !transaction_readable(*value) ==> (r matches Err(e) && transaction_error(*value, e)),
    {
        let id = match parse_uuid(&value.trn_id.text, "trn:id") {
            Ok(v) => v,
            Err(e) => {
                return Err(e);
            },
        };
        let date_posted = match parse_instant_text(value.trn_date_posted.ts_date.as_str()) {
            Ok(v) => v,
            Err(e) => {
                return Err(LedgerError::DateTimeError(e));
            },
        };
        let date_entered = match parse_instant_text(value.trn_date_entered.ts_date.as_str()) {
            Ok(v) => v,
            Err(e) => {
                return Err(LedgerError::DateTimeError(e));
            },
        };
        let records = &value.trn_splits.trn_split;
        let mut splits: Vec<Split> = Vec::new();
        let mut i: usize = 0;
        while i < records.len()
            invariant
                i <= records@.len(),
                records@ == value.trn_splits.trn_split@,
                uuid_field(value.trn_id.text) is Some,
                instant_of_text(value.trn_date_posted.ts_date@) is Some,
                instant_of_text(value.trn_date_entered.ts_date@) is Some,
                splits@.len() == i,
                forall|k: int| 0 <= k < i ==> split_readable(#[trigger] records@[k]),
                forall|k: int| 0 <= k < i ==> split_read(#[trigger] records@[k], splits@[k]),
            decreases records@.len() - i,
        {
            match Split::try_from(&records[i]) {
                Ok(s) => {
                    splits.push(s);
                },
                Err(e) => {
                    assert(!split_readable(records@[i as int]));
                    assert(split_error(records@[i as int], e));
                    return Err(e);
                },
            }
            i = i + 1;
        }
        Ok(Transaction {
            id,
            date_posted,
            date_entered,
            description: value.trn_description.clone(),
            splits,
        })
    }
}

impl Book {
    /// Reads the accounts and the transactions of a book record.
    pub fn try_from(value: &GncBook) -> (r: Result<Book, LedgerError>)
        ensures
            r is Ok <==> book_readable(*value),
            r matches Ok(b) ==> book_read(*value, b),
            !book_readable(*value) ==> (r matches Err(e) && book_error(*value, e)),
    {
        let records = &value.gnc_account;
        let mut accounts: Vec<Account> = Vec::new();
        let mut i: usize = 0;
        while i < records.len()
            invariant
                i <= records@.len(),
                records@ == value.gnc_account@,
                accounts@.len() == i,
                forall|k: int| 0 <= k < i ==> account_readable(#[trigger] records@[k]),
                forall|k: int| 0 <= k < i ==> account_read(#[trigger] records@[k], accounts@[k]),
            decreases records@.len() - i,
        {
            match Account::try_from(&records[i]) {
                Ok(a) => {
                    accounts.push(a);
                },
                Err(e) => {
                    assert(!account_readable(records@[i as int]));
                    assert(account_error(records@[i as int], e));
                    return Err(e);
                },
            }
            i = i + 1;
        }
        let records = &value.gnc_transaction;
        let mut transactions: Vec<Transaction> = Vec::new();
        let mut i: usize = 0;
        while i < records.len()
            invariant
                i <= records@.len(),
                records@ == value.gnc_transaction@,
                accounts@.len() == value.gnc_account@.len(),
                forall|k: int| 0 <= k < accounts@.len() ==> account_readable(#[trigger] value.gnc_account@[k]),
                forall|k: int|
                    0 <= k < accounts@.len() ==> account_read(#[trigger] value.gnc_account@[k], accounts@[k]),
                transactions@.len() == i,
                forall|k: int| 0 <= k < i ==> transaction_readable(#[trigger] records@[k]),
                forall|k: int| 0 <= k < i ==> transaction_read(#[trigger] records@[k], transactions@[k]),
            decreases records@.len() - i,
        {
            match Transaction::try_from(&records[i]) {
                Ok(t) => {
                    transactions.push(t);
                },
                Err(e) => {
                    assert(!transaction_readable(records@[i as int]));
                    assert(transaction_error(records@[i as int], e));
                    return Err(e);
                },
            }
            i = i + 1;
        }
        Ok(Book { accounts, transactions })
    }
}

} // verus!
