use gnc_carry::account::AccountType;
use gnc_carry::bindings::{
    ActId, ActParent, ActSlots, ActSlotsSlot, ActSlotsSlotSlotValue, GncAccount, SplitAccount, SplitId, TrnSplit,
};
use gnc_carry::bindings::{BookId, GncBook, GncTransaction, TrnDateEntered, TrnDatePosted, TrnId, TrnSplits};
use gnc_carry::convert::parse_uuid;
use gnc_carry::fixed::FixedError;
use gnc_carry::ledger::{Account, AccountId, Book, LedgerError, Split, Transaction};

const ID: &str = "0123456789abcdef0123456789abcdef";
const ID_VALUE: u128 = 0x0123456789abcdef0123456789abcdef;

fn gnc_account(id: Option<&str>, parent: Option<&str>, slots: Option<ActSlots>) -> GncAccount {
    GncAccount {
        version: "2.0.0".to_string(),
        text: None,
        act_slots: slots,
        act_description: None,
        act_name: "Bank".to_string(),
        act_id: ActId { act_id_type: "guid".to_string(), text: id.map(|s| s.to_string()) },
        act_type: "BANK".to_string(),
        act_parent: parent.map(|p| ActParent { act_parent_type: "guid".to_string(), text: Some(p.to_string()) }),
        act_commodity_scu: None,
        act_commodity: None,
    }
}

fn slot(key: &str, text: Option<&str>) -> ActSlotsSlot {
    ActSlotsSlot {
        text: None,
        slot_key: key.to_string(),
        slot_value: ActSlotsSlotSlotValue { slot_value_type: "string".to_string(), text: text.map(|s| s.to_string()) },
    }
}

fn trn_split(value: &str, quantity: &str) -> TrnSplit {
    TrnSplit {
        text: None,
        split_memo: Some("memo".to_string()),
        split_id: SplitId { split_id_type: "guid".to_string(), text: Some(ID.to_string()) },
        split_reconciled_state: "n".to_string(),
        split_value: value.to_string(),
        split_quantity: quantity.to_string(),
        split_account: SplitAccount {
            split_account_type: "guid".to_string(),
            text: Some("00000000-0000-0000-0000-000000000002".to_string()),
        },
    }
}

#[test]
fn uuid_field_reads_identifier() {
    assert_eq!(parse_uuid(&Some(ID.to_string()), "x").unwrap(), ID_VALUE);
    assert!(matches!(parse_uuid(&None, "act:id"), Err(LedgerError::MissingValue("act:id"))));
    assert!(matches!(parse_uuid(&Some("zz".to_string()), "x"), Err(LedgerError::UuidError(_))));
}

#[test]
fn account_record_reads() {
    let slots = ActSlots { text: None, slot: vec![slot("color", Some("red")), slot("placeholder", Some("true"))] };
    let a = Account::try_from(&gnc_account(Some(ID), Some("00000000000000000000000000000001"), Some(slots))).unwrap();
    assert_eq!(a.name, "Bank");
    assert_eq!(a.acc_type, "BANK");
    assert_eq!(a.id, AccountId(ID_VALUE));
    assert_eq!(a.parent, Some(AccountId(1)));
    assert!(a.is_readonly);
}

#[test]
fn account_record_without_placeholder_is_writable() {
    let a = Account::try_from(&gnc_account(Some(ID), None, None)).unwrap();
    assert_eq!(a.parent, None);
    assert!(!a.is_readonly);
    let slots = ActSlots { text: None, slot: vec![slot("placeholder", Some("false"))] };
    assert!(!Account::try_from(&gnc_account(Some(ID), None, Some(slots))).unwrap().is_readonly);
}

#[test]
fn account_record_errors() {
    assert!(matches!(Account::try_from(&gnc_account(None, None, None)), Err(LedgerError::MissingValue("act:id"))));
    assert!(matches!(Account::try_from(&gnc_account(Some("nope"), None, None)), Err(LedgerError::UuidError(_))));
    assert!(matches!(Account::try_from(&gnc_account(Some(ID), Some("nope"), None)), Err(LedgerError::UuidError(_))));
    let slots = ActSlots { text: None, slot: vec![slot("placeholder", None)] };
    assert!(matches!(
        Account::try_from(&gnc_account(Some(ID), None, Some(slots))),
        Err(LedgerError::MissingValue("slot:value->value"))
    ));
}

#[test]
fn split_record_reads() {
    let s = Split::try_from(&trn_split("-345/100", "-3450/1000")).unwrap();
    assert_eq!(s.id, ID_VALUE);
    assert_eq!(s.memo.as_deref(), Some("memo"));
    assert_eq!((s.value.0, s.value.1), (-345, 100));
    assert_eq!((s.quantity.0, s.quantity.1), (-3450, 1000));
    assert_eq!(s.account, AccountId(2));
}

#[test]
fn split_record_with_bad_amount() {
    assert!(matches!(
        Split::try_from(&trn_split("345", "1/1")),
        Err(LedgerError::FixedError(FixedError::MalformedSource(_)))
    ));
}

#[test]
fn account_types_read() {
    assert_eq!(AccountType::from_str("BANK").unwrap(), AccountType::Bank);
    assert_eq!(AccountType::from_str("CREDIT CARD").unwrap(), AccountType::CreditCard);
    assert_eq!(AccountType::from_str("ROOT").unwrap(), AccountType::ROOT);
    assert!(matches!(AccountType::from_str("bank"), Err(LedgerError::InvalidAccountType(s)) if s == "bank"));
}

#[test]
fn transaction_record_reads_dates() {
    let mut g = GncTransaction::default();
    g.trn_id = TrnId { trn_id_type: "guid".to_string(), text: Some(ID.to_string()) };
    g.trn_date_posted = TrnDatePosted { text: None, ts_date: "2024-07-27 10:50:00 +0000".to_string() };
    g.trn_date_entered = TrnDateEntered { text: None, ts_date: "2024-07-27 12:50:00 +0200".to_string() };
    g.trn_splits = TrnSplits { text: None, trn_split: vec![trn_split("1/100", "1/100")] };
    let t = Transaction::try_from(&g).unwrap();
    assert_eq!(t.date_posted, 1722077400);
    assert_eq!(t.date_entered, 1722077400);
    assert_eq!(t.splits.len(), 1);
    g.trn_date_posted.ts_date = "yesterday".to_string();
    assert!(matches!(Transaction::try_from(&g), Err(LedgerError::DateTimeError(_))));
}

fn gnc_book(gnc_account: Vec<GncAccount>, gnc_transaction: Vec<GncTransaction>) -> GncBook {
    GncBook {
        version: "2.0.0".to_string(),
        text: None,
        book_id: BookId { book_id_type: "guid".to_string(), text: Some(ID.to_string()) },
        book_slots: None,
        gnc_count_data: vec![],
        gnc_commodity: vec![],
        gnc_account,
        gnc_transaction,
    }
}

fn gnc_transaction(posted: &str) -> GncTransaction {
    let mut g = GncTransaction::default();
    g.trn_id = TrnId { trn_id_type: "guid".to_string(), text: Some(ID.to_string()) };
    g.trn_date_posted = TrnDatePosted { text: None, ts_date: posted.to_string() };
    g.trn_date_entered = TrnDateEntered { text: None, ts_date: "2024-07-27 10:50:00 +0000".to_string() };
    g.trn_splits = TrnSplits { text: None, trn_split: vec![trn_split("5/100", "5/100")] };
    g
}

#[test]
fn book_record_reads() {
    let record = gnc_book(
        vec![gnc_account(Some(ID), None, None), gnc_account(Some("00000000000000000000000000000007"), Some(ID), None)],
        vec![gnc_transaction("2024-07-27 10:50:00 +0000")],
    );
    let book = Book::try_from(&record).unwrap();
    assert_eq!(book.accounts.len(), 2);
    assert_eq!(book.accounts[1].parent, Some(AccountId(ID_VALUE)));
    assert_eq!(book.transactions.len(), 1);
    assert_eq!((book.transactions[0].splits[0].value.0, book.transactions[0].splits[0].value.1), (5, 100));
}

#[test]
fn book_record_reports_first_bad_record() {
    let record = gnc_book(
        vec![gnc_account(Some(ID), None, None), gnc_account(None, None, None)],
        vec![gnc_transaction("not a date")],
    );
    assert!(matches!(Book::try_from(&record), Err(LedgerError::MissingValue("act:id"))));
    let record = gnc_book(vec![gnc_account(Some(ID), None, None)], vec![gnc_transaction("not a date")]);
    assert!(matches!(Book::try_from(&record), Err(LedgerError::DateTimeError(_))));
}

#[test]
fn split_record_reports_first_bad_field() {
    let mut g = trn_split("1/100", "x/100");
    assert!(matches!(
        Split::try_from(&g),
        Err(LedgerError::FixedError(FixedError::ParseNumeratorError(_)))
    ));
    g.split_account.text = None;
    g.split_quantity = "1/100".to_string();
    assert!(matches!(Split::try_from(&g), Err(LedgerError::MissingValue("split:account"))));
}
