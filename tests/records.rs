use gnc_carry::bindings::{
    ActSlots, ActSlotsSlot, ActSlotsSlotSlotValue, GncAccount, GncTransaction, TrnSlots, TrnSlotsSlot,
    TrnSlotsSlotSlotValue, TrnSplit,
};
use gnc_carry::fixed::Fixed;
use gnc_carry::ledger::{Account, AccountId, LedgerError, Split, Transaction};
use gnc_carry::records::{date_part, update_date_posted, update_readonly};

fn act_slot(key: &str, text: &str) -> ActSlotsSlot {
    ActSlotsSlot {
        text: None,
        slot_key: key.to_string(),
        slot_value: ActSlotsSlotSlotValue { slot_value_type: "string".to_string(), text: Some(text.to_string()) },
    }
}

fn sample_split() -> Split {
    Split { id: 1, memo: Some("note".to_string()), value: Fixed(-345, 100), quantity: Fixed(-3450, 1000), account: AccountId(2) }
}

#[test]
fn readonly_mark_is_replaced() {
    let mut slots = ActSlots {
        text: None,
        slot: vec![act_slot("placeholder", "false"), act_slot("color", "red"), act_slot("placeholder", "x")],
    };
    update_readonly(&mut slots, true);
    assert_eq!(slots.slot.len(), 2);
    assert_eq!(slots.slot[0].slot_key, "color");
    assert_eq!(slots.slot[1].slot_key, "placeholder");
    assert_eq!(slots.slot[1].slot_value.slot_value_type, "string");
    assert_eq!(slots.slot[1].slot_value.text.as_deref(), Some("true"));
    update_readonly(&mut slots, false);
    assert_eq!(slots.slot.len(), 1);
    assert_eq!(slots.slot[0].slot_key, "color");
}

#[test]
fn date_posted_slot_is_replaced() {
    let old = TrnSlotsSlot {
        text: None,
        slot_key: "date-posted".to_string(),
        slot_value: TrnSlotsSlotSlotValue { slot_value_type: "gdate".to_string(), text: None, gdate: "2000-01-01".to_string() },
    };
    let mut slots = TrnSlots { text: None, slot: vec![old] };
    update_date_posted(&mut slots, "2024-07-27".to_string());
    assert_eq!(slots.slot.len(), 1);
    assert_eq!(slots.slot[0].slot_value.gdate, "2024-07-27");
}

#[test]
fn date_part_stops_at_space() {
    assert_eq!(date_part("2024-07-27 10:50:00 +0000"), "2024-07-27");
    assert_eq!(date_part("2024"), "2024");
}

#[test]
fn account_record_is_written() {
    let acc = Account {
        name: "Bank".to_string(),
        id: AccountId(1),
        acc_type: "BANK".to_string(),
        parent: Some(AccountId(0xff)),
        is_readonly: true,
    };
    let mut g = GncAccount::default();
    g.act_slots = Some(ActSlots { text: None, slot: vec![] });
    g.update(&acc);
    assert_eq!(g.act_name, "Bank");
    assert_eq!(g.act_type, "BANK");
    assert_eq!(g.act_id.text.as_deref(), Some("00000000000000000000000000000001"));
    assert_eq!(g.act_parent.unwrap().text.as_deref(), Some("000000000000000000000000000000ff"));
    assert_eq!(g.act_slots.unwrap().slot[0].slot_key, "placeholder");
    let fresh = GncAccount::from_account(&acc);
    assert_eq!(fresh.version, "2.0.0");
    assert_eq!(fresh.act_parent.unwrap().text.as_deref(), Some("000000000000000000000000000000ff"));
    assert!(fresh.act_slots.is_none());
}

#[test]
fn split_record_is_written() {
    let g = TrnSplit::from_split(&sample_split());
    assert_eq!(g.split_value, "-345/100");
    assert_eq!(g.split_quantity, "-3450/1000");
    assert_eq!(g.split_memo.as_deref(), Some("note"));
    assert_eq!(g.split_reconciled_state, "n");
    assert_eq!(g.split_account.text.as_deref(), Some("00000000000000000000000000000002"));
}

#[test]
fn transaction_record_is_written() {
    let trn = Transaction {
        id: 3,
        date_posted: 1722077400,
        date_entered: 1722077400,
        description: "Opening".to_string(),
        splits: vec![sample_split()],
    };
    let mut g = GncTransaction::default();
    g.trn_slots = Some(TrnSlots { text: None, slot: vec![] });
    g.update(&trn).unwrap();
    assert_eq!(g.trn_date_posted.ts_date, "2024-07-27 10:50:00 +0000");
    assert_eq!(g.trn_description, "Opening");
    assert_eq!(g.trn_splits.trn_split.len(), 1);
    assert_eq!(g.trn_slots.unwrap().slot[0].slot_value.gdate, "2024-07-27");
    assert_eq!(g.trn_currency.cmdty_id, "EUR");
}

#[test]
fn transaction_record_rejects_unwritable_date() {
    let trn = Transaction { id: 3, date_posted: i64::MAX, date_entered: 0, description: String::new(), splits: vec![] };
    let mut g = GncTransaction::default();
    assert!(matches!(g.update(&trn), Err(LedgerError::InvalidValue(_))));
    assert_eq!(g.trn_description, "");
}

#[test]
fn fresh_transaction_record() {
    let trn = Transaction { id: 3, date_posted: 0, date_entered: 0, description: "x".to_string(), splits: vec![] };
    let g = GncTransaction::from_transaction(&trn).unwrap();
    assert_eq!(g.trn_date_posted.ts_date, "1970-01-01 00:00:00 +0000");
    assert_eq!(g.trn_id.text.as_deref(), Some("00000000000000000000000000000003"));
    assert!(g.trn_slots.is_none());
}
