//! The records of a GnuCash XML book, field by field as the file holds them.
//! Reading and writing the file itself is left to the caller.
use vstd::prelude::*;

verus! {

#[derive(Debug, Clone)]
pub struct GncV2 {
    pub xmlns_gnc: String,
    pub xmlns_act: String,
    pub xmlns_book: String,
    pub xmlns_cd: String,
    pub xmlns_cmdty: String,
    pub xmlns_price: String,
    pub xmlns_slot: String,
    pub xmlns_split: String,
    pub xmlns_sx: String,
    pub xmlns_trn: String,
    pub xmlns_ts: String,
    pub xmlns_fs: String,
    pub xmlns_bgt: String,
    pub xmlns_recurrence: String,
    pub xmlns_lot: String,
    pub xmlns_addr: String,
    pub xmlns_billterm: String,
    pub xmlns_bt_days: String,
    pub xmlns_bt_prox: String,
    pub xmlns_cust: String,
    pub xmlns_employee: String,
    pub xmlns_entry: String,
    pub xmlns_invoice: String,
    pub xmlns_job: String,
    pub xmlns_order: String,
    pub xmlns_owner: String,
    pub xmlns_taxtable: String,
    pub xmlns_tte: String,
    pub xmlns_vendor: String,
    pub text: Option<String>,
    pub gnc_count_data: GncV2GncCountData,
    pub gnc_book: GncBook,
}

#[derive(Debug, Clone)]
pub struct GncV2GncCountData {
    pub cd_type: String,
    pub text: Option<String>,
}

#[derive(Debug, Clone)]
pub struct GncBook {
    pub version: String,
    pub text: Option<String>,
    pub book_id: BookId,
    pub book_slots: Option<BookSlots>,
    pub gnc_count_data: Vec<GncBookGncCountData>,
    pub gnc_commodity: Vec<GncCommodity>,
    pub gnc_account: Vec<GncAccount>,
    pub gnc_transaction: Vec<GncTransaction>,
}

#[derive(Debug, Clone)]
pub struct BookId {
    pub book_id_type: String,
    pub text: Option<String>,
}

#[derive(Debug, Clone)]
pub struct BookSlots {
    pub text: Option<String>,
    pub slot: Vec<BookSlotsSlot>,
}

#[derive(Debug, Clone)]
pub struct BookSlotsSlot {
    pub text: Option<String>,
    pub slot_key: String,
    pub slot_value: BookSlotsSlotSlotValue,
}

#[derive(Debug, Clone)]
pub struct BookSlotsSlotSlotValue {
    pub slot_value_type: String,
    pub text: Option<String>,
    pub slot: Vec<SlotValueSlot>,
}

#[derive(Debug, Clone)]
pub struct SlotValueSlot {
    pub text: Option<String>,
    pub slot_key: String,
    pub slot_value: SlotValueSlotSlotValue,
}

#[derive(Debug, Clone)]
pub struct SlotValueSlotSlotValue {
    pub slot_value_type: String,
    pub text: Option<String>,
}

#[derive(Debug, Clone)]
pub struct GncBookGncCountData {
    pub cd_type: String,
    pub text: Option<String>,
}

#[derive(Debug, Clone)]
pub struct GncCommodity {
    pub version: String,
    pub text: Option<String>,
    pub cmdty_space: String,
    pub cmdty_id: String,
    pub cmdty_fraction: Option<String>,
    pub cmdty_xcode: Option<String>,
    pub cmdty_name: Option<String>,
    pub cmdty_get_quotes: Option<CmdtyGetQuotes>,
    pub cmdty_quote_source: Option<String>,
    pub cmdty_quote_tz: Option<CmdtyQuoteTz>,
}

#[derive(Debug, Clone)]
pub struct CmdtyGetQuotes {
}

#[derive(Debug, Clone)]
pub struct CmdtyQuoteTz {
}

#[derive(Debug, Clone)]
pub struct GncAccount {
    pub version: String,
    pub text: Option<String>,
    pub act_slots: Option<ActSlots>,
    pub act_description: Option<String>,
    pub act_name: String,
    pub act_id: ActId,
    pub act_type: String,
    pub act_parent: Option<ActParent>,
    pub act_commodity_scu: Option<String>,
    pub act_commodity: Option<ActCommodity>,
}

#[derive(Debug, Clone)]
pub struct ActSlots {
    pub text: Option<String>,
    pub slot: Vec<ActSlotsSlot>,
}

#[derive(Debug, Clone)]
pub struct ActSlotsSlot {
    pub text: Option<String>,
    pub slot_key: String,
    pub slot_value: ActSlotsSlotSlotValue,
}

#[derive(Debug, Clone)]
pub struct ActSlotsSlotSlotValue {
    pub slot_value_type: String,
    pub text: Option<String>,
}

#[derive(Debug, Clone)]
pub struct ActId {
    pub act_id_type: String,
    pub text: Option<String>,
}

#[derive(Debug, Clone)]
pub struct ActParent {
    pub act_parent_type: String,
    pub text: Option<String>,
}

#[derive(Debug, Clone)]
pub struct ActCommodity {
    pub text: Option<String>,
    pub cmdty_space: String,
    pub cmdty_id: String,
}

#[derive(Debug, Clone)]
pub struct GncTransaction {
    pub version: String,
    pub text: Option<String>,
    pub trn_num: Option<String>,
    pub trn_id: TrnId,
    pub trn_currency: TrnCurrency,
    pub trn_date_posted: TrnDatePosted,
    pub trn_date_entered: TrnDateEntered,
    pub trn_description: String,
    pub trn_slots: Option<TrnSlots>,
    pub trn_splits: TrnSplits,
}

#[derive(Debug, Clone)]
pub struct TrnId {
    pub trn_id_type: String,
    pub text: Option<String>,
}

#[derive(Debug, Clone)]
pub struct TrnCurrency {
    pub text: Option<String>,
    pub cmdty_space: String,
    pub cmdty_id: String,
}

#[derive(Debug, Clone)]
pub struct TrnDatePosted {
    pub text: Option<String>,
    pub ts_date: String,
}

#[derive(Debug, Clone)]
pub struct TrnDateEntered {
    pub text: Option<String>,
    pub ts_date: String,
}

#[derive(Debug, Clone)]
pub struct TrnSlots {
    pub text: Option<String>,
    pub slot: Vec<TrnSlotsSlot>,
}

#[derive(Debug, Clone)]
pub struct TrnSlotsSlot {
    pub text: Option<String>,
    pub slot_key: String,
    pub slot_value: TrnSlotsSlotSlotValue,
}

#[derive(Debug, Clone)]
pub struct TrnSlotsSlotSlotValue {
    pub slot_value_type: String,
    pub text: Option<String>,
    pub gdate: String,
}

#[derive(Debug, Clone)]
pub struct TrnSplits {
    pub text: Option<String>,
    pub trn_split: Vec<TrnSplit>,
}

#[derive(Debug, Clone)]
pub struct TrnSplit {
    pub text: Option<String>,
    pub split_memo: Option<String>,
    pub split_id: SplitId,
    pub split_reconciled_state: String,
    pub split_value: String,
    pub split_quantity: String,
    pub split_account: SplitAccount,
}

#[derive(Debug, Clone)]
pub struct SplitId {
    pub split_id_type: String,
    pub text: Option<String>,
}

#[derive(Debug, Clone)]
pub struct SplitAccount {
    pub split_account_type: String,
    pub text: Option<String>,
}

} // verus!
