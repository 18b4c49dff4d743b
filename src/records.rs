//! Writing the values of a [`Book`](crate::ledger::Book) back into the
//! records of a GnuCash book.
use vstd::prelude::*;

use crate::bindings::{
    ActId, ActParent, ActSlots, ActSlotsSlot, ActSlotsSlotSlotValue, GncAccount, GncTransaction, SplitAccount, SplitId,
    TrnCurrency, TrnDateEntered, TrnDatePosted, TrnId, TrnSlots, TrnSlotsSlot, TrnSlotsSlotSlotValue, TrnSplit,
    TrnSplits,
};
use crate::fixed::exact_text;
use crate::ledger::{Account, LedgerError, Split, Transaction};
use crate::outside::{simple_uuid_text, timestamp_text, utc_timestamp_text, uuid_simple_text};
use crate::text::same_text;

verus! {

/// The account slots of `slots` whose key is not `key`, in order.
pub open spec fn act_slots_without(slots: Seq<ActSlotsSlot>, key: Seq<char>) -> Seq<ActSlotsSlot>
    decreases slots.len(),
{
    if slots.len() == 0 {
        Seq::empty()
    } else {
        let rest = act_slots_without(slots.drop_last(), key);
        if slots.last().slot_key@ == key {
            rest
        } else {
            rest.push(slots.last())
        }
    }
}

/// The transaction slots of `slots` whose key is not `key`, in order.
pub open spec fn trn_slots_without(slots: Seq<TrnSlotsSlot>, key: Seq<char>) -> Seq<TrnSlotsSlot>
    decreases slots.len(),
{
    if slots.len() == 0 {
        Seq::empty()
    } else {
        let rest = trn_slots_without(slots.drop_last(), key);
        if slots.last().slot_key@ == key {
            rest
        } else {
            rest.push(slots.last())
        }
    }
}

/// Whether `s` is the slot that marks an account as a placeholder.
pub open spec fn is_placeholder_mark(s: ActSlotsSlot) -> bool {
    &&& s.text is None
    &&& s.slot_key@ == "placeholder"@
    &&& s.slot_value.slot_value_type@ == "string"@
    &&& s.slot_value.text matches Some(t) && t@ == "true"@
}

/// Whether `s` is the slot that holds the posting date `date`.
pub open spec fn is_date_posted_mark(s: TrnSlotsSlot, date: Seq<char>) -> bool {
    &&& s.text is None
    &&& s.slot_key@ == "date-posted"@
    &&& s.slot_value.slot_value_type@ == "gdate"@
    &&& s.slot_value.text is None
    &&& s.slot_value.gdate@ == date
}

/// The text of `s` up to its first space, or all of it.
pub open spec fn before_space(s: Seq<char>) -> Seq<char>
    decreases s.len(),
{
    if s.len() == 0 || s[0] == ' ' {
        Seq::empty()
    } else {
        seq![s[0]] + before_space(s.drop_first())
    }
}

/// Whether the identifier field (`kind`, `text`) writes `id` as a GUID.
pub open spec fn guid_written(kind: String, text: Option<String>, id: u128) -> bool {
    &&& kind@ == "guid"@
    &&& text matches Some(t) && t@ == simple_uuid_text(id)
}

/// Whether the split record `g` writes the split `s`.
pub open spec fn split_written(g: TrnSplit, s: Split) -> bool {
    &&& g.text is None
    &&& guid_written(g.split_id.split_id_type, g.split_id.text, s.id)
    &&& match s.memo {
        None => g.split_memo is None,
        Some(m) => g.split_memo matches Some(x) && x@ == m@,
    }
    &&& g.split_reconciled_state@ == "n"@
    &&& g.split_value@ == exact_text(s.value)
    &&& g.split_quantity@ == exact_text(s.quantity)
    &&& guid_written(g.split_account.split_account_type, g.split_account.text, s.account.0)
}

/// Removes the placeholder mark from `slots` and, where `readonly` holds,
/// puts a fresh one at the end.
pub fn update_readonly(slots: &mut ActSlots, readonly: bool)
    ensures
        final(slots).text == old(slots).text,
        !readonly ==> final(slots).slot@ == act_slots_without(old(slots).slot@, "placeholder"@),
        readonly ==> final(slots).slot@.len() > 0 && final(slots).slot@.drop_last() == act_slots_without(
            old(slots).slot@,
            "placeholder"@,
        ) && is_placeholder_mark(final(slots).slot@.last()),
{
    let mut rest: Vec<ActSlotsSlot> = Vec::new();
    std::mem::swap(&mut slots.slot, &mut rest);
    let ghost all = rest@;
    let mut kept: Vec<ActSlotsSlot> = Vec::new();
    while rest.len() > 0
        invariant
            rest@.len() <= all.len(),
            rest@ == all.subrange(all.len() - rest@.len(), all.len() as int),
            kept@ == act_slots_without(all.subrange(0, all.len() - rest@.len()), "placeholder"@),
        decreases rest@.len(),
    {
        let ghost done = all.len() - rest@.len();
        let s = rest.remove(0);
        assert(all.subrange(0, done + 1).drop_last() =~= all.subrange(0, done));
        assert(all[done] == s);
        if !same_text(s.slot_key.as_str(), "placeholder") {
            kept.push(s);
        }
        assert(rest@ =~= all.subrange(all.len() - rest@.len(), all.len() as int));
    }
    assert(all.subrange(0, all.len() as int) =~= all);
    if readonly {
        kept.push(
            ActSlotsSlot {
                text: None,
                slot_key: String::from_str("placeholder"),
                slot_value: ActSlotsSlotSlotValue {
                    slot_value_type: String::from_str("string"),
                    text: Some(String::from_str("true")),
                },
            },
        );
    }
    slots.slot = kept;
}

/// Replaces the posting-date slot of `slots` with one that holds `date`, at the end.
pub fn update_date_posted(slots: &mut TrnSlots, date: String)
    ensures
        final(slots).text == old(slots).text,
        final(slots).slot@.len() > 0,
        final(slots).slot@.drop_last() == trn_slots_without(old(slots).slot@, "date-posted"@),
        is_date_posted_mark(final(slots).slot@.last(), date@),
{
    let mut rest: Vec<TrnSlotsSlot> = Vec::new();
    std::mem::swap(&mut slots.slot, &mut rest);
    let ghost all = rest@;
    let mut kept: Vec<TrnSlotsSlot> = Vec::new();
    while rest.len() > 0
        invariant
            rest@.len() <= all.len(),
            rest@ == all.subrange(all.len() - rest@.len(), all.len() as int),
            kept@ == trn_slots_without(all.subrange(0, all.len() - rest@.len()), "date-posted"@),
        decreases rest@.len(),
    {
        let ghost done = all.len() - rest@.len();
        let s = rest.remove(0);
        assert(all.subrange(0, done + 1).drop_last() =~= all.subrange(0, done));
        assert(all[done] == s);
        if !same_text(s.slot_key.as_str(), "date-posted") {
            kept.push(s);
        }
        assert(rest@ =~= all.subrange(all.len() - rest@.len(), all.len() as int));
    }
    assert(all.subrange(0, all.len() as int) =~= all);
    kept.push(
        TrnSlotsSlot {
            text: None,
            slot_key: String::from_str("date-posted"),
            slot_value: TrnSlotsSlotSlotValue {
                slot_value_type: String::from_str("gdate"),
                text: None,
                gdate: date,
            },
        },
    );
    slots.slot = kept;
}

/// The text of `s` up to its first space.
pub fn date_part(s: &str) -> (r: String)
    ensures
        r@ == before_space(s@),
{
    let n = s.unicode_len();
    let mut i: usize = 0;
    while i < n
        invariant
            n == s@.len(),
            i <= n,
            forall|j: int| 0 <= j < i ==> s@[j] != ' ',
        ensures
            i <= n,
            forall|j: int| 0 <= j < i ==> s@[j] != ' ',
            i < n ==> s@[i as int] == ' ',
        decreases n - i,
    {
        if s.get_char(i) == ' ' {
            break;
        }
        i = i + 1;
    }
    proof {
        lemma_before_space(s@, i as int);
    }
    String::from_str(s.substring_char(0, i))
}

/// The text before the first space is the prefix up to it.
proof fn lemma_before_space(s: Seq<char>, i: int)
    requires
        0 <= i <= s.len(),
        forall|j: int| 0 <= j < i ==> s[j] != ' ',
        i < s.len() ==> s[i] == ' ',
    ensures
        before_space(s) == s.subrange(0, i),
    decreases i,
{
    if i == 0 {
        assert(s.subrange(0, 0) =~= Seq::<char>::empty());
    } else {
        lemma_before_space(s.drop_first(), i - 1);
        assert(seq![s[0]] + s.drop_first().subrange(0, i - 1) =~= s.subrange(0, i));
    }
}

impl Default for GncAccount {
    /// An empty account record.
    fn default() -> (r: GncAccount)
        ensures
            r.version@ == "2.0.0"@,
            r.text is None,
            r.act_slots is None,
            r.act_description is None,
            r.act_name@.len() == 0,
            r.act_id.act_id_type@ == "guid"@,
            r.act_id.text is None,
            r.act_type@.len() == 0,
            r.act_parent is None,
            r.act_commodity_scu is None,
            r.act_commodity is None,
    {
        GncAccount {
            version: String::from_str("2.0.0"),
            text: None,
            act_slots: None,
            act_description: None,
            act_name: String::new(),
            act_id: ActId { act_id_type: String::from_str("guid"), text: None },
            act_type: String::new(),
            act_parent: None,
            act_commodity_scu: None,
            act_commodity: None,
        }
    }
}

impl Default for TrnSplit {
    /// An empty split record of zero hundredths.
    fn default() -> (r: TrnSplit)
        ensures
            r.text is None,
            r.split_memo is None,
            r.split_id.split_id_type@ == "guid"@,
            r.split_id.text is None,
            r.split_reconciled_state@ == "n"@,
            r.split_value@ == "0/100"@,
            r.split_quantity@ == "0/100"@,
            r.split_account.split_account_type@ == "guid"@,
            r.split_account.text is None,
    {
        TrnSplit {
            text: None,
            split_memo: None,
            split_id: SplitId { split_id_type: String::from_str("guid"), text: None },
            split_reconciled_state: String::from_str("n"),
            split_value: String::from_str("0/100"),
            split_quantity: String::from_str("0/100"),
            split_account: SplitAccount { split_account_type: String::from_str("guid"), text: None },
        }
    }
}

impl Default for GncTransaction {
    /// An empty transaction record in euros.
    fn default() -> (r: GncTransaction)
        ensures
            r.version@ == "2.0.0"@,
            r.text is None,
            r.trn_num is None,
            r.trn_id.trn_id_type@ == "guid"@,
            r.trn_id.text is None,
            r.trn_currency.cmdty_space@ == "CURRENCY"@,
            r.trn_currency.cmdty_id@ == "EUR"@,
            r.trn_date_posted.ts_date@.len() == 0,
            r.trn_date_entered.ts_date@.len() == 0,
            r.trn_description@.len() == 0,
            r.trn_slots is None,
            r.trn_splits.trn_split@.len() == 0,
    {
        GncTransaction {
            version: String::from_str("2.0.0"),
            text: None,
            trn_num: None,
            trn_id: TrnId { trn_id_type: String::from_str("guid"), text: None },
            trn_currency: TrnCurrency {
                text: None,
                cmdty_space: String::from_str("CURRENCY"),
                cmdty_id: String::from_str("EUR"),
            },
            trn_date_posted: TrnDatePosted { text: None, ts_date: String::new() },
            trn_date_entered: TrnDateEntered { text: None, ts_date: String::new() },
            trn_description: String::new(),
            trn_slots: None,
            trn_splits: TrnSplits { text: None, trn_split: Vec::new() },
        }
    }
}

impl GncAccount {
    /// Writes the values of `acc` into this record; the placeholder mark
    /// follows whether `acc` is read-only, where the record has slots.
    pub fn update(&mut self, acc: &Account)
        ensures
            final(self).version == old(self).version,
            final(self).text == old(self).text,
            final(self).act_description == old(self).act_description,
            final(self).act_commodity_scu == old(self).act_commodity_scu,
            final(self).act_commodity == old(self).act_commodity,
            final(self).act_name@ == acc.name@,
            guid_written(final(self).act_id.act_id_type, final(self).act_id.text, acc.id.0),
            final(self).act_type@ == acc.acc_type@,
            match acc.parent {
                None => final(self).act_parent is None,
                Some(p) => final(self).act_parent matches Some(g) && guid_written(
                    g.act_parent_type,
                    g.text,
                    p.0,
                ),
            },
            match old(self).act_slots {
                None => final(self).act_slots is None,
                Some(before) => final(self).act_slots matches Some(after) && after.text == before.text && (
                !acc.is_readonly ==> after.slot@ == act_slots_without(before.slot@, "placeholder"@)) && (
                acc.is_readonly ==> after.slot@.len() > 0 && after.slot@.drop_last() == act_slots_without(
                    before.slot@,
                    "placeholder"@,
                ) && is_placeholder_mark(after.slot@.last())),
            },
    {
        self.act_name = acc.name.clone();
        self.act_id = ActId { act_id_type: String::from_str("guid"), text: Some(uuid_simple_text(acc.id.0)) };
        self.act_type = acc.acc_type.clone();
        self.act_parent = match acc.parent {
            None => None,
            Some(p) => Some(
                ActParent { act_parent_type: String::from_str("guid"), text: Some(uuid_simple_text(p.0)) },
            ),
        };
        let mut slots: Option<ActSlots> = None;
        std::mem::swap(&mut self.act_slots, &mut slots);
        match slots {
            None => {},
            Some(s) => {
                let mut s = s;
                update_readonly(&mut s, acc.is_readonly);
                self.act_slots = Some(s);
            },
        }
    }

    /// A fresh record of `acc`.
    pub fn from_account(acc: &Account) -> (r: GncAccount)
        ensures
            r.version@ == "2.0.0"@,
            r.act_slots is None,
            r.act_name@ == acc.name@,
            guid_written(r.act_id.act_id_type, r.act_id.text, acc.id.0),
            r.act_type@ == acc.acc_type@,
            match acc.parent {
                None => r.act_parent is None,
                Some(p) => r.act_parent matches Some(g) && guid_written(g.act_parent_type, g.text, p.0),
            },
            r.text is None,
            r.act_description is None,
            r.act_commodity_scu is None,
            r.act_commodity is None,
    {
        let mut g = GncAccount::default();
        g.update(acc);
        g
    }
}

impl TrnSplit {
    /// Writes the values of `split` into this record.
    pub fn update(&mut self, split: &Split)
        ensures
            match split.memo {
                None => final(self).split_memo is None,
                Some(m) => final(self).split_memo matches Some(x) && x@ == m@,
            },
            final(self).text == old(self).text,
            final(self).split_reconciled_state == old(self).split_reconciled_state,
            guid_written(final(self).split_id.split_id_type, final(self).split_id.text, split.id),
            final(self).split_value@ == exact_text(split.value),
            final(self).split_quantity@ == exact_text(split.quantity),
            guid_written(final(self).split_account.split_account_type, final(self).split_account.text, split.account.0),
    {
        self.split_id = SplitId { split_id_type: String::from_str("guid"), text: Some(uuid_simple_text(split.id)) };
        self.split_memo = match &split.memo {
            None => None,
            Some(m) => Some(m.clone()),
        };
        self.split_value = split.value.to_string_raw();
        self.split_quantity = split.quantity.to_string_raw();
        self.split_account = SplitAccount {
            split_account_type: String::from_str("guid"),
            text: Some(uuid_simple_text(split.account.0)),
        };
    }

    /// A fresh record of `split`.
    pub fn from_split(split: &Split) -> (r: TrnSplit)
        ensures
            split_written(r, *split),
    {
        let mut g = TrnSplit::default();
        g.update(split);
        g
    }
}

impl GncTransaction {
    /// Writes the values of `trn` into this record, the splits afresh; fails,
    /// leaving the record as it was, where a date lies outside the range of
    /// dates that can be written.
    pub fn update(&mut self, trn: &Transaction) -> (r: Result<(), LedgerError>)
        ensures
            r is Ok <==> utc_timestamp_text(trn.date_posted) is Some && utc_timestamp_text(trn.date_entered) is Some,
            r is Err ==> *final(self) == *old(self),
            r is Ok ==> {
                &&& final(self).version == old(self).version
                &&& final(self).trn_currency == old(self).trn_currency
                &&& guid_written(final(self).trn_id.trn_id_type, final(self).trn_id.text, trn.id)
                &&& Some(final(self).trn_date_posted.ts_date@) == utc_timestamp_text(trn.date_posted)
                &&& Some(final(self).trn_date_entered.ts_date@) == utc_timestamp_text(trn.date_entered)
                &&& final(self).trn_description@ == trn.description@
                &&& final(self).trn_splits.trn_split@.len() == trn.splits@.len()
                &&& forall|i: int|
                    0 <= i < trn.splits@.len() ==> split_written(
                        #[trigger] final(self).trn_splits.trn_split@[i],
                        trn.splits@[i],
                    )
                &&& match old(self).trn_slots {
                    None => final(self).trn_slots is None,
                    Some(before) => final(self).trn_slots matches Some(after) && after.text == before.text
                        && after.slot@.len() > 0 && after.slot@.drop_last() == trn_slots_without(
                        before.slot@,
                        "date-posted"@,
                    ) && is_date_posted_mark(
                        after.slot@.last(),
                        before_space(final(self).trn_date_posted.ts_date@),
                    ),
                }
            },
    {
        let posted = match timestamp_text(trn.date_posted) {
            Some(t) => t,
            None => {
                return Err(LedgerError::InvalidValue("trn:date-posted"));
            },
        };
        let entered = match timestamp_text(trn.date_entered) {
            Some(t) => t,
            None => {
                return Err(LedgerError::InvalidValue("trn:date-entered"));
            },
        };
        let mut splits: Vec<TrnSplit> = Vec::new();
        let mut i: usize = 0;
        while i < trn.splits.len()
            invariant
                i <= trn.splits@.len(),
                splits@.len() == i,
                forall|k: int| 0 <= k < i ==> split_written(#[trigger] splits@[k], trn.splits@[k]),
            decreases trn.splits@.len() - i,
        {
            splits.push(TrnSplit::from_split(&trn.splits[i]));
            i = i + 1;
        }
        self.trn_id = TrnId { trn_id_type: String::from_str("guid"), text: Some(uuid_simple_text(trn.id)) };
        let date = date_part(posted.as_str());
        self.trn_date_posted = TrnDatePosted { text: None, ts_date: posted };
        let mut slots: Option<TrnSlots> = None;
        std::mem::swap(&mut self.trn_slots, &mut slots);
        match slots {
            None => {},
            Some(s) => {
                let mut s = s;
                update_date_posted(&mut s, date);
                self.trn_slots = Some(s);
            },
        }
        self.trn_date_entered = TrnDateEntered { text: None, ts_date: entered };
        self.trn_description = trn.description.clone();
        self.trn_splits = TrnSplits { text: None, trn_split: splits };
        Ok(())
    }

    /// A fresh record of `trn`, in euros; fails where a date lies outside the
    /// range of dates that can be written.
    pub fn from_transaction(trn: &Transaction) -> (r: Result<GncTransaction, LedgerError>)
        ensures
            r is Ok <==> utc_timestamp_text(trn.date_posted) is Some && utc_timestamp_text(trn.date_entered) is Some,
            r matches Ok(g) ==> {
                &&& g.trn_currency.cmdty_id@ == "EUR"@
                &&& g.trn_slots is None
                &&& guid_written(g.trn_id.trn_id_type, g.trn_id.text, trn.id)
                &&& Some(g.trn_date_posted.ts_date@) == utc_timestamp_text(trn.date_posted)
                &&& Some(g.trn_date_entered.ts_date@) == utc_timestamp_text(trn.date_entered)
                &&& g.trn_description@ == trn.description@
                &&& g.trn_splits.trn_split@.len() == trn.splits@.len()
                &&& forall|i: int|
                    0 <= i < trn.splits@.len() ==> split_written(#[trigger] g.trn_splits.trn_split@[i], trn.splits@[i])
            },
    {
        let mut g = GncTransaction::default();
        match g.update(trn) {
            Ok(()) => Ok(g),
            Err(e) => Err(e),
        }
    }
}

} // verus!
