//! The kinds of accounts of a GnuCash book, and the account details that a
//! book record carries besides name, identity and parent.
use vstd::prelude::*;

use crate::ledger::LedgerError;
use crate::text::same_text;

verus! {

/// The kind of an account, as a GnuCash book writes it.
#[allow(non_camel_case_types)]
#[derive(Debug, Clone, Copy, PartialEq, Eq, Structural)]
pub enum AccountType {
    /// Open payables.
    Payable,
    /// Open receivables.
    Receivable,
    Asset,
    Bank,
    Cash,
    CreditCard,
    Currency,
    Equity,
    Expense,
    Income,
    Liability,
    MutualFund,
    Stock,
    /// The root of the chart of accounts.
    ROOT,
}

/// The kind that the word `s` names, if it names one.
pub open spec fn account_type_of(s: Seq<char>) -> Option<AccountType> {
    if s == "PAYABLE"@ {
        Some(AccountType::Payable)
    } else if s == "RECEIVABLE"@ {
        Some(AccountType::Receivable)
    } else if s == "ASSET"@ {
        Some(AccountType::Asset)
    } else if s == "BANK"@ {
        Some(AccountType::Bank)
    } else if s == "CASH"@ {
        Some(AccountType::Cash)
    } else if s == "CREDIT CARD"@ {
        Some(AccountType::CreditCard)
    } else if s == "CURRENCY"@ {
        Some(AccountType::Currency)
    } else if s == "EQUITY"@ {
        Some(AccountType::Equity)
    } else if s == "EXPENSE"@ {
        Some(AccountType::Expense)
    } else if s == "INCOME"@ {
        Some(AccountType::Income)
    } else if s == "LIABILITY"@ {
        Some(AccountType::Liability)
    } else if s == "MUTUAL FUND"@ {
        Some(AccountType::MutualFund)
    } else if s == "STOCK"@ {
        Some(AccountType::Stock)
    } else if s == "ROOT"@ {
        Some(AccountType::ROOT)
    } else {
        None
    }
}

/// A value of a slot: its type and its text.
#[derive(Debug, Clone)]
pub struct SlotValue {
    pub value_type: String,
    pub value: String,
}

/// The commodity an account is kept in.
#[derive(Debug, Clone)]
pub struct Commodity {
    pub space: String,
    pub id: String,
    /// The smallest fraction of the commodity that the account counts.
    pub scu: Option<u32>,
}

impl AccountType {
    /// Reads the kind that `s` names.
    pub fn from_str(s: &str) -> (r: Result<AccountType, LedgerError>)
        ensures
            match account_type_of(s@) {
                Some(t) => r == Ok::<AccountType, LedgerError>(t),
                None => r matches Err(LedgerError::InvalidAccountType(t)) && t@ == s@,
            },
    {
        if same_text(s, "PAYABLE") {
            Ok(AccountType::Payable)
        } else if same_text(s, "RECEIVABLE") {
            Ok(AccountType::Receivable)
        } else if same_text(s, "ASSET") {
            Ok(AccountType::Asset)
        } else if same_text(s, "BANK") {
            Ok(AccountType::Bank)
        } else if same_text(s, "CASH") {
            Ok(AccountType::Cash)
        } else if same_text(s, "CREDIT CARD") {
            Ok(AccountType::CreditCard)
        } else if same_text(s, "CURRENCY") {
            Ok(AccountType::Currency)
        } else if same_text(s, "EQUITY") {
            Ok(AccountType::Equity)
        } else if same_text(s, "EXPENSE") {
            Ok(AccountType::Expense)
        } else if same_text(s, "INCOME") {
            Ok(AccountType::Income)
        } else if same_text(s, "LIABILITY") {
            Ok(AccountType::Liability)
        } else if same_text(s, "MUTUAL FUND") {
            Ok(AccountType::MutualFund)
        } else if same_text(s, "STOCK") {
            Ok(AccountType::Stock)
        } else if same_text(s, "ROOT") {
            Ok(AccountType::ROOT)
        } else {
            Err(LedgerError::InvalidAccountType(String::from_str(s)))
        }
    }
}

} // verus!
