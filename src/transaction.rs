//! Transaction records: the raw text of an input row, the checked record
//! that the ledger accepts, and the decoding from one to the other.
use crate::amount::{decimal_text_of, parse_amount, Amount};
use std::str::FromStr;
use vstd::prelude::*;

verus! {

/// One input row as text: `type, client, tx, amount`.
#[derive(Clone, Debug)]
pub struct InputTransaction {
    pub typ: String,
    pub client: String,
    pub tx: String,
    pub amount: String,
}

/// What a record does; deposits and withdrawals carry their amount.
#[derive(Clone, Copy, Debug)]
pub enum Action {
    Deposit(Amount),
    Withdrawal(Amount),
    Dispute,
    Resolve,
    Chargeback,
}

/// An accepted record. For a dispute, resolve or chargeback, `tx` is the id
/// of the transaction that it refers to.
#[derive(Clone, Copy, Debug)]
pub struct Transaction {
    pub action: Action,
    pub client: u32,
    pub tx: u32,
}

/// Why a row was not accepted.
#[derive(Clone, Copy, Debug, PartialEq, Eq)]
pub enum Rejection {
    UnknownKind,
    InvalidClientId,
    InvalidTransactionId,
    InvalidAmount,
}

/// The kind of a row, before its amount is read.
#[derive(Clone, Copy, Debug, PartialEq, Eq)]
pub enum Kind {
    Deposit,
    Withdrawal,
    Dispute,
    Resolve,
    Chargeback,
}

/// What `str::trim` leaves of the text.
pub uninterp spec fn trim_of(s: Seq<char>) -> Seq<char>;

/// What `str::to_lowercase` makes of the text.
pub uninterp spec fn lower_of(s: Seq<char>) -> Seq<char>;

pub open spec fn is_digit(c: char) -> bool {
    '0' <= c && c <= '9'
}

/// The number written by a string of decimal digits.
pub open spec fn digits_value(s: Seq<char>) -> int
    decreases s.len(),
{
    if s.len() == 0 {
        0
    } else {
        10 * digits_value(s.drop_last()) + (s.last() as int - '0' as int)
    }
}

/// An unsigned integer as `u32::from_str` reads it: an optional `+`, then
/// one or more decimal digits, with a value that fits in 32 bits.
pub open spec fn u32_text(s: Seq<char>) -> Option<u32> {
    let d = if s.len() > 0 && s[0] == '+' {
        s.skip(1)
    } else {
        s
    };
    if d.len() > 0 && (forall|i: int| 0 <= i < d.len() ==> is_digit(#[trigger] d[i]))
        && digits_value(d) <= u32::MAX {
        Some(digits_value(d) as u32)
    } else {
        None
    }
}

/// The kind named by a lower-case word.
pub open spec fn kind_of(w: Seq<char>) -> Option<Kind> {
    if w == "deposit"@ {
        Some(Kind::Deposit)
    } else if w == "withdrawal"@ {
        Some(Kind::Withdrawal)
    } else if w == "dispute"@ {
        Some(Kind::Dispute)
    } else if w == "resolve"@ {
        Some(Kind::Resolve)
    } else if w == "chargeback"@ {
        Some(Kind::Chargeback)
    } else {
        None
    }
}

/// The record that a row decodes to. The type is read without regard to
/// case or surrounding white space; ids and amount without surrounding white
/// space. The amount is read for deposits and withdrawals only.
pub open spec fn transaction_of(raw: InputTransaction) -> Result<Transaction, Rejection> {
    match u32_text(trim_of(raw.client@)) {
        None => Err(Rejection::InvalidClientId),
        Some(client) => match u32_text(trim_of(raw.tx@)) {
            None => Err(Rejection::InvalidTransactionId),
            Some(tx) => match kind_of(lower_of(trim_of(raw.typ@))) {
                None => Err(Rejection::UnknownKind),
                Some(kind) => match kind {
                    Kind::Deposit => match decimal_text_of(trim_of(raw.amount@)) {
                        None => Err(Rejection::InvalidAmount),
                        Some(a) => Ok(Transaction { action: Action::Deposit(a), client, tx }),
                    },
                    Kind::Withdrawal => match decimal_text_of(trim_of(raw.amount@)) {
                        None => Err(Rejection::InvalidAmount),
                        Some(a) => Ok(Transaction { action: Action::Withdrawal(a), client, tx }),
                    },
                    Kind::Dispute => Ok(Transaction { action: Action::Dispute, client, tx }),
                    Kind::Resolve => Ok(Transaction { action: Action::Resolve, client, tx }),
                    Kind::Chargeback => Ok(Transaction { action: Action::Chargeback, client, tx }),
                },
            },
        },
    }
}

impl Transaction {
    /// Every amount that the record carries is a valid decimal.
    pub open spec fn wf(self) -> bool {
        match self.action {
            Action::Deposit(a) => a.wf(),
            Action::Withdrawal(a) => a.wf(),
            _ => true,
        }
    }
}

/// Relies on `str::trim`: the text without leading and trailing white space.
#[verifier::external_body]
fn trimmed(s: &str) -> (r: &str)
    ensures
        r@ == trim_of(s@),
{
    s.trim()
}

/// Relies on `str::to_lowercase`: the text in lower case.
#[verifier::external_body]
fn lowercase(s: &str) -> (r: String)
    ensures
        r@ == lower_of(s@),
{
    s.to_lowercase()
}

/// Relies on `u32::from_str`, which reads an optional `+` and decimal digits
/// and fails on anything else or on a value beyond `u32::MAX`.
#[verifier::external_body]
fn parse_u32(s: &str) -> (r: Option<u32>)
    ensures
        r == u32_text(s@),
{
    u32::from_str(s).ok()
}

/// The kind that a lower-case word names, if any.
pub fn kind_of_word(w: &String) -> (r: Option<Kind>)
    ensures
        r == kind_of(w@),
{
    if *w == "deposit".to_owned() {
        Some(Kind::Deposit)
    } else if *w == "withdrawal".to_owned() {
        Some(Kind::Withdrawal)
    } else if *w == "dispute".to_owned() {
        Some(Kind::Dispute)
    } else if *w == "resolve".to_owned() {
        Some(Kind::Resolve)
    } else if *w == "chargeback".to_owned() {
        Some(Kind::Chargeback)
    } else {
        None
    }
}

/// The rejection for a row whose transaction id is no unsigned integer.
pub fn invalid_transaction_id(raw: &InputTransaction) -> (r: Rejection)
    ensures
        r == Rejection::InvalidTransactionId,
        u32_text(trim_of(raw.tx@)) is None && u32_text(trim_of(raw.client@)) is Some
            ==> transaction_of(*raw) == Err::<Transaction, Rejection>(r),
{
    Rejection::InvalidTransactionId
}

/// Decodes a row into a record, or says why it cannot be accepted.
pub fn parse_transaction(raw: &InputTransaction) -> (r: Result<Transaction, Rejection>)
    ensures
        r == transaction_of(*raw),
        r matches Ok(t) ==> t.wf(),
{
    let client = match parse_u32(trimmed(raw.client.as_str())) {
        Some(c) => c,
        None => return Err(Rejection::InvalidClientId),
    };
    let tx = match parse_u32(trimmed(raw.tx.as_str())) {
        Some(t) => t,
        None => return Err(invalid_transaction_id(raw)),
    };
    let word = lowercase(trimmed(raw.typ.as_str()));
    let kind = match kind_of_word(&word) {
        Some(k) => k,
        None => return Err(Rejection::UnknownKind),
    };
    let action = match kind {
        Kind::Deposit => match parse_amount(trimmed(raw.amount.as_str())) {
            Some(a) => Action::Deposit(a),
            None => return Err(Rejection::InvalidAmount),
        },
        Kind::Withdrawal => match parse_amount(trimmed(raw.amount.as_str())) {
            Some(a) => Action::Withdrawal(a),
            None => return Err(Rejection::InvalidAmount),
        },
        Kind::Dispute => Action::Dispute,
        Kind::Resolve => Action::Resolve,
        Kind::Chargeback => Action::Chargeback,
    };
    Ok(Transaction { action, client, tx })
}

} // verus!
