//! One record of the input stream.

use crate::amount::Amount;
use crate::decimal::{decimal_digits, push_decimal};
use crate::error::PaymentError;
use vstd::prelude::*;
use vstd::string::{is_ascii_spec_bytes, StrSliceExecFns, StringExecFns};

verus! {

/// What a record asks of the ledger.
#[derive(Debug, Clone, Copy, PartialEq, Eq)]
pub enum TxType {
    Deposit,
    Withdrawal,
    Dispute,
    Resolve,
    Chargeback,
}

/// A letter of `A` to `Z` as its small letter, any other character as
/// itself.
pub open spec fn ascii_lower(c: char) -> char {
    if 'A' <= c && c <= 'Z' {
        ((c as u8) + 32) as char
    } else {
        c
    }
}

/// A text with its letters of `A` to `Z` made small.
pub open spec fn lowered(text: Seq<char>) -> Seq<char> {
    Seq::new(text.len(), |i: int| ascii_lower(text[i]))
}

impl TxType {
    /// The word for a kind of record, in small letters.
    pub open spec fn name(self) -> Seq<char> {
        match self {
            TxType::Deposit => "deposit"@,
            TxType::Withdrawal => "withdrawal"@,
            TxType::Dispute => "dispute"@,
            TxType::Resolve => "resolve"@,
            TxType::Chargeback => "chargeback"@,
        }
    }

    /// The name of the kind, with a capital first letter.
    pub open spec fn title(self) -> Seq<char> {
        match self {
            TxType::Deposit => "Deposit"@,
            TxType::Withdrawal => "Withdrawal"@,
            TxType::Dispute => "Dispute"@,
            TxType::Resolve => "Resolve"@,
            TxType::Chargeback => "Chargeback"@,
        }
    }

    /// The kind of record that a word stands for, whether its letters are
    /// small or capital; a text that is no such word stands for none.
    pub open spec fn named(text: Seq<char>) -> Option<TxType> {
        if lowered(text) == TxType::Deposit.name() {
            Some(TxType::Deposit)
        } else if lowered(text) == TxType::Withdrawal.name() {
            Some(TxType::Withdrawal)
        } else if lowered(text) == TxType::Dispute.name() {
            Some(TxType::Dispute)
        } else if lowered(text) == TxType::Resolve.name() {
            Some(TxType::Resolve)
        } else if lowered(text) == TxType::Chargeback.name() {
            Some(TxType::Chargeback)
        } else {
            None
        }
    }

    /// The word for the kind, in small letters, as it is written out.
    pub fn as_text(&self) -> (word: &'static str)
        ensures
            word@ == self.name(),
    {
        match self {
            TxType::Deposit => "deposit",
            TxType::Withdrawal => "withdrawal",
            TxType::Dispute => "dispute",
            TxType::Resolve => "resolve",
            TxType::Chargeback => "chargeback",
        }
    }

    /// Reads the kind of a record from its word, whatever the case of its
    /// letters. Any other text is refused.
    pub fn from_text(text: &str) -> (kind: Result<TxType, PaymentError>)
        ensures
            match TxType::named(text@) {
                Some(named) => kind == Ok::<TxType, PaymentError>(named),
                None => kind matches Err(PaymentError::InputError(reason)) && reason@
                    == "unknown transaction type: "@ + text@,
            },
    {
        proof {
            lemma_names_are_small();
        }
        if !text.is_ascii() {
            proof {
                lemma_lowered_stays_outside_ascii(text@);
            }
            return Err(unknown_kind(text));
        }
        if reads_as(text, "deposit") {
            Ok(TxType::Deposit)
        } else if reads_as(text, "withdrawal") {
            Ok(TxType::Withdrawal)
        } else if reads_as(text, "dispute") {
            Ok(TxType::Dispute)
        } else if reads_as(text, "resolve") {
            Ok(TxType::Resolve)
        } else if reads_as(text, "chargeback") {
            Ok(TxType::Chargeback)
        } else {
            Err(unknown_kind(text))
        }
    }
}

/// The word for a kind of record stands for that kind: what
/// [`TxType::as_text`] writes, [`TxType::from_text`] reads back.
pub proof fn lemma_name_reads_back(kind: TxType)
    ensures
        TxType::named(kind.name()) == Some(kind),
{
    reveal_strlit("deposit");
    reveal_strlit("withdrawal");
    reveal_strlit("dispute");
    reveal_strlit("resolve");
    reveal_strlit("chargeback");
    assert(lowered(kind.name()) =~= kind.name());
    assert("deposit"@.len() == 7 && "dispute"@.len() == 7 && "resolve"@.len() == 7);
    assert("withdrawal"@.len() == 10 && "chargeback"@.len() == 10);
    assert("deposit"@[1] == 'e' && "dispute"@[1] == 'i' && "resolve"@[0] == 'r');
    assert("withdrawal"@[0] == 'w' && "chargeback"@[0] == 'c');
}

/// Whether a character is one of the 128 of ASCII.
spec fn in_ascii(c: char) -> bool {
    '\0' <= c <= '\u{7f}'
}

/// Every word for a kind of record is made of small ASCII letters.
proof fn lemma_names_are_small()
    ensures
        forall|kind: TxType, i: int|
            0 <= i < kind.name().len() ==> 'a' <= #[trigger] kind.name()[i] <= 'z',
{
    reveal_strlit("deposit");
    reveal_strlit("withdrawal");
    reveal_strlit("dispute");
    reveal_strlit("resolve");
    reveal_strlit("chargeback");
}

/// A text with a character outside ASCII keeps it when its letters are made
/// small.
proof fn lemma_lowered_stays_outside_ascii(text: Seq<char>)
    requires
        !vstd::utf8::is_ascii_chars(text),
    ensures
        exists|i: int| 0 <= i < text.len() && !in_ascii(#[trigger] lowered(text)[i]),
{
    let i = choose|i: int| 0 <= i < text.len() && !('\0' <= #[trigger] text[i] <= '\u{7f}');
    assert(lowered(text)[i] == text[i]);
}

/// The refusal of a text that is no word for a kind of record.
fn unknown_kind(text: &str) -> (refusal: PaymentError)
    ensures
        refusal matches PaymentError::InputError(reason) && reason@
            == "unknown transaction type: "@ + text@,
{
    PaymentError::InputError(String::from_str("unknown transaction type: ").concat(text))
}

/// The small letter of a byte that is a capital letter of ASCII, any other
/// byte unchanged.
fn lower_byte(byte: u8) -> (small: u8)
    requires
        byte < 128,
    ensures
        small as char == ascii_lower(byte as char),
{
    if 65 <= byte && byte <= 90 {
        byte + 32
    } else {
        byte
    }
}

/// Whether `text` is `word` but for the case of its letters.
fn reads_as(text: &str, word: &str) -> (same: bool)
    requires
        text.is_ascii(),
        word.is_ascii(),
    ensures
        same == (lowered(text@) == word@),
{
    broadcast use is_ascii_spec_bytes;

    let given = text.as_bytes();
    let wanted = word.as_bytes();
    if given.len() != wanted.len() {
        assert(lowered(text@).len() != word@.len());
        return false;
    }
    let mut at: usize = 0;
    while at < given.len()
        invariant
            at <= given.len(),
            given.len() == wanted.len(),
            given@.len() == text@.len(),
            wanted@.len() == word@.len(),
            forall|i: int| 0 <= i < text@.len() ==> given@[i] == text@[i] as u8,
            forall|i: int| 0 <= i < word@.len() ==> wanted@[i] == word@[i] as u8,
            text.is_ascii(),
            word.is_ascii(),
            forall|i: int| 0 <= i < at ==> lowered(text@)[i] == word@[i],
        decreases given.len() - at,
    {
        if lower_byte(given[at]) != wanted[at] {
            assert(lowered(text@)[at as int] != word@[at as int]);
            return false;
        }
        at = at + 1;
    }
    assert(lowered(text@) =~= word@);
    true
}

/// The mathematical value of a [`Transaction`].
///
/// For a dispute, a resolution and a chargeback the amount carries no
/// meaning: the ledger looks up the amount of the deposit that `tx` names.
pub struct TransactionView {
    pub kind: TxType,
    pub client: u16,
    pub tx: u32,
    pub amount: nat,
}

impl TransactionView {
    /// The record on one line, its amount in units:
    /// `Transaction (Kind, client, tx, amount)`.
    pub open spec fn text(self) -> Seq<char> {
        "Transaction ("@ + self.kind.title() + ", "@ + decimal_digits(self.client as nat) + ", "@
            + decimal_digits(self.tx as nat) + ", "@ + decimal_digits(self.amount) + ")"@
    }
}

/// A record of the input stream. It cannot be changed once it is made.
#[derive(Debug, Clone, Copy)]
pub struct Transaction {
    txtype: TxType,
    client: u16,
    tx: u32,
    amount: Amount,
}

impl View for Transaction {
    type V = TransactionView;

    closed spec fn view(&self) -> TransactionView {
        TransactionView {
            kind: self.txtype,
            client: self.client,
            tx: self.tx,
            amount: self.amount.value as nat,
        }
    }
}

impl Transaction {
    /// A record of the given kind; `amount` counts ten-thousandths of a
    /// currency unit.
    pub fn new(txtype: TxType, client: u16, tx: u32, amount: u64) -> (record: Transaction)
        ensures
            record@ == (TransactionView { kind: txtype, client, tx, amount: amount as nat }),
    {
        Transaction { txtype, client, tx, amount: Amount { value: amount } }
    }

    /// The amount of a record is a 64-bit count.
    pub proof fn lemma_amount_fits(self)
        ensures
            self@.amount <= u64::MAX,
    {
    }

    /// Writes the record on one line, for people to read.
    pub fn to_text(&self) -> (line: String)
        ensures
            line@ == self@.text(),
    {
        let mut line = String::from_str("Transaction (");
        line.append(
            match self.txtype {
                TxType::Deposit => "Deposit",
                TxType::Withdrawal => "Withdrawal",
                TxType::Dispute => "Dispute",
                TxType::Resolve => "Resolve",
                TxType::Chargeback => "Chargeback",
            },
        );
        line.append(", ");
        push_decimal(&mut line, self.client as u64);
        line.append(", ");
        push_decimal(&mut line, self.tx as u64);
        line.append(", ");
        push_decimal(&mut line, self.amount.value);
        line.append(")");
        line
    }

    /// What the record asks for.
    pub fn txtype(&self) -> (kind: &TxType)
        ensures
            *kind == self@.kind,
    {
        &self.txtype
    }

    /// The client whose account the record is for.
    pub fn client(&self) -> (client: &u16)
        ensures
            *client == self@.client,
    {
        &self.client
    }

    /// The id of the record; for a dispute, a resolution and a chargeback,
    /// the id of the deposit that it is about.
    pub fn tx(&self) -> (tx: &u32)
        ensures
            *tx == self@.tx,
    {
        &self.tx
    }

    /// The amount of the record, in ten-thousandths of a currency unit.
    pub fn amount(&self) -> (amount: &u64)
        ensures
            *amount as nat == self@.amount,
    {
        &self.amount.value
    }
}

} // verus!
