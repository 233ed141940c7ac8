//! A client's account: the funds it may spend, the funds held under dispute,
//! and whether a chargeback has frozen it.

use crate::decimal::{decimal_digits, push_decimal};
use vstd::prelude::*;
use vstd::string::StringExecFns;

verus! {

/// The mathematical value of an [`Account`]: balances are natural numbers of
/// ten-thousandths of a currency unit.
pub struct AccountView {
    pub client: u16,
    pub available: nat,
    pub held: nat,
    pub locked: bool,
}

impl AccountView {
    /// The account a client has before any transaction reached it.
    pub open spec fn opened(client: u16) -> AccountView {
        AccountView { client, available: 0, held: 0, locked: false }
    }

    /// All funds of the account, spendable or held.
    pub open spec fn total(self) -> nat {
        self.available + self.held
    }

    /// The total fits in 64 bits.
    pub open spec fn bounded(self) -> bool {
        self.total() <= u64::MAX
    }
}

/// The balances of one client, in ten-thousandths of a currency unit. The
/// total is not a field: it is the sum of the two balances.
#[derive(Debug, PartialEq, Eq, Clone, Copy)]
pub struct Account {
    pub client: u16,
    pub available: u64,
    pub held: u64,
    pub locked: bool,
}

impl View for Account {
    type V = AccountView;

    open spec fn view(&self) -> AccountView {
        AccountView {
            client: self.client,
            available: self.available as nat,
            held: self.held as nat,
            locked: self.locked,
        }
    }
}

/// The word for a truth value.
pub open spec fn bool_text(flag: bool) -> Seq<char> {
    if flag {
        "true"@
    } else {
        "false"@
    }
}

impl Account {
    /// An unlocked account with the given balances.
    pub fn new(client: u16, available: u64, held: u64) -> (account: Account)
        ensures
            account@ == (AccountView {
                client,
                available: available as nat,
                held: held as nat,
                locked: false,
            }),
    {
        Account { client, available, held, locked: false }
    }

    /// The client that owns the account.
    pub fn client(&self) -> (client: u16)
        ensures
            client == self.client,
    {
        self.client
    }

    /// The sum of the spendable and the held funds. It is derived on every
    /// call, never stored.
    pub fn total(&self) -> (total: u64)
        requires
            self@.bounded(),
        ensures
            total == self@.total(),
            total == self.available + self.held,
    {
        self.available + self.held
    }

    /// The account on one line, its balances in units:
    /// `Account client (available, held, total, locked)`.
    pub open spec fn text(self) -> Seq<char> {
        "Account "@ + decimal_digits(self.client as nat) + " ("@ + decimal_digits(
            self.available as nat,
        ) + ", "@ + decimal_digits(self.held as nat) + ", "@ + decimal_digits(self@.total())
            + ", "@ + bool_text(self.locked) + ")"@
    }

    /// Writes the account on one line, for people to read.
    pub fn to_text(&self) -> (line: String)
        requires
            self@.bounded(),
        ensures
            line@ == self.text(),
    {
        let mut line = String::from_str("Account ");
        push_decimal(&mut line, self.client as u64);
        line.append(" (");
        push_decimal(&mut line, self.available);
        line.append(", ");
        push_decimal(&mut line, self.held);
        line.append(", ");
        push_decimal(&mut line, self.total());
        line.append(", ");
        line.append(if self.locked { "true" } else { "false" });
        line.append(")");
        line
    }
}

} // verus!
