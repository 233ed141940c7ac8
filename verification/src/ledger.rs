//! The rules of the ledger, as mathematics.
//!
//! [`LedgerState`] is what the engine knows at a moment: every account it has
//! seen, every deposit it has recorded and the deposits now under dispute.
//! [`LedgerState::apply`] says what one record does to it. The executable
//! engine is proved to compute exactly this function.

use crate::account::AccountView;
use crate::transaction::{TransactionView, TxType};
use vstd::prelude::*;

verus! {

/// The state of the ledger between two records.
pub struct LedgerState {
    /// The accounts, by client. An account appears with the first record that
    /// names its client and never leaves.
    pub accounts: Map<u16, AccountView>,
    /// The recorded deposits, by transaction id. Only deposits can be
    /// disputed.
    pub deposits: Map<u32, TransactionView>,
    /// The ids of the deposits that are under dispute now.
    pub disputed: Set<u32>,
}

impl LedgerState {
    /// The state before the first record.
    pub open spec fn empty() -> LedgerState {
        LedgerState { accounts: Map::empty(), deposits: Map::empty(), disputed: Set::empty() }
    }

    /// The account of `client`; one that no record has named yet is empty and
    /// unlocked.
    pub open spec fn account(self, client: u16) -> AccountView {
        if self.accounts.contains_key(client) {
            self.accounts[client]
        } else {
            AccountView::opened(client)
        }
    }

    /// Every account is filed under its own client and its total fits in 64
    /// bits, and so does every recorded amount.
    pub open spec fn wf(self) -> bool {
        &&& forall|c: u16| #[trigger]
            self.accounts.contains_key(c) ==> self.accounts[c].client == c
                && self.accounts[c].bounded()
        &&& forall|t: u32| #[trigger]
            self.deposits.contains_key(t) ==> self.deposits[t].amount <= u64::MAX
    }

    /// The amount that a dispute, a resolution or a chargeback naming `tx`
    /// moves: that of the recorded deposit.
    pub open spec fn disputable(self, tx: u32) -> nat
        recommends
            self.deposits.contains_key(tx),
    {
        self.deposits[tx].amount
    }

    /// Whether a record takes effect. A record that does not is passed over
    /// in silence.
    ///
    /// A locked account accepts nothing. A deposit must keep the account's
    /// total within 64 bits. A withdrawal needs the funds to be available. A
    /// dispute needs a recorded deposit that is not under dispute and whose
    /// amount is still available. A resolution and a chargeback need a
    /// recorded deposit under dispute whose amount is held.
    pub open spec fn accepts(self, tx: TransactionView) -> bool {
        let account = self.account(tx.client);
        &&& !account.locked
        &&& match tx.kind {
            TxType::Deposit => account.total() + tx.amount <= u64::MAX,
            TxType::Withdrawal => account.available >= tx.amount,
            TxType::Dispute => {
                &&& self.deposits.contains_key(tx.tx)
                &&& !self.disputed.contains(tx.tx)
                &&& account.available >= self.disputable(tx.tx)
            },
            TxType::Resolve | TxType::Chargeback => {
                &&& self.deposits.contains_key(tx.tx)
                &&& self.disputed.contains(tx.tx)
                &&& account.held >= self.disputable(tx.tx)
            },
        }
    }

    /// The account of the record's client after a record that took effect.
    pub open spec fn settled(self, tx: TransactionView) -> AccountView {
        let account = self.account(tx.client);
        match tx.kind {
            TxType::Deposit => AccountView {
                available: account.available + tx.amount,
                ..account
            },
            TxType::Withdrawal => AccountView {
                available: (account.available - tx.amount) as nat,
                ..account
            },
            TxType::Dispute => AccountView {
                available: (account.available - self.disputable(tx.tx)) as nat,
                held: account.held + self.disputable(tx.tx),
                ..account
            },
            TxType::Resolve => AccountView {
                available: account.available + self.disputable(tx.tx),
                held: (account.held - self.disputable(tx.tx)) as nat,
                ..account
            },
            TxType::Chargeback => AccountView {
                held: (account.held - self.disputable(tx.tx)) as nat,
                locked: true,
                ..account
            },
        }
    }

    /// The state after one record.
    ///
    /// The account of the record's client exists afterwards, whatever the
    /// record. Nothing else changes unless the record takes effect. Then the
    /// account is settled, a deposit is recorded under its id, a dispute
    /// marks its deposit and a resolution clears the mark.
    pub open spec fn apply(self, tx: TransactionView) -> LedgerState {
        if !self.accepts(tx) {
            LedgerState {
                accounts: self.accounts.insert(tx.client, self.account(tx.client)),
                ..self
            }
        } else {
            LedgerState {
                accounts: self.accounts.insert(tx.client, self.settled(tx)),
                deposits: match tx.kind {
                    TxType::Deposit => self.deposits.insert(tx.tx, tx),
                    _ => self.deposits,
                },
                disputed: match tx.kind {
                    TxType::Dispute => self.disputed.insert(tx.tx),
                    TxType::Resolve => self.disputed.remove(tx.tx),
                    _ => self.disputed,
                },
            }
        }
    }

    /// The state after a sequence of records, taken in order.
    pub open spec fn apply_all(self, txs: Seq<TransactionView>) -> LedgerState
        decreases txs.len(),
    {
        if txs.len() == 0 {
            self
        } else {
            self.apply_all(txs.drop_last()).apply(txs.last())
        }
    }
}

} // verus!
