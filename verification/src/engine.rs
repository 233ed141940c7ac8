//! The engine: it owns the accounts and the record of deposits and disputes,
//! and applies the stream to them one record at a time.

use crate::account::Account;
use crate::ledger::LedgerState;
use crate::transaction::{Transaction, TxType};
use std::collections::HashMap;
use vstd::prelude::*;
use vstd::std_specs::iter::IteratorSpec;

verus! {

broadcast use vstd::std_specs::hash::group_hash_axioms;

/// The ledger at work. Its accounts and its record of deposits and disputes
/// change only through [`Engine::process_tx`]; what they are at any moment is
/// its view, a [`LedgerState`].
pub struct Engine {
    accounts: HashMap<u16, Account>,
    deposits: HashMap<u32, Transaction>,
    disputes: HashMap<u32, bool>,
}

impl View for Engine {
    type V = LedgerState;

    closed spec fn view(&self) -> LedgerState {
        LedgerState {
            accounts: self.accounts@.map_values(|a: Account| a@),
            deposits: self.deposits@.map_values(|t: Transaction| t@),
            disputed: marked(self.disputes@),
        }
    }
}

impl Engine {
    /// Every account is filed under its own client, and its total fits in 64
    /// bits.
    #[verifier::type_invariant]
    spec fn inv(&self) -> bool {
        forall|c: u16| #[trigger]
            self.accounts@.contains_key(c) ==> self.accounts@[c].client == c
                && self.accounts@[c]@.bounded()
    }

    /// The invariant of the engine makes its view well formed.
    proof fn lemma_view_wf(&self)
        requires
            self.inv(),
        ensures
            self@.wf(),
    {
        assert forall|t: u32| #[trigger] self@.deposits.contains_key(t) implies self@.deposits[t].amount
            <= u64::MAX by {
            self.deposits@[t].lemma_amount_fits();
        }
    }

    /// An engine that has seen no record.
    pub fn new() -> (engine: Engine)
        ensures
            engine@ == LedgerState::empty(),
    {
        let engine = Engine {
            accounts: HashMap::new(),
            deposits: HashMap::new(),
            disputes: HashMap::new(),
        };
        assert(engine@.accounts =~= Map::empty());
        assert(engine@.deposits =~= Map::empty());
        assert(engine@.disputed =~= Set::empty());
        engine
    }

    /// Applies one record, as [`LedgerState::apply`] says. A record that the
    /// rules do not accept changes nothing but that its client has an account
    /// afterwards; no record is an error.
    pub fn process_tx(&mut self, tx: Transaction)
        ensures
            final(self)@ == old(self)@.apply(tx@),
            final(self)@.wf(),
    {
        proof {
            use_type_invariant(&*self);
        }
        let mut taken = Engine::new();
        std::mem::swap(self, &mut taken);
        let Engine { mut accounts, mut deposits, mut disputes } = taken;
        let client: u16 = *tx.client();
        let id: u32 = *tx.tx();
        let amount: u64 = *tx.amount();
        let mut account = match accounts.get(&client) {
            Some(known) => *known,
            None => Account::new(client, 0, 0),
        };
        if !account.locked {
            match tx.txtype() {
                TxType::Deposit => {
                    if amount <= u64::MAX - account.total() {
                        account.available += amount;
                        deposits.insert(id, tx);
                    }
                },
                TxType::Withdrawal => {
                    if account.available >= amount {
                        account.available -= amount;
                    }
                },
                TxType::Dispute => {
                    if !is_disputed(&disputes, id) {
                        match deposits.get(&id) {
                            Some(deposit) => {
                                let moved: u64 = *deposit.amount();
                                if account.available >= moved {
                                    account.available -= moved;
                                    account.held += moved;
                                    disputes.insert(id, true);
                                }
                            },
                            None => {},
                        }
                    }
                },
                TxType::Resolve => {
                    if is_disputed(&disputes, id) {
                        match deposits.get(&id) {
                            Some(deposit) => {
                                let moved: u64 = *deposit.amount();
                                if account.held >= moved {
                                    account.available += moved;
                                    account.held -= moved;
                                    disputes.insert(id, false);
                                }
                            },
                            None => {},
                        }
                    }
                },
                TxType::Chargeback => {
                    if is_disputed(&disputes, id) {
                        match deposits.get(&id) {
                            Some(deposit) => {
                                let moved: u64 = *deposit.amount();
                                if account.held >= moved {
                                    account.held -= moved;
                                    account.locked = true;
                                }
                            },
                            None => {},
                        }
                    }
                },
            }
        }
        accounts.insert(client, account);
        *self = Engine { accounts, deposits, disputes };
        proof {
            let after = old(self)@.apply(tx@);
            assert(self@.accounts =~= after.accounts);
            assert(self@.deposits =~= after.deposits);
            assert(self@.disputed =~= after.disputed);
            self.lemma_view_wf();
        }
    }

    /// The accounts, each once, in no particular order. The total of each
    /// fits in 64 bits.
    pub fn accounts_iter(&self) -> (listed: Vec<Account>)
        ensures
            self@.wf(),
            listed@.len() == self@.accounts.len(),
            forall|i: int|
                0 <= i < listed@.len() ==> self@.accounts.contains_key((#[trigger] listed@[i]).client)
                    && self@.accounts[listed@[i].client] == listed@[i]@,
            forall|i: int, j: int|
                0 <= i < j < listed@.len() ==> listed@[i].client != listed@[j].client,
            forall|c: u16| #[trigger]
                self@.accounts.contains_key(c) ==> exists|i: int|
                    0 <= i < listed@.len() && listed@[i].client == c,
    {
        proof {
            use_type_invariant(self);
        }
        let ghost entries = self.accounts.iter().remaining();
        let mut listed: Vec<Account> = Vec::new();
        for entry in it: self.accounts.iter()
            invariant
                it.seq() == entries,
                listed@.len() == it.index(),
                forall|i: int| 0 <= i < listed@.len() ==> listed@[i] == *(#[trigger] entries[i]).1,
        {
            listed.push(*entry.1);
        }
        proof {
            self.lemma_view_wf();
            assert(self@.accounts.dom() =~= self.accounts@.dom());
            assert forall|i: int| 0 <= i < listed@.len() implies self@.accounts.contains_key(
                (#[trigger] listed@[i]).client,
            ) && self@.accounts[listed@[i].client] == listed@[i]@ by {
                assert(self.accounts@.contains_key(*entries[i].0));
            }
            assert forall|i: int, j: int| 0 <= i < j < listed@.len() implies listed@[i].client
                != listed@[j].client by {
                assert(self.accounts@.contains_key(*entries[i].0));
                assert(self.accounts@.contains_key(*entries[j].0));
                assert(entries[i] != entries[j]);
            }
            assert forall|c: u16| #[trigger] self@.accounts.contains_key(c) implies exists|i: int|
                0 <= i < listed@.len() && listed@[i].client == c by {
                let at = entries.index_of((&c, &self.accounts@[c]));
                assert(listed@[at].client == c);
            }
        }
        listed
    }
}

/// The ids that `marks` flags as under dispute.
spec fn marked(marks: Map<u32, bool>) -> Set<u32> {
    Set::new(|t: u32| marks.contains_key(t) && marks[t])
}

/// Whether the deposit `id` is flagged as under dispute.
fn is_disputed(marks: &HashMap<u32, bool>, id: u32) -> (flagged: bool)
    ensures
        flagged == marked(marks@).contains(id),
{
    match marks.get(&id) {
        Some(mark) => *mark,
        None => false,
    }
}

} // verus!
