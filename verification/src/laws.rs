//! What follows from the rules of the ledger, proved over the model.

use crate::ledger::LedgerState;
use crate::transaction::{TransactionView, TxType};
use vstd::prelude::*;

verus! {

/// The sum of the deposits that `txs` holds for `client`.
pub open spec fn deposited(txs: Seq<TransactionView>, client: u16) -> nat
    decreases txs.len(),
{
    if txs.len() == 0 {
        0
    } else {
        let last = txs.last();
        let rest = deposited(txs.drop_last(), client);
        if last.kind == TxType::Deposit && last.client == client {
            rest + last.amount
        } else {
            rest
        }
    }
}

/// Whether two states agree on every account, on the recorded deposits and on
/// the disputes. Two such states differ at most in which untouched accounts
/// have been opened.
pub open spec fn same_books(a: LedgerState, b: LedgerState) -> bool {
    &&& forall|c: u16| a.account(c) == b.account(c)
    &&& a.deposits == b.deposits
    &&& a.disputed == b.disputed
}

/// A record that the rules do not accept changes no balance, no lock, no
/// recorded deposit and no dispute.
pub proof fn lemma_rejected_changes_nothing(s: LedgerState, tx: TransactionView)
    requires
        !s.accepts(tx),
    ensures
        same_books(s.apply(tx), s),
{
}

/// A record changes no account but that of its own client.
pub proof fn lemma_other_accounts_untouched(s: LedgerState, tx: TransactionView, other: u16)
    requires
        other != tx.client,
    ensures
        s.apply(tx).account(other) == s.account(other),
        s.apply(tx).accounts.contains_key(other) == s.accounts.contains_key(other),
{
}

/// One record keeps the state well formed: every total still fits in 64
/// bits.
pub proof fn lemma_apply_keeps_wf(s: LedgerState, tx: TransactionView)
    requires
        s.wf(),
        tx.amount <= u64::MAX,
    ensures
        s.apply(tx).wf(),
{
}

/// A stream keeps the state well formed, record after record.
pub proof fn lemma_apply_all_keeps_wf(s: LedgerState, txs: Seq<TransactionView>)
    requires
        s.wf(),
        forall|i: int| 0 <= i < txs.len() ==> (#[trigger] txs[i]).amount <= u64::MAX,
    ensures
        s.apply_all(txs).wf(),
    decreases txs.len(),
{
    if txs.len() > 0 {
        let front = txs.drop_last();
        assert forall|i: int| 0 <= i < front.len() implies (#[trigger] front[i]).amount
            <= u64::MAX by {
            assert(front[i] == txs[i]);
        }
        lemma_apply_all_keeps_wf(s, front);
        lemma_apply_keeps_wf(s.apply_all(front), txs.last());
    }
}

/// After a stream of deposits alone, a client has exactly the sum of its
/// deposits available and nothing held, as long as that sum fits in 64 bits.
pub proof fn lemma_deposits_add_up(txs: Seq<TransactionView>, client: u16)
    requires
        forall|i: int| 0 <= i < txs.len() ==> (#[trigger] txs[i]).kind == TxType::Deposit,
        deposited(txs, client) <= u64::MAX,
    ensures
        LedgerState::empty().apply_all(txs).account(client).available == deposited(txs, client),
        LedgerState::empty().apply_all(txs).account(client).held == 0,
        !LedgerState::empty().apply_all(txs).account(client).locked,
    decreases txs.len(),
{
    if txs.len() > 0 {
        let front = txs.drop_last();
        assert forall|i: int| 0 <= i < front.len() implies (#[trigger] front[i]).kind
            == TxType::Deposit by {
            assert(front[i] == txs[i]);
        }
        lemma_deposits_add_up(front, client);
        assert(txs.last() == txs[txs.len() - 1]);
    }
}

/// A withdrawal of more than is available leaves every account, and the
/// record of deposits and disputes, as it was.
pub proof fn lemma_overdraft_changes_nothing(s: LedgerState, tx: TransactionView)
    requires
        tx.kind == TxType::Withdrawal,
        tx.amount > s.account(tx.client).available,
    ensures
        same_books(s.apply(tx), s),
{
}

/// A dispute that names no recorded deposit leaves every account, and the
/// record of deposits and disputes, as it was.
pub proof fn lemma_dispute_of_unknown_changes_nothing(s: LedgerState, tx: TransactionView)
    requires
        tx.kind == TxType::Dispute,
        !s.deposits.contains_key(tx.tx),
    ensures
        same_books(s.apply(tx), s),
{
}

/// A dispute followed by a resolution of the same deposit for the same client
/// gives back the state before the dispute: the same available and held funds
/// and the same disputes.
///
/// This holds unless the resolution would have taken effect without the
/// dispute, the deposit being under dispute already.
pub proof fn lemma_dispute_then_resolve(
    s: LedgerState,
    dispute: TransactionView,
    resolve: TransactionView,
)
    requires
        dispute.kind == TxType::Dispute,
        resolve.kind == TxType::Resolve,
        resolve.client == dispute.client,
        resolve.tx == dispute.tx,
        !s.accepts(resolve),
    ensures
        same_books(s.apply(dispute).apply(resolve), s),
{
    let after = s.apply(dispute).apply(resolve);
    assert(after.disputed =~= s.disputed);
}

/// A chargeback that follows a dispute of the same deposit for the same
/// client locks the account and takes the disputed amount out of the held
/// funds; the chargeback itself leaves the available funds alone. After it,
/// no record for that client changes anything.
///
/// This holds where the dispute takes effect, and where the deposit was under
/// dispute already with its amount held.
pub proof fn lemma_dispute_then_chargeback(
    s: LedgerState,
    dispute: TransactionView,
    chargeback: TransactionView,
)
    requires
        dispute.kind == TxType::Dispute,
        chargeback.kind == TxType::Chargeback,
        chargeback.client == dispute.client,
        chargeback.tx == dispute.tx,
        s.accepts(dispute) || s.accepts(chargeback),
    ensures
        ({
            let disputed = s.apply(dispute);
            let before = disputed.account(dispute.client);
            let after = disputed.apply(chargeback).account(dispute.client);
            &&& after.locked
            &&& after.held == before.held - s.disputable(dispute.tx)
            &&& after.available == before.available
            &&& s.accepts(dispute) ==> after.held == s.account(dispute.client).held
                && after.available == s.account(dispute.client).available - s.disputable(
                dispute.tx,
            )
            &&& forall|next: TransactionView|
                next.client == dispute.client ==> #[trigger] disputed.apply(chargeback).apply(next)
                    == disputed.apply(chargeback)
        }),
{
    let closed = s.apply(dispute).apply(chargeback);
    assert forall|next: TransactionView| next.client == dispute.client implies #[trigger] closed.apply(
        next,
    ) == closed by {
        lemma_locked_is_final(closed, next);
    }
}

/// A locked account is frozen: a record for its client changes nothing at
/// all, whatever it asks.
pub proof fn lemma_locked_is_final(s: LedgerState, tx: TransactionView)
    requires
        s.account(tx.client).locked,
    ensures
        s.apply(tx) == s,
{
    assert(s.apply(tx).accounts =~= s.accounts);
}

} // verus!
