//! The settlement ledger: transfers recorded as transactions that leave
//! `Pending` exactly once.
//!
//! A transfer is split at the point where the settlement collaborator is
//! called: `begin_transfer` records the pending transaction and
//! `complete_transfer` records the collaborator's answer, so that the pending
//! record is visible to readers while the call is in flight.
use vstd::prelude::*;
use candid::Principal;
use crate::error::LedgerError;

verus! {

/// Where a transaction stands. `Confirmed` and `Failed` are terminal.
#[derive(Debug, PartialEq, Eq)]
pub enum TxStatus {
    Pending,
    Confirmed,
    Failed(String),
}

impl Clone for TxStatus {
    fn clone(&self) -> (r: Self)
        ensures
            r == *self,
    {
        match self {
            TxStatus::Pending => TxStatus::Pending,
            TxStatus::Confirmed => TxStatus::Confirmed,
            TxStatus::Failed(reason) => TxStatus::Failed(reason.clone()),
        }
    }
}

/// A transfer of `amount` from `from` to `to`.
#[derive(Debug)]
pub struct Transaction {
    pub tx_id: u64,
    pub from: Principal,
    pub to: Principal,
    pub amount: u64,
    pub status: TxStatus,
    pub timestamp: u64,
}

impl Clone for Transaction {
    fn clone(&self) -> (r: Self)
        ensures
            r == *self,
    {
        Transaction {
            tx_id: self.tx_id,
            from: self.from,
            to: self.to,
            amount: self.amount,
            status: self.status.clone(),
            timestamp: self.timestamp,
        }
    }
}

/// A balance lookup for the settlement collaborator to answer.
#[derive(Clone, Copy, Debug)]
pub struct BalanceQuery {
    /// The collaborator to ask.
    pub ledger: Principal,
    /// The account whose balance is wanted.
    pub account: Principal,
}

/// Whether a status is final.
pub open spec fn is_terminal(s: TxStatus) -> bool {
    !(s is Pending)
}

/// Every transaction of `a` is still in `b`, and those that had reached a
/// terminal status in `a` are unchanged in `b`.
pub open spec fn keeps_settled(a: Seq<Transaction>, b: Seq<Transaction>) -> bool {
    &&& a.len() <= b.len()
    &&& forall|i: int|
        0 <= i < a.len() && is_terminal(#[trigger] a[i].status) ==> b[i] == a[i]
}

/// Once a transaction is `Confirmed` or `Failed` it stays exactly as it is
/// across any run of operations, each of which keeps settled transactions.
pub proof fn lemma_settled_stays_settled(
    a: Seq<Transaction>,
    b: Seq<Transaction>,
    c: Seq<Transaction>,
)
    requires
        keeps_settled(a, b),
        keeps_settled(b, c),
    ensures
        keeps_settled(a, c),
{
    assert forall|i: int| 0 <= i < a.len() && is_terminal(#[trigger] a[i].status) implies c[i]
        == a[i] by {
        assert(b[i] == a[i]);
    }
}

/// The status a pending transaction takes on the collaborator's answer.
pub open spec fn outcome_status(outcome: Result<(), String>) -> TxStatus {
    match outcome {
        Ok(_) => TxStatus::Confirmed,
        Err(reason) => TxStatus::Failed(reason),
    }
}

/// The transactions, the identifier counter and the registered collaborator.
pub struct Settlement {
    ckbtc_canister_id: Option<Principal>,
    transactions: Vec<Transaction>,
    next_tx_id: u64,
}

impl Settlement {
    /// Every transaction, in order of identifier.
    pub closed spec fn transactions(&self) -> Seq<Transaction> {
        self.transactions@
    }

    /// The registered settlement collaborator, if any.
    pub closed spec fn canister(&self) -> Option<Principal> {
        self.ckbtc_canister_id
    }

    /// The identifiers issued to transactions, in the order they were issued.
    pub open spec fn tx_ids(&self) -> Seq<u64> {
        self.transactions().map_values(|t: Transaction| t.tx_id)
    }

    /// The identifier the next transaction will get.
    pub closed spec fn next_tx_id(&self) -> nat {
        self.next_tx_id as nat
    }

    /// The ledger's invariant: identifiers are dense from 1.
    pub closed spec fn wf(&self) -> bool {
        &&& self.next_tx_id == self.transactions@.len() + 1
        &&& forall|i: int|
            0 <= i < self.transactions@.len() ==> #[trigger] self.transactions@[i].tx_id == i + 1
    }

    /// Transaction identifiers are issued from 1 upwards with no gaps: the
    /// transaction at index `i` has identifier `i + 1`, and the next
    /// identifier is one past the last one issued.
    pub proof fn lemma_wf(&self)
        requires
            self.wf(),
        ensures
            self.next_tx_id() == self.transactions().len() + 1,
            forall|i: int|
                0 <= i < self.transactions().len() ==> #[trigger] self.transactions()[i].tx_id == i
                    + 1,
    {
    }

    /// Transaction identifiers rise by one from 1, over any run of calls.
    /// Only a transfer that begins extends `tx_ids`, by the identifier it
    /// records, and every other call leaves it as it is; so the k-th
    /// transaction recorded has identifier k.
    pub proof fn lemma_tx_ids_issued_in_order(&self)
        requires
            self.wf(),
        ensures
            forall|k: int| 0 <= k < self.tx_ids().len() ==> #[trigger] self.tx_ids()[k] == k + 1,
            self.next_tx_id() == self.tx_ids().len() + 1,
    {
    }

    /// Whether `tx_id` names an existing transaction.
    pub open spec fn has_tx(&self, tx_id: u64) -> bool {
        1 <= tx_id < self.next_tx_id()
    }

    /// A ledger with no transactions and no collaborator.
    pub fn new() -> (r: Self)
        ensures
            r.wf(),
            r.transactions() == Seq::<Transaction>::empty(),
            r.canister() == None::<Principal>,
            r.next_tx_id() == 1,
    {
        Settlement { ckbtc_canister_id: None, transactions: Vec::new(), next_tx_id: 1 }
    }

    /// Registers the settlement collaborator.
    pub fn set_ckbtc_canister_id(&mut self, id: Principal)
        requires
            old(self).wf(),
        ensures
            final(self).wf(),
            final(self).canister() == Some(id),
            final(self).transactions() == old(self).transactions(),
            final(self).next_tx_id() == old(self).next_tx_id(),
    {
        self.ckbtc_canister_id = Some(id);
    }

    /// The registered settlement collaborator, if any.
    pub fn get_ckbtc_canister_id(&self) -> (r: Option<Principal>)
        ensures
            r == self.canister(),
    {
        self.ckbtc_canister_id
    }

    /// Whether another transaction identifier can still be issued.
    pub fn has_tx_id_left(&self) -> (r: bool)
        ensures
            r == (self.next_tx_id() < u64::MAX),
    {
        self.next_tx_id < u64::MAX
    }

    /// Records a `Pending` transfer and returns its identifier, one more than
    /// the previous transaction's. Fails with `NotConfigured`, changing
    /// nothing, when no collaborator is registered.
    pub fn begin_transfer(&mut self, from: Principal, to: Principal, amount: u64, timestamp: u64) -> (r:
        Result<u64, LedgerError>)
        requires
            old(self).wf(),
            old(self).next_tx_id() < u64::MAX,
        ensures
            final(self).wf(),
            keeps_settled(old(self).transactions(), final(self).transactions()),
            final(self).canister() == old(self).canister(),
            old(self).canister() is None ==> r == Err::<u64, LedgerError>(LedgerError::NotConfigured)
                && *final(self) == *old(self),
            old(self).canister() is Some ==> {
                &&& r == Ok::<u64, LedgerError>(old(self).next_tx_id() as u64)
                &&& final(self).next_tx_id() == old(self).next_tx_id() + 1
                &&& final(self).tx_ids() == old(self).tx_ids().push(old(self).next_tx_id() as u64)
                &&& final(self).transactions() == old(self).transactions().push(
                    (Transaction {
                        tx_id: old(self).next_tx_id() as u64,
                        from,
                        to,
                        amount,
                        status: TxStatus::Pending,
                        timestamp,
                    }),
                )
            },
    {
        if self.ckbtc_canister_id.is_none() {
            return Err(LedgerError::NotConfigured);
        }
        let tx_id = self.next_tx_id;
        self.next_tx_id = tx_id + 1;
        let tx = Transaction { tx_id, from, to, amount, status: TxStatus::Pending, timestamp };
        self.transactions.push(tx);
        proof {
            assert forall|i: int| 0 <= i < self.transactions@.len() implies #[trigger] self.transactions@[i].tx_id
                == i + 1 by {
                if i < old(self).transactions@.len() {
                    assert(self.transactions@[i] == old(self).transactions@[i]);
                }
            }
        }
        assert(self.tx_ids() =~= old(self).tx_ids().push(tx_id));
        Ok(tx_id)
    }

    /// Records the collaborator's answer for the pending transaction `tx_id`:
    /// `Ok` confirms it and returns its identifier, `Err(reason)` marks it
    /// failed and returns `SettlementFailed(reason)`. Fails with `NotFound`
    /// or `InvalidTransition`, changing nothing, when the transaction does not
    /// exist or is no longer pending.
    pub fn complete_transfer(&mut self, tx_id: u64, outcome: Result<(), String>) -> (r: Result<
        u64,
        LedgerError,
    >)
        requires
            old(self).wf(),
        ensures
            final(self).wf(),
            keeps_settled(old(self).transactions(), final(self).transactions()),
            final(self).canister() == old(self).canister(),
            final(self).next_tx_id() == old(self).next_tx_id(),
            final(self).tx_ids() == old(self).tx_ids(),
            !old(self).has_tx(tx_id) ==> r == Err::<u64, LedgerError>(LedgerError::NotFound)
                && *final(self) == *old(self),
            old(self).has_tx(tx_id) && is_terminal(old(self).transactions()[tx_id - 1].status) ==> r
                == Err::<u64, LedgerError>(LedgerError::InvalidTransition) && *final(self)
                == *old(self),
            old(self).has_tx(tx_id) && !is_terminal(old(self).transactions()[tx_id - 1].status) ==> {
                let t = old(self).transactions()[tx_id - 1];
                &&& final(self).transactions() == old(self).transactions().update(
                    tx_id - 1,
                    (Transaction { status: outcome_status(outcome), ..t }),
                )
                &&& r == match outcome {
                    Ok(_) => Ok::<u64, LedgerError>(tx_id),
                    Err(reason) => Err(LedgerError::SettlementFailed(reason)),
                }
            },
    {
        if tx_id == 0 || tx_id >= self.next_tx_id {
            return Err(LedgerError::NotFound);
        }
        let n = self.transactions.len();
        assert(tx_id - 1 < n);
        let idx = (tx_id - 1) as usize;
        let pending = match self.transactions[idx].status {
            TxStatus::Pending => true,
            _ => false,
        };
        if !pending {
            return Err(LedgerError::InvalidTransition);
        }
        let mut tx = self.transactions[idx].clone();
        let r = match outcome {
            Ok(()) => {
                tx.status = TxStatus::Confirmed;
                Ok(tx_id)
            },
            Err(reason) => {
                tx.status = TxStatus::Failed(reason.clone());
                Err(LedgerError::SettlementFailed(reason))
            },
        };
        self.transactions.set(idx, tx);
        assert(self.tx_ids() =~= old(self).tx_ids());
        proof {
            assert forall|i: int| 0 <= i < self.transactions@.len() implies #[trigger] self.transactions@[i].tx_id
                == i + 1 by {
                if i != idx {
                    assert(self.transactions@[i] == old(self).transactions@[i]);
                }
            }
        }
        r
    }

    /// A whole transfer against a collaborator that answers `outcome` at
    /// once: records the transaction as pending, then records the answer.
    /// Fails with `NotConfigured`, changing nothing, when no collaborator is
    /// registered; otherwise returns what `complete_transfer` returns.
    pub fn transfer_ckbtc(
        &mut self,
        from: Principal,
        to: Principal,
        amount: u64,
        timestamp: u64,
        outcome: Result<(), String>,
    ) -> (r: Result<u64, LedgerError>)
        requires
            old(self).wf(),
            old(self).next_tx_id() < u64::MAX,
        ensures
            final(self).wf(),
            keeps_settled(old(self).transactions(), final(self).transactions()),
            final(self).canister() == old(self).canister(),
            old(self).canister() is None ==> r == Err::<u64, LedgerError>(LedgerError::NotConfigured)
                && *final(self) == *old(self),
            old(self).canister() is Some ==> {
                let id = old(self).next_tx_id() as u64;
                &&& final(self).next_tx_id() == old(self).next_tx_id() + 1
                &&& final(self).tx_ids() == old(self).tx_ids().push(id)
                &&& final(self).transactions() == old(self).transactions().push(
                    (Transaction { tx_id: id, from, to, amount, status: outcome_status(outcome), timestamp }),
                )
                &&& r == match outcome {
                    Ok(_) => Ok::<u64, LedgerError>(id),
                    Err(reason) => Err(LedgerError::SettlementFailed(reason)),
                }
            },
    {
        let tx_id = match self.begin_transfer(from, to, amount, timestamp) {
            Ok(id) => id,
            Err(e) => return Err(e),
        };
        let ghost mid = self.transactions();
        let r = self.complete_transfer(tx_id, outcome);
        proof {
            lemma_settled_stays_settled(old(self).transactions(), mid, self.transactions());
        }
        r
    }

    /// The transaction with identifier `tx_id`, if there is one.
    pub fn get_transaction(&self, tx_id: u64) -> (r: Option<Transaction>)
        requires
            self.wf(),
        ensures
            r == (if self.has_tx(tx_id) {
                Some(self.transactions()[tx_id - 1])
            } else {
                None
            }),
    {
        if tx_id == 0 || tx_id >= self.next_tx_id {
            None
        } else {
            let n = self.transactions.len();
            assert(tx_id - 1 < n);
            Some(self.transactions[(tx_id - 1) as usize].clone())
        }
    }

    /// Every transaction, in order of identifier, pending ones included.
    pub fn list_transactions(&self) -> (r: Vec<Transaction>)
        ensures
            r@ == self.transactions(),
    {
        let mut r: Vec<Transaction> = Vec::new();
        let mut i: usize = 0;
        while i < self.transactions.len()
            invariant
                i <= self.transactions@.len(),
                r@ == self.transactions@.subrange(0, i as int),
            decreases self.transactions@.len() - i,
        {
            r.push(self.transactions[i].clone());
            i = i + 1;
        }
        assert(r@ =~= self.transactions@);
        r
    }

    /// The lookup to send to the collaborator for `account`'s balance. Fails
    /// with `NotConfigured` when no collaborator is registered.
    pub fn query_balance(&self, account: Principal) -> (r: Result<BalanceQuery, LedgerError>)
        ensures
            r == match self.canister() {
                Some(ledger) => Ok::<BalanceQuery, LedgerError>(BalanceQuery { ledger, account }),
                None => Err(LedgerError::NotConfigured),
            },
    {
        match self.ckbtc_canister_id {
            Some(ledger) => Ok(BalanceQuery { ledger, account }),
            None => Err(LedgerError::NotConfigured),
        }
    }
}

/// The balance to report for the collaborator's answer to a `BalanceQuery`.
pub fn balance_reply(reply: Result<u64, String>) -> (r: Result<u64, LedgerError>)
    ensures
        r == match reply {
            Ok(b) => Ok::<u64, LedgerError>(b),
            Err(reason) => Err(LedgerError::SettlementFailed(reason)),
        },
{
    match reply {
        Ok(b) => Ok(b),
        Err(reason) => Err(LedgerError::SettlementFailed(reason)),
    }
}

} // verus!
