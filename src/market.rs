//! Futures contracts, carbon credits and the audit log they write to.
use vstd::prelude::*;
use candid::Principal;
use crate::bounded::{
    last_n, lemma_push_all_bounded, lemma_push_bounded_last_n, push_all_bounded, push_bounded, push_bounded_vec,
};
use crate::error::LedgerError;
use crate::events::{emit_event, log_append, snapshot_events, ContractEvent, EventType, EVENT_LOG_SIZE};

verus! {

/// How many past risk scores a credit keeps.
pub const RISK_HISTORY_LEN: usize = 10;

/// Where a futures contract stands in its lifecycle.
#[derive(Clone, Copy, Debug, PartialEq, Eq, Structural)]
pub enum ContractStatus {
    Created,
    Purchased,
    Expired,
    Settled,
}

/// A futures contract for delivery of carbon credits.
///
/// The buyer is named when the contract is created, so `buyer` is always set;
/// purchase moves the contract to `Purchased` without changing the parties.
/// The price is held in US cents.
#[derive(Clone, Copy, Debug)]
pub struct FuturesContract {
    pub id: u64,
    pub buyer: Option<Principal>,
    pub seller: Principal,
    pub amount_tonnes: u32,
    pub price_usd_cents: u64,
    pub delivery_year: u16,
    pub status: ContractStatus,
    pub created_at: u64,
    pub updated_at: u64,
}

/// A carbon credit with its risk score and the scores it had before, oldest first.
#[derive(Debug)]
pub struct CarbonCredit {
    pub id: u64,
    pub owner: Principal,
    pub risk_score: Option<u8>,
    pub risk_score_history: Vec<u8>,
}

impl Clone for CarbonCredit {
    fn clone(&self) -> (r: Self)
        ensures
            r.id == self.id,
            r.owner == self.owner,
            r.risk_score == self.risk_score,
            r.risk_score_history@ == self.risk_score_history@,
    {
        let h = self.risk_score_history.clone();
        assert(h@ =~= self.risk_score_history@);
        CarbonCredit {
            id: self.id,
            owner: self.owner,
            risk_score: self.risk_score,
            risk_score_history: h,
        }
    }
}

/// What a credit holds, as plain values.
pub struct CreditView {
    pub id: u64,
    pub owner: Principal,
    pub risk_score: Option<u8>,
    pub risk_score_history: Seq<u8>,
}

impl View for CarbonCredit {
    type V = CreditView;

    open spec fn view(&self) -> CreditView {
        CreditView {
            id: self.id,
            owner: self.owner,
            risk_score: self.risk_score,
            risk_score_history: self.risk_score_history@,
        }
    }
}

/// A history of risk scores after `score` is recorded.
pub open spec fn history_push(h: Seq<u8>, score: u8) -> Seq<u8> {
    push_bounded(h, score, RISK_HISTORY_LEN as nat)
}

/// A history of risk scores after each of `scores` is recorded, in order.
pub open spec fn history_push_all(h: Seq<u8>, scores: Seq<u8>) -> Seq<u8> {
    push_all_bounded(h, scores, RISK_HISTORY_LEN as nat)
}

/// However many scores are recorded, the history holds the most recent
/// `RISK_HISTORY_LEN` of them in the order they were recorded. Starting from
/// an empty history, once at least `RISK_HISTORY_LEN` scores were recorded it
/// holds exactly the last `RISK_HISTORY_LEN` of them.
pub proof fn lemma_risk_history_keeps_last(h: Seq<u8>, scores: Seq<u8>)
    requires
        h.len() <= RISK_HISTORY_LEN,
    ensures
        history_push_all(h, scores) == last_n(h + scores, RISK_HISTORY_LEN as nat),
        h.len() == 0 && scores.len() >= RISK_HISTORY_LEN ==> history_push_all(h, scores).len()
            == RISK_HISTORY_LEN && history_push_all(h, scores) == scores.subrange(
            scores.len() - RISK_HISTORY_LEN,
            scores.len() as int,
        ),
{
    lemma_push_all_bounded(h, scores, RISK_HISTORY_LEN as nat);
    if h.len() == 0 {
        assert(h + scores =~= scores);
        if scores.len() == RISK_HISTORY_LEN {
            assert(scores.subrange(0, scores.len() as int) =~= scores);
        }
    }
}

/// A contract that is consistent on its own: the buyer is named and the
/// last update is not older than the creation.
pub open spec fn contract_wf(c: FuturesContract) -> bool {
    &&& c.buyer.is_some()
    &&& c.created_at <= c.updated_at
}

/// A credit that is consistent on its own: the history is bounded and ends in
/// the current score, and a credit without a score has no history.
pub open spec fn credit_wf(c: CreditView) -> bool {
    &&& c.risk_score_history.len() <= RISK_HISTORY_LEN
    &&& match c.risk_score {
        Some(s) => c.risk_score_history.len() > 0 && c.risk_score_history.last() == s,
        None => c.risk_score_history.len() == 0,
    }
}

/// The later of two instants.
pub open spec fn later(a: u64, b: u64) -> u64 {
    if a >= b {
        a
    } else {
        b
    }
}

/// `c` moved to `status` at time `now`; the update time never goes backwards.
pub open spec fn transition(c: FuturesContract, status: ContractStatus, now: u64) -> FuturesContract {
    FuturesContract { status, updated_at: later(c.updated_at, now), ..c }
}

/// The event that records a lifecycle transition.
pub open spec fn event_of(event_type: EventType, contract_id: u64, timestamp: u64) -> ContractEvent {
    ContractEvent { event_type, contract_id, timestamp, details: None }
}

/// A contract may be bought only while it is `Created`.
pub open spec fn can_buy(c: FuturesContract) -> bool {
    c.status == ContractStatus::Created
}

/// A contract may expire unless it already reached a terminal status.
pub open spec fn can_expire(c: FuturesContract) -> bool {
    c.status == ContractStatus::Created || c.status == ContractStatus::Purchased
}

/// The contract ledger, the credit registry and the audit log.
///
/// Identifiers are issued per class, starting at 1 and rising by one per
/// record, so the record with identifier `k` stands at index `k - 1`.
pub struct Marketplace {
    contracts: Vec<FuturesContract>,
    next_contract_id: u64,
    credits: Vec<CarbonCredit>,
    next_credit_id: u64,
    events: Vec<ContractEvent>,
    emitted: Ghost<Seq<ContractEvent>>,
}

impl Marketplace {
    /// Every contract, in order of identifier.
    pub closed spec fn contracts(&self) -> Seq<FuturesContract> {
        self.contracts@
    }

    /// Every credit, in order of identifier.
    pub closed spec fn credits(&self) -> Seq<CreditView> {
        self.credits@.map_values(|c: CarbonCredit| c@)
    }

    /// The audit log, oldest first.
    pub closed spec fn events(&self) -> Seq<ContractEvent> {
        self.events@
    }

    /// Every event ever emitted, oldest first, whether or not the log still
    /// holds it.
    pub closed spec fn emitted(&self) -> Seq<ContractEvent> {
        self.emitted@
    }

    /// The identifiers issued to contracts, in the order they were issued.
    pub open spec fn contract_ids(&self) -> Seq<u64> {
        self.contracts().map_values(|c: FuturesContract| c.id)
    }

    /// The identifiers issued to credits, in the order they were issued.
    pub open spec fn credit_ids(&self) -> Seq<u64> {
        self.credits().map_values(|c: CreditView| c.id)
    }

    /// The identifier the next contract will get.
    pub closed spec fn next_contract_id(&self) -> nat {
        self.next_contract_id as nat
    }

    /// The identifier the next credit will get.
    pub closed spec fn next_credit_id(&self) -> nat {
        self.next_credit_id as nat
    }

    /// The marketplace's invariant.
    pub closed spec fn wf(&self) -> bool {
        &&& self.next_contract_id == self.contracts@.len() + 1
        &&& self.next_credit_id == self.credits@.len() + 1
        &&& self.events@.len() <= EVENT_LOG_SIZE
        &&& self.events@ == last_n(self.emitted@, EVENT_LOG_SIZE as nat)
        &&& forall|i: int|
            0 <= i < self.contracts@.len() ==> #[trigger] self.contracts@[i].id == i + 1
                && contract_wf(self.contracts@[i])
        &&& forall|i: int|
            0 <= i < self.credits@.len() ==> #[trigger] self.credits@[i].id == i + 1
                && credit_wf(self.credits@[i]@)
    }

    /// Identifiers are issued from 1 upwards with no gaps: in a well-formed
    /// marketplace the contract and the credit at index `i` have identifier
    /// `i + 1`, the next identifier of each class is one past the last one
    /// issued, and every record is consistent.
    pub proof fn lemma_wf(&self)
        requires
            self.wf(),
        ensures
            self.next_contract_id() == self.contracts().len() + 1,
            self.next_credit_id() == self.credits().len() + 1,
            self.events().len() <= EVENT_LOG_SIZE,
            forall|i: int|
                0 <= i < self.contracts().len() ==> #[trigger] self.contracts()[i].id == i + 1
                    && contract_wf(self.contracts()[i]),
            forall|i: int|
                0 <= i < self.credits().len() ==> #[trigger] self.credits()[i].id == i + 1
                    && credit_wf(self.credits()[i]),
    {
        assert forall|i: int| 0 <= i < self.credits().len() implies #[trigger] self.credits()[i].id
            == i + 1 && credit_wf(self.credits()[i]) by {
            assert(self.credits@[i].id == i + 1);
        }
    }

    /// Identifiers rise by one from 1, over any run of calls. Only
    /// `create_contract` extends `contract_ids`, by the identifier it returns,
    /// and every other call leaves it as it is (likewise `create_credit` and
    /// `credit_ids`); so the k-th identifier issued in a class is k, and the
    /// next one is one past the last.
    pub proof fn lemma_ids_issued_in_order(&self)
        requires
            self.wf(),
        ensures
            forall|k: int| 0 <= k < self.contract_ids().len() ==> #[trigger] self.contract_ids()[k] == k + 1,
            forall|k: int| 0 <= k < self.credit_ids().len() ==> #[trigger] self.credit_ids()[k] == k + 1,
            self.next_contract_id() == self.contract_ids().len() + 1,
            self.next_credit_id() == self.credit_ids().len() + 1,
    {
        self.lemma_wf();
    }

    /// The log holds exactly the last `EVENT_LOG_SIZE` events ever emitted,
    /// in the order they were emitted; once more than `EVENT_LOG_SIZE` were
    /// emitted it holds exactly `EVENT_LOG_SIZE` of them.
    pub proof fn lemma_log_is_last_emitted(&self)
        requires
            self.wf(),
        ensures
            self.events() == last_n(self.emitted(), EVENT_LOG_SIZE as nat),
            self.emitted().len() > EVENT_LOG_SIZE ==> self.events().len() == EVENT_LOG_SIZE
                && self.events() == self.emitted().subrange(
                self.emitted().len() - EVENT_LOG_SIZE,
                self.emitted().len() as int,
            ),
    {
    }

    /// Appends `e` to the log and to the record of emitted events.
    fn log_event(&mut self, e: ContractEvent)
        requires
            old(self).events@.len() <= EVENT_LOG_SIZE,
            old(self).events@ == last_n(old(self).emitted@, EVENT_LOG_SIZE as nat),
        ensures
            final(self).events@ == log_append(old(self).events@, e),
            final(self).emitted@ == old(self).emitted@.push(e),
            final(self).events@.len() <= EVENT_LOG_SIZE,
            final(self).events@ == last_n(final(self).emitted@, EVENT_LOG_SIZE as nat),
            final(self).contracts == old(self).contracts,
            final(self).credits == old(self).credits,
            final(self).next_contract_id == old(self).next_contract_id,
            final(self).next_credit_id == old(self).next_credit_id,
    {
        proof {
            lemma_push_bounded_last_n(self.emitted@, e, EVENT_LOG_SIZE as nat);
        }
        self.emitted = Ghost(self.emitted@.push(e));
        emit_event(&mut self.events, e);
    }

    /// Whether `id` names an existing contract.
    pub open spec fn has_contract(&self, id: u64) -> bool {
        1 <= id < self.next_contract_id()
    }

    /// Whether `id` names an existing credit.
    pub open spec fn has_credit(&self, id: u64) -> bool {
        1 <= id < self.next_credit_id()
    }

    /// Whether another contract identifier can still be issued.
    pub fn has_contract_id_left(&self) -> (r: bool)
        ensures
            r == (self.next_contract_id() < u64::MAX),
    {
        self.next_contract_id < u64::MAX
    }

    /// Whether another credit identifier can still be issued.
    pub fn has_credit_id_left(&self) -> (r: bool)
        ensures
            r == (self.next_credit_id() < u64::MAX),
    {
        self.next_credit_id < u64::MAX
    }

    /// Records a new contract in status `Created`, logs its creation and
    /// returns its identifier, which is one more than the previous contract's.
    pub fn create_contract(
        &mut self,
        buyer: Principal,
        seller: Principal,
        amount_tonnes: u32,
        price_usd_cents: u64,
        delivery_year: u16,
        now: u64,
    ) -> (id: u64)
        requires
            old(self).wf(),
            old(self).next_contract_id() < u64::MAX,
        ensures
            final(self).wf(),
            id == old(self).next_contract_id(),
            id == old(self).contracts().len() + 1,
            final(self).next_contract_id() == id + 1,
            final(self).contracts() == old(self).contracts().push(
                (FuturesContract {
                    id,
                    buyer: Some(buyer),
                    seller,
                    amount_tonnes,
                    price_usd_cents,
                    delivery_year,
                    status: ContractStatus::Created,
                    created_at: now,
                    updated_at: now,
                }),
            ),
            final(self).events() == log_append(old(self).events(), event_of(EventType::Created, id, now)),
            final(self).emitted() == old(self).emitted().push(event_of(EventType::Created, id, now)),
            final(self).contract_ids() == old(self).contract_ids().push(id),
            forall|i: int| 0 <= i < old(self).contracts().len() ==> #[trigger] old(self).contracts()[i].id < id,
            final(self).credits() == old(self).credits(),
            final(self).next_credit_id() == old(self).next_credit_id(),
    {
        let id = self.next_contract_id;
        self.next_contract_id = id + 1;
        let contract = FuturesContract {
            id,
            buyer: Some(buyer),
            seller,
            amount_tonnes,
            price_usd_cents,
            delivery_year,
            status: ContractStatus::Created,
            created_at: now,
            updated_at: now,
        };
        self.contracts.push(contract);
        self.log_event(ContractEvent { event_type: EventType::Created, contract_id: id, timestamp: now, details: None });
        proof {
            assert forall|i: int| 0 <= i < self.contracts@.len() implies #[trigger] self.contracts@[i].id
                == i + 1 && contract_wf(self.contracts@[i]) by {
                if i < old(self).contracts@.len() {
                    assert(self.contracts@[i] == old(self).contracts@[i]);
                }
            }
        }
        id
    }

    /// Buys a contract that is still `Created`: it becomes `Purchased` and the
    /// purchase is logged. Returns false, changing nothing, when the contract
    /// does not exist or is past `Created`.
    pub fn buy_contract(&mut self, contract_id: u64, now: u64) -> (r: bool)
        requires
            old(self).wf(),
        ensures
            final(self).wf(),
            r == (old(self).has_contract(contract_id) && can_buy(
                old(self).contracts()[contract_id - 1],
            )),
            r ==> {
                let c = transition(
                    old(self).contracts()[contract_id - 1],
                    ContractStatus::Purchased,
                    now,
                );
                &&& final(self).contracts() == old(self).contracts().update(contract_id - 1, c)
                &&& final(self).events() == log_append(
                    old(self).events(),
                    event_of(EventType::Purchased, contract_id, c.updated_at),
                )
                &&& final(self).emitted() == old(self).emitted().push(
                    event_of(EventType::Purchased, contract_id, c.updated_at),
                )
                &&& final(self).contract_ids() == old(self).contract_ids()
                &&& final(self).credits() == old(self).credits()
                &&& final(self).next_contract_id() == old(self).next_contract_id()
                &&& final(self).next_credit_id() == old(self).next_credit_id()
            },
            !r ==> *final(self) == *old(self),
    {
        if contract_id == 0 || contract_id >= self.next_contract_id {
            return false;
        }
        let n = self.contracts.len();
        assert(contract_id - 1 < n);
        let idx = (contract_id - 1) as usize;
        let c = self.contracts[idx];
        if c.status != ContractStatus::Created {
            return false;
        }
        self.set_status(idx, ContractStatus::Purchased, now);
        let at = self.contracts[idx].updated_at;
        self.log_event(ContractEvent { event_type: EventType::Purchased, contract_id, timestamp: at, details: None });
        assert(self.contract_ids() =~= old(self).contract_ids());
        true
    }

    /// Expires a contract that has not reached a terminal status and logs the
    /// expiry. Returns false, changing nothing, when the contract does not
    /// exist or is already `Expired` or `Settled`.
    ///
    /// A `Purchased` contract may expire too: a purchase whose delivery never
    /// happens has to end somewhere, and `Settled` is only for delivered
    /// contracts. Only the terminal statuses refuse expiry.
    pub fn expire_contract(&mut self, contract_id: u64, now: u64) -> (r: bool)
        requires
            old(self).wf(),
        ensures
            final(self).wf(),
            r == (old(self).has_contract(contract_id) && can_expire(
                old(self).contracts()[contract_id - 1],
            )),
            r ==> {
                let c = transition(
                    old(self).contracts()[contract_id - 1],
                    ContractStatus::Expired,
                    now,
                );
                &&& final(self).contracts() == old(self).contracts().update(contract_id - 1, c)
                &&& final(self).events() == log_append(
                    old(self).events(),
                    event_of(EventType::Expired, contract_id, c.updated_at),
                )
                &&& final(self).emitted() == old(self).emitted().push(
                    event_of(EventType::Expired, contract_id, c.updated_at),
                )
                &&& final(self).contract_ids() == old(self).contract_ids()
                &&& final(self).credits() == old(self).credits()
                &&& final(self).next_contract_id() == old(self).next_contract_id()
                &&& final(self).next_credit_id() == old(self).next_credit_id()
            },
            !r ==> *final(self) == *old(self),
    {
        if contract_id == 0 || contract_id >= self.next_contract_id {
            return false;
        }
        let n = self.contracts.len();
        assert(contract_id - 1 < n);
        let idx = (contract_id - 1) as usize;
        let c = self.contracts[idx];
        if c.status != ContractStatus::Created && c.status != ContractStatus::Purchased {
            return false;
        }
        self.set_status(idx, ContractStatus::Expired, now);
        let at = self.contracts[idx].updated_at;
        self.log_event(ContractEvent { event_type: EventType::Expired, contract_id, timestamp: at, details: None });
        assert(self.contract_ids() =~= old(self).contract_ids());
        true
    }

    /// Moves the contract at `idx` to `status` at time `now`.
    fn set_status(&mut self, idx: usize, status: ContractStatus, now: u64)
        requires
            old(self).wf(),
            idx < old(self).contracts@.len(),
        ensures
            final(self).wf(),
            final(self).contracts@ == old(self).contracts@.update(
                idx as int,
                transition(old(self).contracts@[idx as int], status, now),
            ),
            final(self).credits == old(self).credits,
            final(self).events == old(self).events,
            final(self).emitted == old(self).emitted,
            final(self).next_contract_id == old(self).next_contract_id,
            final(self).next_credit_id == old(self).next_credit_id,
    {
        let mut c = self.contracts[idx];
        c.status = status;
        if now > c.updated_at {
            c.updated_at = now;
        }
        self.contracts.set(idx, c);
        proof {
            assert forall|i: int| 0 <= i < self.contracts@.len() implies #[trigger] self.contracts@[i].id
                == i + 1 && contract_wf(self.contracts@[i]) by {
                if i != idx {
                    assert(self.contracts@[i] == old(self).contracts@[i]);
                }
            }
        }
    }

    /// The contract with identifier `id`, if there is one.
    pub fn get_contract(&self, id: u64) -> (r: Option<FuturesContract>)
        requires
            self.wf(),
        ensures
            r == (if self.has_contract(id) {
                Some(self.contracts()[id - 1])
            } else {
                None
            }),
    {
        if id == 0 || id >= self.next_contract_id {
            None
        } else {
            let n = self.contracts.len();
            assert(id - 1 < n);
            Some(self.contracts[(id - 1) as usize])
        }
    }

    /// Every contract, in order of identifier.
    pub fn list_contracts(&self) -> (r: Vec<FuturesContract>)
        ensures
            r@ == self.contracts(),
    {
        let mut r: Vec<FuturesContract> = Vec::new();
        let mut i: usize = 0;
        while i < self.contracts.len()
            invariant
                i <= self.contracts@.len(),
                r@ == self.contracts@.subrange(0, i as int),
            decreases self.contracts@.len() - i,
        {
            r.push(self.contracts[i]);
            i = i + 1;
        }
        assert(r@ =~= self.contracts@);
        r
    }

    /// The audit log, oldest first.
    pub fn list_events(&self) -> (r: Vec<ContractEvent>)
        ensures
            r@ == self.events(),
    {
        snapshot_events(&self.events)
    }

    /// Registers a new credit owned by `owner`, with no risk score yet, and
    /// returns its identifier, which is one more than the previous credit's.
    pub fn create_credit(&mut self, owner: Principal) -> (r: Result<u64, LedgerError>)
        requires
            old(self).wf(),
            old(self).next_credit_id() < u64::MAX,
        ensures
            final(self).wf(),
            r == Ok::<u64, LedgerError>(old(self).next_credit_id() as u64),
            old(self).next_credit_id() == old(self).credits().len() + 1,
            final(self).next_credit_id() == old(self).next_credit_id() + 1,
            final(self).credits() == old(self).credits().push(
                (CreditView {
                    id: old(self).next_credit_id() as u64,
                    owner,
                    risk_score: None,
                    risk_score_history: Seq::empty(),
                }),
            ),
            final(self).contracts() == old(self).contracts(),
            final(self).next_contract_id() == old(self).next_contract_id(),
            final(self).events() == old(self).events(),
            final(self).emitted() == old(self).emitted(),
            final(self).credit_ids() == old(self).credit_ids().push(old(self).next_credit_id() as u64),
    {
        let id = self.next_credit_id;
        self.next_credit_id = id + 1;
        let credit = CarbonCredit { id, owner, risk_score: None, risk_score_history: Vec::new() };
        self.credits.push(credit);
        proof {
            assert(self.credits() =~= old(self).credits().push(credit@));
            assert forall|i: int| 0 <= i < self.credits@.len() implies #[trigger] self.credits@[i].id
                == i + 1 && credit_wf(self.credits@[i]@) by {
                if i < old(self).credits@.len() {
                    assert(self.credits@[i] == old(self).credits@[i]);
                }
            }
        }
        Ok(id)
    }

    /// Records `score` as the credit's current risk score and appends it to
    /// the history, which keeps only the most recent scores. Fails with
    /// `NotFound`, changing nothing, when the credit does not exist.
    pub fn update_risk_score(&mut self, credit_id: u64, score: u8) -> (r: Result<(), LedgerError>)
        requires
            old(self).wf(),
        ensures
            final(self).wf(),
            old(self).has_credit(credit_id) ==> {
                let c = old(self).credits()[credit_id - 1];
                &&& r == Ok::<(), LedgerError>(())
                &&& final(self).credits() == old(self).credits().update(
                    credit_id - 1,
                    (CreditView {
                        risk_score: Some(score),
                        risk_score_history: history_push(c.risk_score_history, score),
                        ..c
                    }),
                )
                &&& final(self).contracts() == old(self).contracts()
                &&& final(self).events() == old(self).events()
                &&& final(self).emitted() == old(self).emitted()
                &&& final(self).credit_ids() == old(self).credit_ids()
                &&& final(self).next_contract_id() == old(self).next_contract_id()
                &&& final(self).next_credit_id() == old(self).next_credit_id()
            },
            !old(self).has_credit(credit_id) ==> r == Err::<(), LedgerError>(LedgerError::NotFound)
                && *final(self) == *old(self),
    {
        if credit_id == 0 || credit_id >= self.next_credit_id {
            return Err(LedgerError::NotFound);
        }
        let n = self.credits.len();
        assert(credit_id - 1 < n);
        let idx = (credit_id - 1) as usize;
        let mut history = self.credits[idx].risk_score_history.clone();
        assert(history@ =~= self.credits@[idx as int].risk_score_history@);
        push_bounded_vec(&mut history, score, RISK_HISTORY_LEN);
        let credit = CarbonCredit {
            id: self.credits[idx].id,
            owner: self.credits[idx].owner,
            risk_score: Some(score),
            risk_score_history: history,
        };
        self.credits.set(idx, credit);
        proof {
            let c = old(self).credits()[credit_id - 1];
            assert(self.credits() =~= old(self).credits().update(
                credit_id - 1,
                (CreditView {
                    risk_score: Some(score),
                    risk_score_history: history_push(c.risk_score_history, score),
                    ..c
                }),
            ));
            assert forall|i: int| 0 <= i < self.credits@.len() implies #[trigger] self.credits@[i].id
                == i + 1 && credit_wf(self.credits@[i]@) by {
                if i != idx {
                    assert(self.credits@[i] == old(self).credits@[i]);
                }
            }
        }
        Ok(())
    }

    /// Every credit, in order of identifier.
    pub fn list_credits(&self) -> (r: Vec<CarbonCredit>)
        ensures
            r@.map_values(|c: CarbonCredit| c@) == self.credits(),
    {
        let mut r: Vec<CarbonCredit> = Vec::new();
        let mut i: usize = 0;
        while i < self.credits.len()
            invariant
                i <= self.credits@.len(),
                r@.len() == i,
                forall|j: int| 0 <= j < i ==> #[trigger] r@[j]@ == self.credits@[j]@,
            decreases self.credits@.len() - i,
        {
            let c = self.credits[i].clone();
            proof {
                assert(c@ == self.credits@[i as int]@);
            }
            r.push(c);
            i = i + 1;
        }
        assert(r@.map_values(|c: CarbonCredit| c@) =~= self.credits());
        r
    }

    /// An empty marketplace.
    pub fn new() -> (r: Self)
        ensures
            r.wf(),
            r.contracts() == Seq::<FuturesContract>::empty(),
            r.credits() == Seq::<CreditView>::empty(),
            r.events() == Seq::<ContractEvent>::empty(),
            r.emitted() == Seq::<ContractEvent>::empty(),
            r.next_contract_id() == 1,
            r.next_credit_id() == 1,
    {
        let r = Marketplace {
            contracts: Vec::new(),
            next_contract_id: 1,
            credits: Vec::new(),
            next_credit_id: 1,
            events: Vec::new(),
            emitted: Ghost(Seq::empty()),
        };
        assert(r.credits() =~= Seq::<CreditView>::empty());
        assert(r.events@ =~= last_n(r.emitted@, EVENT_LOG_SIZE as nat));
        r
    }
}

} // verus!
