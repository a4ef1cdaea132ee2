//! One account's ledger: balances, the per-deposit dispute records, and
//! the transition rules that apply a single transaction.

use vstd::prelude::*;
use std::collections::HashMap;
use crate::transaction::{MoneyType, Transaction, TransactionData, TransactionId};
use crate::sums::sum_over;
use crate::sums::lemma_sum_over_empty;
use crate::sums::lemma_sum_over_insert;
use crate::sums::lemma_sum_over_remove;
use crate::sums::lemma_sum_over_congruence;
use crate::sums::lemma_sum_over_nonneg;
use crate::sums::lemma_sum_over_element_bound;

verus! {

broadcast use vstd::std_specs::hash::group_hash_axioms;

/// The dispute status of one recorded deposit.
#[derive(Eq, PartialEq, Structural, Debug, Copy, Clone)]
pub enum TransactionState {
    Normal,
    Disputed,
    ChargedBack,
}

/// One disputable record: a deposit's amount together with where it
/// stands in the dispute lifecycle.
#[derive(Debug, Copy, Clone)]
pub struct TransactionBlock {
    pub state: TransactionState,
    pub amount: MoneyType,
}

impl TransactionBlock {
    fn new(amount: MoneyType) -> (r: TransactionBlock)
        ensures
            r.state == TransactionState::Normal,
            r.amount == amount,
    {
        TransactionBlock { state: TransactionState::Normal, amount }
    }
}

/// Why a transaction was rejected. A rejected transaction leaves the
/// account exactly as it was.
#[derive(Eq, PartialEq, Structural, Debug, Copy, Clone)]
pub enum ClientError {
    /// The account was permanently frozen by an earlier chargeback.
    Locked,
    /// The withdrawal or dispute would drive the available balance negative.
    InsufficientFunds,
    /// The referenced transaction id maps to no recorded deposit.
    UnknownTransaction,
    /// The referenced deposit is not in the status the request needs.
    InvalidDisputeState,
    /// A deposit reused a transaction id that is already recorded.
    DuplicateTransaction,
    /// The deposit would push the account's total balance past what a
    /// minor-unit counter can hold.
    BalanceOverflow,
}

pub type CResult = Result<(), ClientError>;

/// The mathematical state of one account: balances as unbounded
/// integers and the map from transaction id to dispute record.
#[verifier::ext_equal]
pub struct AccountView {
    pub available: int,
    pub held: int,
    pub locked: bool,
    pub chain: Map<u32, TransactionBlock>,
}

/// How much one record contributes to the held balance: its amount
/// while it is disputed, nothing otherwise.
pub open spec fn contribution(b: TransactionBlock) -> int {
    if b.state == TransactionState::Disputed {
        b.amount as int
    } else {
        0
    }
}

/// The sum of the amounts of all currently disputed records.
pub open spec fn disputed_total(chain: Map<u32, TransactionBlock>) -> int {
    sum_over(chain.dom(), |k: u32| contribution(chain[k]))
}

impl AccountView {
    /// Well-formedness: balances are non-negative, their sum fits the
    /// machine representation, and the held balance is exactly the sum
    /// of the disputed amounts.
    pub open spec fn wf(self) -> bool {
        &&& 0 <= self.available
        &&& 0 <= self.held
        &&& self.available + self.held <= u64::MAX
        &&& self.chain.dom().finite()
        &&& self.held == disputed_total(self.chain)
    }

    /// The account's total funds, available and held together.
    pub open spec fn total(self) -> int {
        self.available + self.held
    }

    /// The state of a freshly created account.
    pub open spec fn initial() -> AccountView {
        AccountView { available: 0, held: 0, locked: false, chain: Map::empty() }
    }
}

/// The transition relation of one account: the state after applying
/// `tx` to `pre`, and the outcome handed back to the caller. On any
/// error the state is returned unchanged.
pub open spec fn step(pre: AccountView, tx: Transaction) -> (AccountView, CResult) {
    if pre.locked {
        (pre, Err(ClientError::Locked))
    } else {
        match tx {
            Transaction::Deposit { data, amount } => {
                let id = data.tx_id.0;
                if pre.chain.contains_key(id) {
                    (pre, Err(ClientError::DuplicateTransaction))
                } else if pre.available + pre.held + amount > u64::MAX {
                    (pre, Err(ClientError::BalanceOverflow))
                } else {
                    (
                        AccountView {
                            available: pre.available + amount,
                            chain: pre.chain.insert(
                                id,
                                TransactionBlock { state: TransactionState::Normal, amount },
                            ),
                            ..pre
                        },
                        Ok(()),
                    )
                }
            },
            Transaction::Withdrawal { data: _, amount } => {
                if pre.available < amount {
                    (pre, Err(ClientError::InsufficientFunds))
                } else {
                    (AccountView { available: pre.available - amount, ..pre }, Ok(()))
                }
            },
            Transaction::Dispute { data } => {
                let id = data.tx_id.0;
                if !pre.chain.contains_key(id) {
                    (pre, Err(ClientError::UnknownTransaction))
                } else if pre.chain[id].state != TransactionState::Normal {
                    (pre, Err(ClientError::InvalidDisputeState))
                } else if pre.available < pre.chain[id].amount {
                    (pre, Err(ClientError::InsufficientFunds))
                } else {
                    let amount = pre.chain[id].amount;
                    (
                        AccountView {
                            available: pre.available - amount,
                            held: pre.held + amount,
                            chain: pre.chain.insert(
                                id,
                                TransactionBlock { state: TransactionState::Disputed, amount },
                            ),
                            ..pre
                        },
                        Ok(()),
                    )
                }
            },
            Transaction::Resolve { data } => {
                let id = data.tx_id.0;
                if !pre.chain.contains_key(id) {
                    (pre, Err(ClientError::UnknownTransaction))
                } else if pre.chain[id].state != TransactionState::Disputed {
                    (pre, Err(ClientError::InvalidDisputeState))
                } else {
                    let amount = pre.chain[id].amount;
                    (
                        AccountView {
                            available: pre.available + amount,
                            held: pre.held - amount,
                            chain: pre.chain.insert(
                                id,
                                TransactionBlock { state: TransactionState::Normal, amount },
                            ),
                            ..pre
                        },
                        Ok(()),
                    )
                }
            },
            Transaction::Chargeback { data } => {
                let id = data.tx_id.0;
                if !pre.chain.contains_key(id) {
                    (pre, Err(ClientError::UnknownTransaction))
                } else if pre.chain[id].state != TransactionState::Disputed {
                    (pre, Err(ClientError::InvalidDisputeState))
                } else {
                    let amount = pre.chain[id].amount;
                    (
                        AccountView {
                            held: pre.held - amount,
                            locked: true,
                            chain: pre.chain.insert(
                                id,
                                TransactionBlock { state: TransactionState::ChargedBack, amount },
                            ),
                            ..pre
                        },
                        Ok(()),
                    )
                }
            },
        }
    }
}

/// An empty record map holds no disputed funds.
proof fn lemma_total_empty()
    ensures
        disputed_total(Map::<u32, TransactionBlock>::empty()) == 0,
{
    let m = Map::<u32, TransactionBlock>::empty();
    assert(m.dom() =~= Set::<u32>::empty());
    lemma_sum_over_empty(|k: u32| contribution(m[k]));
}

/// Recording a deposit under a fresh id adds that record's contribution.
proof fn lemma_total_insert_fresh(m: Map<u32, TransactionBlock>, k: u32, b: TransactionBlock)
    requires
        m.dom().finite(),
        !m.contains_key(k),
    ensures
        disputed_total(m.insert(k, b)) == disputed_total(m) + contribution(b),
{
    let m2 = m.insert(k, b);
    let g = |j: u32| contribution(m[j]);
    let g2 = |j: u32| contribution(m2[j]);
    assert(m2.dom() =~= m.dom().insert(k));
    lemma_sum_over_insert(m.dom(), g2, k);
    lemma_sum_over_congruence(m.dom(), g2, g);
}

/// Replacing the record under an existing id swaps its contribution.
proof fn lemma_total_update(m: Map<u32, TransactionBlock>, k: u32, b: TransactionBlock)
    requires
        m.dom().finite(),
        m.contains_key(k),
    ensures
        disputed_total(m.insert(k, b)) == disputed_total(m) - contribution(m[k]) + contribution(b),
{
    let m2 = m.insert(k, b);
    let g = |j: u32| contribution(m[j]);
    let g2 = |j: u32| contribution(m2[j]);
    assert(m2.dom() =~= m.dom());
    lemma_sum_over_remove(m.dom(), g, k);
    lemma_sum_over_remove(m.dom(), g2, k);
    lemma_sum_over_congruence(m.dom().remove(k), g2, g);
}

/// No record contributes more than the whole held balance, and the
/// total is never negative.
proof fn lemma_total_bounds(m: Map<u32, TransactionBlock>, k: u32)
    requires
        m.dom().finite(),
        m.contains_key(k),
    ensures
        contribution(m[k]) <= disputed_total(m),
        disputed_total(m) >= 0,
{
    let g = |j: u32| contribution(m[j]);
    lemma_sum_over_element_bound(m.dom(), g, k);
    lemma_sum_over_nonneg(m.dom(), g);
}

/// One account: its balances, lock flag, and the records of the
/// deposits that can still be disputed.
#[derive(Debug)]
pub struct Client {
    available: MoneyType,
    held: MoneyType,
    locked: bool,
    tx_chain: HashMap<u32, TransactionBlock>,
}

/// The read-only projection handed to the reporting layer.
#[derive(Eq, PartialEq, Structural, Debug, Copy, Clone)]
pub struct ClientSummary {
    pub available: MoneyType,
    pub held: MoneyType,
    pub locked: bool,
}

impl View for Client {
    type V = AccountView;

    closed spec fn view(&self) -> AccountView {
        AccountView {
            available: self.available as int,
            held: self.held as int,
            locked: self.locked,
            chain: self.tx_chain@,
        }
    }
}

impl Client {
    /// A fresh account holding `amount` available, nothing held, unlocked.
    pub fn new(amount: MoneyType) -> (r: Client)
        ensures
            r@ == (AccountView {
                available: amount as int,
                held: 0,
                locked: false,
                chain: Map::<u32, TransactionBlock>::empty(),
            }),
            r@.wf(),
    {
        let r = Client { available: amount, held: 0, locked: false, tx_chain: HashMap::new() };
        proof {
            lemma_total_empty();
            assert(r@ =~= AccountView {
                available: amount as int,
                held: 0,
                locked: false,
                chain: Map::<u32, TransactionBlock>::empty(),
            });
        }
        r
    }

    /// Apply one transaction. The outcome and the new state are exactly
    /// those of the `step` transition relation; in particular every
    /// rejection leaves the account unchanged, a well-formed account
    /// stays well-formed, and a successful dispute or resolve never
    /// changes the account's total funds.
    pub fn update(&mut self, tx: Transaction) -> (r: CResult)
        requires
            old(self)@.wf(),
        ensures
            final(self)@ == step(old(self)@, tx).0,
            r == step(old(self)@, tx).1,
            final(self)@.wf(),
            r is Err ==> final(self)@ == old(self)@,
            (tx is Dispute || tx is Resolve) && r is Ok ==> final(self)@.total() == old(self)@.total(),
    {
        proof {
            lemma_step_preserves_wf(old(self)@, tx);
        }
        if self.locked {
            return Err(ClientError::Locked);
        }
        match tx {
            Transaction::Deposit { data, amount } => {
                let id = data.tx_id.0;
                if self.tx_chain.contains_key(&id) {
                    return Err(ClientError::DuplicateTransaction);
                }
                if amount > u64::MAX - self.available - self.held {
                    return Err(ClientError::BalanceOverflow);
                }
                self.deposit(amount)?;
                self.tx_chain.insert(id, TransactionBlock::new(amount));
                proof {
                    assert(self@ =~= step(old(self)@, tx).0);
                }
            },
            Transaction::Withdrawal { data: _, amount } => {
                self.withdraw(amount)?;
                proof {
                    assert(self@ =~= step(old(self)@, tx).0);
                }
            },
            Transaction::Dispute { data } => {
                self.dispute(data)?;
                proof {
                    assert(self@ =~= step(old(self)@, tx).0);
                }
            },
            Transaction::Resolve { data } => {
                self.resolve(data)?;
                proof {
                    assert(self@ =~= step(old(self)@, tx).0);
                }
            },
            Transaction::Chargeback { data } => {
                self.chargeback(data)?;
                proof {
                    assert(self@ =~= step(old(self)@, tx).0);
                }
            },
        };
        Ok(())
    }

    /// Credit the available balance; cannot fail once the caller has
    /// ruled out overflow.
    fn deposit(&mut self, amount: MoneyType) -> (r: CResult)
        requires
            old(self).available + amount <= u64::MAX,
        ensures
            r is Ok,
            final(self).available == old(self).available + amount,
            final(self).held == old(self).held,
            final(self).locked == old(self).locked,
            final(self).tx_chain@ == old(self).tx_chain@,
    {
        self.available = self.available + amount;
        Ok(())
    }

    /// Debit the available balance, rejecting a withdrawal that would
    /// drive it negative.
    fn withdraw(&mut self, amount: MoneyType) -> (r: CResult)
        ensures
            final(self).held == old(self).held,
            final(self).locked == old(self).locked,
            final(self).tx_chain@ == old(self).tx_chain@,
            if old(self).available < amount {
                r == Err::<(), ClientError>(ClientError::InsufficientFunds) && final(self).available == old(self).available
            } else {
                r is Ok && final(self).available == old(self).available - amount
            },
    {
        if self.available < amount {
            return Err(ClientError::InsufficientFunds);
        }
        self.available = self.available - amount;
        Ok(())
    }

    /// Look up the record a dispute-lifecycle request refers to and hand
    /// back its amount, provided it is in the status the request needs.
    fn get_dispute_tx(&self, tx_id: TransactionId, expected: TransactionState) -> (r: Result<
        MoneyType,
        ClientError,
    >)
        ensures
            ({
                let chain = self.tx_chain@;
                if !chain.contains_key(tx_id.0) {
                    r == Err::<MoneyType, ClientError>(ClientError::UnknownTransaction)
                } else if chain[tx_id.0].state != expected {
                    r == Err::<MoneyType, ClientError>(ClientError::InvalidDisputeState)
                } else {
                    r == Ok::<MoneyType, ClientError>(chain[tx_id.0].amount)
                }
            }),
    {
        match self.tx_chain.get(&tx_id.0) {
            None => Err(ClientError::UnknownTransaction),
            Some(block) => {
                if block.state != expected {
                    Err(ClientError::InvalidDisputeState)
                } else {
                    Ok(block.amount)
                }
            },
        }
    }

    /// Move `amount` from available to held, rejecting the move if the
    /// available balance does not cover it.
    fn mark_held(&mut self, amount: MoneyType) -> (r: CResult)
        requires
            old(self).available + old(self).held <= u64::MAX,
        ensures
            final(self).locked == old(self).locked,
            final(self).tx_chain@ == old(self).tx_chain@,
            if old(self).available < amount {
                r == Err::<(), ClientError>(ClientError::InsufficientFunds) && final(self).available == old(self).available && final(self).held == old(self).held
            } else {
                r is Ok && final(self).available == old(self).available - amount && final(self).held == old(self).held + amount
            },
    {
        if self.available < amount {
            return Err(ClientError::InsufficientFunds);
        }
        self.available = self.available - amount;
        self.held = self.held + amount;
        Ok(())
    }

    /// Apply a dispute: freeze the referenced deposit's amount by moving
    /// it from available to held and mark the record disputed.
    fn dispute(&mut self, data: TransactionData) -> (r: CResult)
        requires
            old(self)@.wf(),
            !old(self).locked,
        ensures
            final(self)@ == step(old(self)@, Transaction::Dispute { data }).0,
            r == step(old(self)@, Transaction::Dispute { data }).1,
    {
        let amount = match self.get_dispute_tx(data.tx_id, TransactionState::Normal) {
            Ok(a) => a,
            Err(e) => {
                return Err(e);
            },
        };
        self.mark_held(amount)?;
        self.tx_chain.insert(data.tx_id.0, TransactionBlock { state: TransactionState::Disputed, amount });
        proof {
            assert(self@ =~= step(old(self)@, Transaction::Dispute { data }).0);
        }
        Ok(())
    }

    /// Apply a resolve: release the disputed amount back to available
    /// and mark the record normal again.
    fn resolve(&mut self, data: TransactionData) -> (r: CResult)
        requires
            old(self)@.wf(),
            !old(self).locked,
        ensures
            final(self)@ == step(old(self)@, Transaction::Resolve { data }).0,
            r == step(old(self)@, Transaction::Resolve { data }).1,
    {
        let amount = match self.get_dispute_tx(data.tx_id, TransactionState::Disputed) {
            Ok(a) => a,
            Err(e) => {
                return Err(e);
            },
        };
        proof {
            lemma_total_bounds(self.tx_chain@, data.tx_id.0);
        }
        self.held = self.held - amount;
        self.available = self.available + amount;
        self.tx_chain.insert(data.tx_id.0, TransactionBlock { state: TransactionState::Normal, amount });
        proof {
            assert(self@ =~= step(old(self)@, Transaction::Resolve { data }).0);
        }
        Ok(())
    }

    /// Apply a chargeback: withdraw the disputed amount from held, mark
    /// the record charged back, and permanently lock the account.
    fn chargeback(&mut self, data: TransactionData) -> (r: CResult)
        requires
            old(self)@.wf(),
            !old(self).locked,
        ensures
            final(self)@ == step(old(self)@, Transaction::Chargeback { data }).0,
            r == step(old(self)@, Transaction::Chargeback { data }).1,
    {
        let amount = match self.get_dispute_tx(data.tx_id, TransactionState::Disputed) {
            Ok(a) => a,
            Err(e) => {
                return Err(e);
            },
        };
        proof {
            lemma_total_bounds(self.tx_chain@, data.tx_id.0);
        }
        self.held = self.held - amount;
        self.locked = true;
        self.tx_chain.insert(data.tx_id.0, TransactionBlock {
            state: TransactionState::ChargedBack,
            amount,
        });
        proof {
            assert(self@ =~= step(old(self)@, Transaction::Chargeback { data }).0);
        }
        Ok(())
    }

    /// The account's current balances and lock state.
    pub fn summary(&self) -> (r: ClientSummary)
        ensures
            r.available as int == self@.available,
            r.held as int == self@.held,
            r.locked == self@.locked,
    {
        ClientSummary { available: self.available, held: self.held, locked: self.locked }
    }
}

/// Applying any transaction to a well-formed account leaves it
/// well-formed, whether the transaction is applied or rejected.
pub proof fn lemma_step_preserves_wf(pre: AccountView, tx: Transaction)
    requires
        pre.wf(),
    ensures
        step(pre, tx).0.wf(),
{
    if !pre.locked {
        match tx {
            Transaction::Deposit { data, amount } => {
                let id = data.tx_id.0;
                if !pre.chain.contains_key(id) && pre.available + pre.held + amount <= u64::MAX {
                    let b = TransactionBlock { state: TransactionState::Normal, amount };
                    lemma_total_insert_fresh(pre.chain, id, b);
                }
            },
            Transaction::Withdrawal { .. } => {},
            Transaction::Dispute { data } => {
                let id = data.tx_id.0;
                if pre.chain.contains_key(id) && pre.chain[id].state == TransactionState::Normal
                    && pre.available >= pre.chain[id].amount {
                    let b = TransactionBlock {
                        state: TransactionState::Disputed,
                        amount: pre.chain[id].amount,
                    };
                    lemma_total_update(pre.chain, id, b);
                }
            },
            Transaction::Resolve { data } => {
                let id = data.tx_id.0;
                if pre.chain.contains_key(id) && pre.chain[id].state == TransactionState::Disputed {
                    let b = TransactionBlock {
                        state: TransactionState::Normal,
                        amount: pre.chain[id].amount,
                    };
                    lemma_total_bounds(pre.chain, id);
                    lemma_total_update(pre.chain, id, b);
                }
            },
            Transaction::Chargeback { data } => {
                let id = data.tx_id.0;
                if pre.chain.contains_key(id) && pre.chain[id].state == TransactionState::Disputed {
                    let b = TransactionBlock {
                        state: TransactionState::ChargedBack,
                        amount: pre.chain[id].amount,
                    };
                    lemma_total_bounds(pre.chain, id);
                    lemma_total_update(pre.chain, id, b);
                }
            },
        }
    }
}


/// Conservation: a successfully applied dispute or resolve redistributes
/// funds between available and held but never changes their sum.
pub proof fn lemma_conservation(pre: AccountView, tx: Transaction)
    requires
        pre.wf(),
        tx is Dispute || tx is Resolve,
        step(pre, tx).1 is Ok,
    ensures
        step(pre, tx).0.total() == pre.total(),
{
}

/// The account's total funds change only through a deposit, a
/// withdrawal, or a chargeback, and each time by exactly the amount
/// the transaction or the charged-back record carries.
pub proof fn lemma_total_changes(pre: AccountView, tx: Transaction)
    requires
        pre.wf(),
        step(pre, tx).1 is Ok,
    ensures
        tx matches Transaction::Deposit { amount, .. } ==> step(pre, tx).0.total() == pre.total()
            + amount,
        tx matches Transaction::Withdrawal { amount, .. } ==> step(pre, tx).0.total() == pre.total()
            - amount,
        tx matches Transaction::Chargeback { data } ==> step(pre, tx).0.total() == pre.total()
            - pre.chain[data.tx_id.0].amount,
{
}

/// Non-negativity: whether a transaction is applied or rejected, both
/// balances of a well-formed account stay non-negative.
pub proof fn lemma_nonnegativity(pre: AccountView, tx: Transaction)
    requires
        pre.wf(),
    ensures
        step(pre, tx).0.available >= 0,
        step(pre, tx).0.held >= 0,
{
    lemma_step_preserves_wf(pre, tx);
}

/// The state an account reaches after applying a sequence of
/// transactions in order, dropping each rejected one.
pub open spec fn run(pre: AccountView, txs: Seq<Transaction>) -> AccountView
    decreases txs.len(),
{
    if txs.len() == 0 {
        pre
    } else {
        run(step(pre, txs[0]).0, txs.subrange(1, txs.len() as int))
    }
}

/// A locked account rejects any transaction with `Locked` and is left
/// unchanged.
pub proof fn lemma_locked_rejects(pre: AccountView, tx: Transaction)
    requires
        pre.locked,
    ensures
        step(pre, tx).0 == pre,
        step(pre, tx).1 == Err::<(), ClientError>(ClientError::Locked),
{
}

/// A successful chargeback leaves the account locked.
pub proof fn lemma_chargeback_locks(pre: AccountView, tx: Transaction)
    requires
        tx is Chargeback,
        step(pre, tx).1 is Ok,
    ensures
        step(pre, tx).0.locked,
{
}

/// Lock finality: once an account is locked, no sequence of further
/// transactions of any kind changes it; with `lemma_locked_rejects`,
/// every one of them is rejected with `Locked`.
pub proof fn lemma_lock_finality(pre: AccountView, txs: Seq<Transaction>)
    requires
        pre.locked,
    ensures
        run(pre, txs) == pre,
    decreases txs.len(),
{
    if txs.len() > 0 {
        lemma_locked_rejects(pre, txs[0]);
        lemma_lock_finality(pre, txs.subrange(1, txs.len() as int));
    }
}

/// Idempotent rejection: repeating a dispute or resolve that has just
/// succeeded for the same transaction id is rejected with
/// `InvalidDisputeState` and leaves balances and status unchanged.
pub proof fn lemma_idempotent_rejection(pre: AccountView, tx: Transaction)
    requires
        tx is Dispute || tx is Resolve,
        step(pre, tx).1 is Ok,
    ensures
        step(step(pre, tx).0, tx).1 == Err::<(), ClientError>(ClientError::InvalidDisputeState),
        step(step(pre, tx).0, tx).0 == step(pre, tx).0,
{
}

/// Repeating a chargeback that has just succeeded is also rejected and
/// changes nothing, though with `Locked`: the first chargeback froze
/// the account, and the lock check comes before any status check.
pub proof fn lemma_chargeback_idempotent_rejection(pre: AccountView, tx: Transaction)
    requires
        tx is Chargeback,
        step(pre, tx).1 is Ok,
    ensures
        step(step(pre, tx).0, tx).1 == Err::<(), ClientError>(ClientError::Locked),
        step(step(pre, tx).0, tx).0 == step(pre, tx).0,
{
    lemma_chargeback_locks(pre, tx);
    lemma_locked_rejects(step(pre, tx).0, tx);
}

} // verus!
