//! The transaction model: identifiers and the closed set of five
//! transaction kinds that a ledger can apply.

use vstd::prelude::*;

verus! {

/// A monetary quantity, counted in minor units (ten-thousandths of the
/// display unit), so that `12500` renders as `1.2500`.
pub type MoneyType = u64;

/// Opaque account identifier; only used as a routing key.
#[derive(Eq, Hash, PartialEq, Structural, Debug, Copy, Clone)]
pub struct ClientId(pub u16);

impl ClientId {
    pub fn new(id: u16) -> (r: ClientId)
        ensures
            r.0 == id,
    {
        ClientId(id)
    }
}

/// Opaque transaction identifier, unique within one input stream; only
/// used to correlate a Dispute/Resolve/Chargeback with an earlier Deposit.
#[derive(Eq, Hash, PartialEq, Structural, Debug, Copy, Clone)]
pub struct TransactionId(pub u32);

impl TransactionId {
    pub fn new(id: u32) -> (r: TransactionId)
        ensures
            r.0 == id,
    {
        TransactionId(id)
    }
}

/// The (account, transaction) identifier pair carried by every transaction.
#[derive(Eq, PartialEq, Structural, Debug, Copy, Clone)]
pub struct TransactionData {
    pub client_id: ClientId,
    pub tx_id: TransactionId,
}

/// One typed transaction. Deposits and withdrawals carry an amount;
/// the three dispute-lifecycle kinds only reference a prior deposit
/// by its transaction id.
#[derive(Eq, PartialEq, Structural, Debug, Copy, Clone)]
pub enum Transaction {
    Deposit { data: TransactionData, amount: MoneyType },
    Withdrawal { data: TransactionData, amount: MoneyType },
    Dispute { data: TransactionData },
    Resolve { data: TransactionData },
    Chargeback { data: TransactionData },
}

impl Transaction {
    /// The identifier pair of any transaction, whatever its kind.
    pub open spec fn data_spec(self) -> TransactionData {
        match self {
            Transaction::Deposit { data, .. } => data,
            Transaction::Withdrawal { data, .. } => data,
            Transaction::Dispute { data } => data,
            Transaction::Resolve { data } => data,
            Transaction::Chargeback { data } => data,
        }
    }

    /// The account this transaction is routed to.
    pub fn client_id(&self) -> (r: ClientId)
        ensures
            r == self.data_spec().client_id,
    {
        self.data().client_id
    }

    fn data(&self) -> (r: &TransactionData)
        ensures
            *r == self.data_spec(),
    {
        match self {
            Transaction::Deposit { data, .. } => data,
            Transaction::Withdrawal { data, .. } => data,
            Transaction::Dispute { data } => data,
            Transaction::Resolve { data } => data,
            Transaction::Chargeback { data } => data,
        }
    }
}

} // verus!
