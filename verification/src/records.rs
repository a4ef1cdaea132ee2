//! Typed input records as the boundary layer hands them over, and
//! their conversion into transactions. Reading the wire encoding and
//! turning amount text into minor units stays outside the library;
//! here a record is already plain integers and an optional amount.

use vstd::prelude::*;
use crate::transaction::{ClientId, MoneyType, Transaction, TransactionData, TransactionId};

verus! {

/// The five record kinds the input stream can carry.
#[derive(Eq, PartialEq, Structural, Debug, Copy, Clone)]
pub enum CSVTransactionKind {
    Deposit,
    Withdrawal,
    Dispute,
    Resolve,
    Chargeback,
}

/// One input record: a kind, the two identifiers, and an amount that
/// only deposits and withdrawals are required to carry.
#[derive(Debug, Copy, Clone)]
pub struct CSVTransaction {
    pub type_: CSVTransactionKind,
    pub client: u16,
    pub tx: u32,
    pub amount: Option<MoneyType>,
}

/// Why a record could not be turned into a transaction.
#[derive(Eq, PartialEq, Structural, Debug, Copy, Clone)]
pub enum CSVTransactionError {
    /// A deposit or withdrawal record came without an amount.
    MissingAmount,
}

/// The transaction a record stands for, if it is convertible: deposits
/// and withdrawals need an amount, the three dispute-lifecycle kinds
/// ignore one.
pub open spec fn record_transaction(r: CSVTransaction) -> Result<
    Transaction,
    CSVTransactionError,
> {
    let data = TransactionData { client_id: ClientId(r.client), tx_id: TransactionId(r.tx) };
    match r.type_ {
        CSVTransactionKind::Deposit => match r.amount {
            Some(amount) => Ok(Transaction::Deposit { data, amount }),
            None => Err(CSVTransactionError::MissingAmount),
        },
        CSVTransactionKind::Withdrawal => match r.amount {
            Some(amount) => Ok(Transaction::Withdrawal { data, amount }),
            None => Err(CSVTransactionError::MissingAmount),
        },
        CSVTransactionKind::Dispute => Ok(Transaction::Dispute { data }),
        CSVTransactionKind::Resolve => Ok(Transaction::Resolve { data }),
        CSVTransactionKind::Chargeback => Ok(Transaction::Chargeback { data }),
    }
}

impl CSVTransaction {
    /// Turn this record into a typed transaction, rejecting a deposit
    /// or withdrawal that lacks its amount.
    pub fn to_transaction(&self) -> (r: Result<Transaction, CSVTransactionError>)
        ensures
            r == record_transaction(*self),
    {
        let data = TransactionData {
            client_id: ClientId::new(self.client),
            tx_id: TransactionId::new(self.tx),
        };
        match (self.type_, self.amount) {
            (CSVTransactionKind::Deposit, Some(amount)) => Ok(Transaction::Deposit {
                data,
                amount,
            }),
            (CSVTransactionKind::Withdrawal, Some(amount)) => Ok(Transaction::Withdrawal {
                data,
                amount,
            }),
            (CSVTransactionKind::Dispute, _) => Ok(Transaction::Dispute { data }),
            (CSVTransactionKind::Resolve, _) => Ok(Transaction::Resolve { data }),
            (CSVTransactionKind::Chargeback, _) => Ok(Transaction::Chargeback { data }),
            _ => Err(CSVTransactionError::MissingAmount),
        }
    }
}

} // verus!
