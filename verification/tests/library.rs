use bank_ledger::client::Client;
use bank_ledger::client::ClientError;
use bank_ledger::client::ClientSummary;
use bank_ledger::engine::Engine;
use bank_ledger::records::CSVTransaction;
use bank_ledger::records::CSVTransactionError;
use bank_ledger::records::CSVTransactionKind;
use bank_ledger::transaction::ClientId;
use bank_ledger::transaction::MoneyType;
use bank_ledger::transaction::Transaction;
use bank_ledger::transaction::TransactionData;
use bank_ledger::transaction::TransactionId;

fn data(client: u16, tx: u32) -> TransactionData {
    TransactionData {
        client_id: ClientId::new(client),
        tx_id: TransactionId::new(tx),
    }
}

fn deposit(client: u16, tx: u32, amount: MoneyType) -> Transaction {
    Transaction::Deposit {
        data: data(client, tx),
        amount,
    }
}

fn withdraw(client: u16, tx: u32, amount: MoneyType) -> Transaction {
    Transaction::Withdrawal {
        data: data(client, tx),
        amount,
    }
}

fn dispute(client: u16, tx: u32) -> Transaction {
    Transaction::Dispute {
        data: data(client, tx),
    }
}

fn resolve(client: u16, tx: u32) -> Transaction {
    Transaction::Resolve {
        data: data(client, tx),
    }
}

fn charge_back(client: u16, tx: u32) -> Transaction {
    Transaction::Chargeback {
        data: data(client, tx),
    }
}

#[test]
fn test_identifier_constructors() {
    assert_eq!(ClientId::new(7), ClientId(7));
    assert_eq!(TransactionId::new(9), TransactionId(9));
    assert_eq!(deposit(3, 4, 5).client_id(), ClientId(3));
}

#[test]
fn test_withdrawal_insufficient_funds_error() {
    let mut engine = Engine::create();
    engine.update(deposit(1, 1, 10000)).unwrap();
    let r = engine.update(withdraw(1, 2, 10001));
    assert_eq!(r, Err(ClientError::InsufficientFunds));
    let summaries = engine.iter();
    assert_eq!(summaries[0].1.available, 10000);
}

#[test]
fn test_withdraw_exact_balance() {
    let mut engine = Engine::create();
    engine.update(deposit(1, 1, 10000)).unwrap();
    engine.update(withdraw(1, 2, 10000)).unwrap();
    let summaries = engine.iter();
    assert_eq!(
        summaries[0].1,
        ClientSummary {
            available: 0,
            held: 0,
            locked: false,
        }
    );
}

#[test]
fn test_unknown_transaction_error() {
    let mut engine = Engine::create();
    engine.update(deposit(1, 1, 10000)).unwrap();
    assert_eq!(
        engine.update(dispute(1, 99)),
        Err(ClientError::UnknownTransaction)
    );
    assert_eq!(
        engine.update(resolve(1, 99)),
        Err(ClientError::UnknownTransaction)
    );
    assert_eq!(
        engine.update(charge_back(1, 99)),
        Err(ClientError::UnknownTransaction)
    );
}

#[test]
fn test_invalid_dispute_state_error() {
    let mut engine = Engine::create();
    engine.update(deposit(1, 1, 10000)).unwrap();
    // not yet disputed: resolve and chargeback are illegal
    assert_eq!(
        engine.update(resolve(1, 1)),
        Err(ClientError::InvalidDisputeState)
    );
    assert_eq!(
        engine.update(charge_back(1, 1)),
        Err(ClientError::InvalidDisputeState)
    );
    engine.update(dispute(1, 1)).unwrap();
    // already disputed: a second dispute is illegal
    assert_eq!(
        engine.update(dispute(1, 1)),
        Err(ClientError::InvalidDisputeState)
    );
    engine.update(resolve(1, 1)).unwrap();
    // back to normal: a second resolve is illegal
    assert_eq!(
        engine.update(resolve(1, 1)),
        Err(ClientError::InvalidDisputeState)
    );
}

#[test]
fn test_locked_error_after_chargeback() {
    let mut engine = Engine::create();
    engine.update(deposit(1, 1, 10000)).unwrap();
    engine.update(dispute(1, 1)).unwrap();
    engine.update(charge_back(1, 1)).unwrap();
    assert_eq!(engine.update(deposit(1, 2, 5)), Err(ClientError::Locked));
    assert_eq!(engine.update(withdraw(1, 3, 5)), Err(ClientError::Locked));
    assert_eq!(engine.update(dispute(1, 1)), Err(ClientError::Locked));
    let summaries = engine.iter();
    assert_eq!(
        summaries[0].1,
        ClientSummary {
            available: 0,
            held: 0,
            locked: true,
        }
    );
}

#[test]
fn test_duplicate_deposit_id_rejected() {
    let mut engine = Engine::create();
    engine.update(deposit(1, 1, 10000)).unwrap();
    let r = engine.update(deposit(1, 1, 777));
    assert_eq!(r, Err(ClientError::DuplicateTransaction));
    let summaries = engine.iter();
    assert_eq!(summaries[0].1.available, 10000);
}

#[test]
fn test_deposit_overflow_rejected() {
    let mut engine = Engine::create();
    engine.update(deposit(1, 1, u64::MAX)).unwrap();
    let r = engine.update(deposit(1, 2, 1));
    assert_eq!(r, Err(ClientError::BalanceOverflow));
    let summaries = engine.iter();
    assert_eq!(summaries[0].1.available, u64::MAX);
}

#[test]
fn test_dispute_and_resolve_conserve_total() {
    let mut engine = Engine::create();
    engine.update(deposit(1, 1, 20000)).unwrap();
    engine.update(deposit(1, 2, 15000)).unwrap();
    let before = {
        let v = engine.iter();
        v[0].1.available + v[0].1.held
    };
    engine.update(dispute(1, 1)).unwrap();
    let after_dispute = {
        let v = engine.iter();
        v[0].1.available + v[0].1.held
    };
    assert_eq!(before, after_dispute);
    engine.update(resolve(1, 1)).unwrap();
    let after_resolve = {
        let v = engine.iter();
        v[0].1.available + v[0].1.held
    };
    assert_eq!(before, after_resolve);
}

#[test]
fn test_multiple_clients_are_independent() {
    let mut engine = Engine::create();
    engine.update(deposit(1, 1, 10000)).unwrap();
    engine.update(deposit(2, 2, 20000)).unwrap();
    engine.update(dispute(2, 2)).unwrap();
    let summaries = engine.iter();
    assert_eq!(summaries.len(), 2);
    assert_eq!(summaries[0].0, ClientId(1));
    assert_eq!(
        summaries[0].1,
        ClientSummary {
            available: 10000,
            held: 0,
            locked: false,
        }
    );
    assert_eq!(summaries[1].0, ClientId(2));
    assert_eq!(
        summaries[1].1,
        ClientSummary {
            available: 0,
            held: 20000,
            locked: false,
        }
    );
}

#[test]
fn test_client_direct_update_and_summary() {
    let mut client = Client::new(0);
    client
        .update(deposit(1, 1, 12500))
        .unwrap();
    client
        .update(withdraw(1, 2, 2500))
        .unwrap();
    let s = client.summary();
    assert_eq!(
        s,
        ClientSummary {
            available: 10000,
            held: 0,
            locked: false,
        }
    );
}

#[test]
fn test_record_deposit_to_transaction() {
    let record = CSVTransaction {
        type_: CSVTransactionKind::Deposit,
        client: 4,
        tx: 11,
        amount: Some(25000),
    };
    let tx = record.to_transaction().unwrap();
    match tx {
        Transaction::Deposit { data, amount } => {
            assert_eq!(data.client_id, ClientId(4));
            assert_eq!(data.tx_id, TransactionId(11));
            assert_eq!(amount, 25000);
        }
        _ => panic!("expected a deposit"),
    }
}

#[test]
fn test_record_missing_amount_rejected() {
    let deposit_record = CSVTransaction {
        type_: CSVTransactionKind::Deposit,
        client: 1,
        tx: 1,
        amount: None,
    };
    assert_eq!(
        deposit_record.to_transaction(),
        Err(CSVTransactionError::MissingAmount)
    );
    let withdrawal_record = CSVTransaction {
        type_: CSVTransactionKind::Withdrawal,
        client: 1,
        tx: 1,
        amount: None,
    };
    assert_eq!(
        withdrawal_record.to_transaction(),
        Err(CSVTransactionError::MissingAmount)
    );
}

#[test]
fn test_record_lifecycle_kinds_need_no_amount() {
    for kind in [
        CSVTransactionKind::Dispute,
        CSVTransactionKind::Resolve,
        CSVTransactionKind::Chargeback,
    ] {
        let record = CSVTransaction {
            type_: kind,
            client: 2,
            tx: 3,
            amount: None,
        };
        let tx = record.to_transaction().unwrap();
        assert_eq!(tx.client_id(), ClientId(2));
    }
}
