use bank_ledger::client::ClientSummary;
use bank_ledger::engine::Engine;
use bank_ledger::transaction::ClientId;
use bank_ledger::transaction::MoneyType;
use bank_ledger::transaction::Transaction;
use bank_ledger::transaction::TransactionData;
use bank_ledger::transaction::TransactionId;

fn client_a() -> ClientId {
    ClientId::new(1)
}

fn tx1() -> TransactionId {
    TransactionId::new(1)
}

fn tx2() -> TransactionId {
    TransactionId::new(2)
}

fn run(transactions: Vec<Transaction>) -> Engine {
    let mut engine = Engine::create();
    for tx in transactions {
        // ignore invalid transactions for tests
        engine.update(tx).unwrap_or(());
    }
    engine
}

fn test_run(transactions: Vec<Transaction>) -> Vec<ClientSummary> {
    let engine = run(transactions);
    engine.iter().into_iter().map(|(_k, v)| v).collect()
}

fn deposit(amount: MoneyType, tx_id: TransactionId) -> Transaction {
    Transaction::Deposit {
        data: TransactionData {
            client_id: client_a(),
            tx_id,
        },
        amount,
    }
}

fn withdraw(amount: MoneyType, tx_id: TransactionId) -> Transaction {
    Transaction::Withdrawal {
        data: TransactionData {
            client_id: client_a(),
            tx_id,
        },
        amount,
    }
}

fn dispute(tx_id: TransactionId) -> Transaction {
    Transaction::Dispute {
        data: TransactionData {
            client_id: client_a(),
            tx_id,
        },
    }
}

fn resolve(tx_id: TransactionId) -> Transaction {
    Transaction::Resolve {
        data: TransactionData {
            client_id: client_a(),
            tx_id,
        },
    }
}

fn charge_back(tx_id: TransactionId) -> Transaction {
    Transaction::Chargeback {
        data: TransactionData {
            client_id: client_a(),
            tx_id,
        },
    }
}

#[test]
fn test_deposit_withdraw() {
    let balances = test_run(vec![deposit(20000, tx1()), withdraw(10000, tx2())]);
    assert_eq!(
        balances,
        vec!(ClientSummary {
            available: 10000,
            held: 0,
            locked: false,
        })
    );
}

#[test]
fn test_deposit_withdraw_empty() {
    let balances = test_run(vec![withdraw(10000, tx1())]);
    assert_eq!(
        balances,
        vec!(ClientSummary {
            available: 0,
            held: 0,
            locked: false,
        })
    );
}

#[test]
fn test_deposit_dispute() {
    let balances = test_run(vec![
        deposit(20000, tx1()),
        deposit(10000, tx2()),
        dispute(tx1()),
    ]);
    assert_eq!(
        balances,
        vec!(ClientSummary {
            available: 10000,
            held: 20000,
            locked: false,
        })
    );
}

#[test]
fn test_withdrawal_dispute_insufficient_balance() {
    let balances = test_run(vec![
        deposit(20000, tx1()),
        withdraw(10000, tx2()),
        dispute(tx1()),
    ]);
    assert_eq!(
        balances,
        vec!(ClientSummary {
            available: 10000,
            held: 0,
            locked: false,
        })
    );
}

#[test]
fn test_double_dispute() {
    let balances = test_run(vec![
        deposit(20000, tx1()),
        dispute(tx1()),
        deposit(10000, tx2()),
        dispute(tx1()),
    ]);
    assert_eq!(
        balances,
        vec!(ClientSummary {
            available: 10000,
            held: 20000,
            locked: false,
        })
    );
}

#[test]
fn test_deposit_dispute_resolve() {
    let balances = test_run(vec![
        deposit(20000, tx1()),
        deposit(10000, tx2()),
        dispute(tx1()),
        resolve(tx1()),
    ]);
    assert_eq!(
        balances,
        vec!(ClientSummary {
            available: 30000,
            held: 0,
            locked: false,
        })
    );
}

#[test]
fn test_deposit_dispute_chargeback() {
    let balances = test_run(vec![
        deposit(20000, tx1()),
        deposit(10000, tx2()),
        dispute(tx1()),
        charge_back(tx1()),
    ]);
    assert_eq!(
        balances,
        vec!(ClientSummary {
            available: 10000,
            held: 0,
            locked: true,
        })
    );
}

#[test]
fn test_deposit_dispute_double_chargeback() {
    let balances = test_run(vec![
        deposit(20000, tx1()),
        deposit(10000, tx2()),
        dispute(tx1()),
        charge_back(tx1()),
        charge_back(tx1()),
    ]);
    assert_eq!(
        balances,
        vec!(ClientSummary {
            available: 10000,
            held: 0,
            locked: true,
        })
    );
}

#[test]
fn test_deposit_dispute_after_chargeback() {
    let balances = test_run(vec![
        deposit(20000, tx1()),
        deposit(10000, tx2()),
        dispute(tx1()),
        charge_back(tx1()),
        dispute(tx1()),
    ]);
    assert_eq!(
        balances,
        vec!(ClientSummary {
            available: 10000,
            held: 0,
            locked: true,
        })
    );
}

#[test]
fn test_deposit_dispute_after_resolve() {
    let balances = test_run(vec![
        deposit(20000, tx1()),
        deposit(10000, tx2()),
        dispute(tx1()),
        resolve(tx1()),
        dispute(tx1()),
    ]);
    assert_eq!(
        balances,
        vec!(ClientSummary {
            available: 10000,
            held: 20000,
            locked: false,
        })
    );
}
