use candid::Principal;
use carbonlock::clock::{now_seconds, seconds_or_zero, MonotonicClock};
use carbonlock::error::LedgerError;
use carbonlock::settlement::{balance_reply, Settlement, TxStatus};

fn party(b: u8) -> Principal {
    Principal::from_slice(&[b])
}

#[test]
fn transfer_confirmed_scenario() {
    let mut s = Settlement::new();
    s.set_ckbtc_canister_id(party(9));
    let (a, b) = (party(1), party(2));
    assert_eq!(s.transfer_ckbtc(a, b, 500, 77, Ok(())), Ok(1));
    let tx = s.get_transaction(1).unwrap();
    assert_eq!(tx.status, TxStatus::Confirmed);
    assert_eq!(tx.from, a);
    assert_eq!(tx.to, b);
    assert_eq!(tx.amount, 500);
    assert_eq!(tx.timestamp, 77);
}

#[test]
fn query_balance_before_configure() {
    let s = Settlement::new();
    assert!(matches!(s.query_balance(party(1)), Err(LedgerError::NotConfigured)));
}

#[test]
fn query_balance_after_configure() {
    let mut s = Settlement::new();
    s.set_ckbtc_canister_id(party(9));
    let q = s.query_balance(party(1)).unwrap();
    assert_eq!(q.ledger, party(9));
    assert_eq!(q.account, party(1));
    assert_eq!(balance_reply(Ok(1_000_000)), Ok(1_000_000));
    assert_eq!(
        balance_reply(Err("down".to_string())),
        Err(LedgerError::SettlementFailed("down".to_string()))
    );
}

#[test]
fn transfer_before_configure() {
    let mut s = Settlement::new();
    assert_eq!(s.transfer_ckbtc(party(1), party(2), 5, 0, Ok(())), Err(LedgerError::NotConfigured));
    assert_eq!(s.begin_transfer(party(1), party(2), 5, 0), Err(LedgerError::NotConfigured));
    assert!(s.list_transactions().is_empty());
    assert_eq!(s.get_ckbtc_canister_id(), None);
}

#[test]
fn pending_then_failed() {
    let mut s = Settlement::new();
    s.set_ckbtc_canister_id(party(9));
    let id = s.begin_transfer(party(1), party(2), 42, 10).unwrap();
    assert_eq!(id, 1);
    assert_eq!(s.get_transaction(id).unwrap().status, TxStatus::Pending);
    assert_eq!(s.list_transactions().len(), 1);
    let r = s.complete_transfer(id, Err("insufficient funds".to_string()));
    assert_eq!(r, Err(LedgerError::SettlementFailed("insufficient funds".to_string())));
    assert_eq!(
        s.get_transaction(id).unwrap().status,
        TxStatus::Failed("insufficient funds".to_string())
    );
}

#[test]
fn settled_transactions_stay_settled() {
    let mut s = Settlement::new();
    s.set_ckbtc_canister_id(party(9));
    assert_eq!(s.transfer_ckbtc(party(1), party(2), 1, 0, Ok(())), Ok(1));
    assert_eq!(
        s.transfer_ckbtc(party(1), party(2), 2, 0, Err("no".to_string())),
        Err(LedgerError::SettlementFailed("no".to_string()))
    );
    assert_eq!(s.complete_transfer(1, Err("late".to_string())), Err(LedgerError::InvalidTransition));
    assert_eq!(s.complete_transfer(2, Ok(())), Err(LedgerError::InvalidTransition));
    assert_eq!(s.complete_transfer(3, Ok(())), Err(LedgerError::NotFound));
    s.set_ckbtc_canister_id(party(8));
    assert_eq!(s.transfer_ckbtc(party(1), party(2), 3, 0, Ok(())), Ok(3));
    let txs = s.list_transactions();
    assert_eq!(txs[0].status, TxStatus::Confirmed);
    assert_eq!(txs[1].status, TxStatus::Failed("no".to_string()));
    assert_eq!(txs.iter().map(|t| t.tx_id).collect::<Vec<u64>>(), vec![1, 2, 3]);
    assert!(s.get_transaction(0).is_none());
    assert!(s.get_transaction(4).is_none());
}

#[test]
fn clock_reads_seconds_since_epoch() {
    let mut clock = MonotonicClock::new();
    let t = now_seconds(&mut clock);
    assert!(t > 1_600_000_000);
    assert!(t < 100_000_000_000);
    assert_eq!(clock.last, t);
    assert!(now_seconds(&mut clock) >= t);
}

#[test]
fn clock_never_goes_backwards() {
    let mut clock = MonotonicClock::new();
    assert_eq!(clock.read(100), 100);
    assert_eq!(clock.read(90), 100);
    assert_eq!(clock.last, 100);
    assert_eq!(clock.read(150), 150);
    let mut ahead = MonotonicClock { last: u64::MAX - 1 };
    assert_eq!(now_seconds(&mut ahead), u64::MAX - 1);
}

#[test]
fn reading_before_epoch_is_zero() {
    assert_eq!(seconds_or_zero(Ok(1234)), 1234);
    assert_eq!(seconds_or_zero(Err(())), 0);
}
