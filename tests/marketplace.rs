use candid::Principal;
use carbonlock::error::LedgerError;
use carbonlock::events::{EventType, EVENT_LOG_SIZE};
use carbonlock::market::{ContractStatus, Marketplace};

fn party(b: u8) -> Principal {
    Principal::from_slice(&[b])
}

#[test]
fn create_buy_scenario() {
    let mut m = Marketplace::new();
    let buyer = party(1);
    let seller = party(2);
    let id = m.create_contract(buyer, seller, 100, 1000, 2030, 50);
    assert_eq!(id, 1);
    let c = m.get_contract(1).unwrap();
    assert_eq!(c.status, ContractStatus::Created);
    assert_eq!(c.buyer, Some(buyer));
    assert_eq!(c.seller, seller);
    assert_eq!(c.amount_tonnes, 100);
    assert_eq!(c.price_usd_cents, 1000);
    assert_eq!(c.delivery_year, 2030);
    assert!(m.buy_contract(1, 60));
    assert_eq!(m.get_contract(1).unwrap().status, ContractStatus::Purchased);
    assert!(!m.buy_contract(1, 70));
    let events = m.list_events();
    assert_eq!(events.len(), 2);
    assert_eq!(events[0].event_type, EventType::Created);
    assert_eq!(events[0].contract_id, 1);
    assert_eq!(events[1].event_type, EventType::Purchased);
    assert_eq!(events[1].contract_id, 1);
}

#[test]
fn ids_start_at_one_and_rise_by_one() {
    let mut m = Marketplace::new();
    for k in 1..=5u64 {
        assert_eq!(m.create_contract(party(1), party(2), 1, 0, 2030, 0), k);
    }
    for k in 1..=4u64 {
        assert_eq!(m.create_credit(party(3)), Ok(k));
    }
    let ids: Vec<u64> = m.list_contracts().iter().map(|c| c.id).collect();
    assert_eq!(ids, vec![1, 2, 3, 4, 5]);
    let ids: Vec<u64> = m.list_credits().iter().map(|c| c.id).collect();
    assert_eq!(ids, vec![1, 2, 3, 4]);
}

#[test]
fn event_log_keeps_last_hundred() {
    let mut m = Marketplace::new();
    for k in 0..105u64 {
        m.create_contract(party(1), party(2), 1, 0, 2030, k);
    }
    let events = m.list_events();
    assert_eq!(events.len(), EVENT_LOG_SIZE);
    for (i, e) in events.iter().enumerate() {
        assert_eq!(e.contract_id, i as u64 + 6);
        assert_eq!(e.timestamp, i as u64 + 5);
    }
}

#[test]
fn buy_refused_leaves_state_alone() {
    let mut m = Marketplace::new();
    m.create_contract(party(1), party(2), 10, 500, 2031, 100);
    assert!(m.buy_contract(1, 200));
    let before = m.get_contract(1).unwrap();
    assert!(!m.buy_contract(1, 300));
    let after = m.get_contract(1).unwrap();
    assert_eq!(after.updated_at, before.updated_at);
    assert_eq!(after.updated_at, 200);
    assert_eq!(m.list_events().len(), 2);
    assert!(!m.buy_contract(9, 300));
    assert!(!m.buy_contract(0, 300));
    assert_eq!(m.list_events().len(), 2);
}

#[test]
fn update_time_never_goes_backwards() {
    let mut m = Marketplace::new();
    m.create_contract(party(1), party(2), 10, 500, 2031, 100);
    assert!(m.buy_contract(1, 40));
    let c = m.get_contract(1).unwrap();
    assert_eq!(c.created_at, 100);
    assert_eq!(c.updated_at, 100);
    assert_eq!(m.list_events()[1].timestamp, 100);
}

#[test]
fn expire_from_created_and_purchased() {
    let mut m = Marketplace::new();
    m.create_contract(party(1), party(2), 10, 500, 2031, 1);
    m.create_contract(party(1), party(2), 10, 500, 2031, 2);
    assert!(m.buy_contract(2, 3));
    assert!(m.expire_contract(1, 4));
    assert!(m.expire_contract(2, 5));
    assert_eq!(m.get_contract(1).unwrap().status, ContractStatus::Expired);
    assert_eq!(m.get_contract(2).unwrap().updated_at, 5);
    assert!(!m.expire_contract(1, 6));
    assert!(!m.expire_contract(3, 6));
    assert!(!m.buy_contract(1, 6));
    let kinds: Vec<EventType> = m.list_events().iter().map(|e| e.event_type).collect();
    assert_eq!(
        kinds,
        vec![
            EventType::Created,
            EventType::Created,
            EventType::Purchased,
            EventType::Expired,
            EventType::Expired
        ]
    );
}

#[test]
fn get_missing_contract() {
    let m = Marketplace::new();
    assert!(m.get_contract(0).is_none());
    assert!(m.get_contract(1).is_none());
    assert!(m.list_contracts().is_empty());
}

#[test]
fn risk_history_keeps_last_ten() {
    let mut m = Marketplace::new();
    let owner = party(7);
    let id = m.create_credit(owner).unwrap();
    for s in 1..=15u8 {
        assert_eq!(m.update_risk_score(id, s * 10), Ok(()));
    }
    let credits = m.list_credits();
    assert_eq!(credits.len(), 1);
    let c = &credits[0];
    assert_eq!(c.owner, owner);
    assert_eq!(c.risk_score, Some(150));
    assert_eq!(c.risk_score_history, vec![60, 70, 80, 90, 100, 110, 120, 130, 140, 150]);
}

#[test]
fn fresh_credit_has_no_score() {
    let mut m = Marketplace::new();
    m.create_credit(party(1)).unwrap();
    let c = &m.list_credits()[0];
    assert_eq!(c.risk_score, None);
    assert!(c.risk_score_history.is_empty());
    assert!(m.list_events().is_empty());
}

#[test]
fn risk_update_on_missing_credit() {
    let mut m = Marketplace::new();
    assert_eq!(m.update_risk_score(1, 5), Err(LedgerError::NotFound));
    m.create_credit(party(1)).unwrap();
    assert_eq!(m.update_risk_score(2, 5), Err(LedgerError::NotFound));
    assert_eq!(m.update_risk_score(1, 255), Ok(()));
    assert_eq!(m.list_credits()[0].risk_score_history, vec![255]);
}
