use plim_chain::common::{Origin, OriginRule};
use plim_chain::reputation::{
    Reputation, ReputationConfig, ReputationError, ReputationEvent, ReputationSignal, INITIAL_SCORE, MAX_SCORE,
};

fn reputation(max_history: u32) -> Reputation {
    Reputation::new(ReputationConfig { reputation_origin: OriginRule::Root, max_history_per_account: max_history })
}

#[test]
fn scores_start_at_initial_and_stay_in_range() {
    let mut r = reputation(3);
    assert_eq!(r.get_score(7), INITIAL_SCORE);
    assert_eq!(r.update_reputation(Origin::Signed(1), 1, 7, ReputationSignal::PaymentOk), Err(ReputationError::BadOrigin));
    assert_eq!(r.update_reputation(Origin::Root, 1, 7, ReputationSignal::PaymentOk), Ok(()));
    assert_eq!(r.get_score(7), 510);
    assert_eq!(r.update_reputation(Origin::Root, 2, 7, ReputationSignal::Violation), Ok(()));
    assert_eq!(r.get_score(7), 460);
    for i in 0..20 {
        assert_eq!(r.update_reputation(Origin::Root, 3 + i, 8, ReputationSignal::Violation), Ok(()));
    }
    assert_eq!(r.get_score(8), 0);
    for i in 0..60 {
        assert_eq!(r.update_reputation(Origin::Root, 3 + i, 9, ReputationSignal::PaymentOk), Ok(()));
    }
    assert_eq!(r.get_score(9), MAX_SCORE);
    assert_eq!(r.reputation_history.get(&9).unwrap().len(), 3);
    assert_eq!(r.reputation_history.get(&9).unwrap()[2].block, 62);
}

#[test]
fn signal_deltas() {
    assert_eq!(ReputationSignal::PaymentOk.delta(), (10, true));
    assert_eq!(ReputationSignal::GoodSla.delta(), (5, true));
    assert_eq!(ReputationSignal::Dispute.delta(), (20, false));
    assert_eq!(ReputationSignal::Violation.delta(), (50, false));
}

#[test]
fn query_announces_score() {
    let mut r = reputation(3);
    assert_eq!(r.query_reputation(Origin::Root, 7), Err(ReputationError::BadOrigin));
    assert_eq!(r.query_reputation(Origin::Signed(2), 7), Ok(()));
    assert!(matches!(r.events.last(), Some(ReputationEvent::ReputationQueried { account: 7, score: 500 })));
}
