use plim_chain::common::Origin;
use plim_chain::oracle::{AssetPair, Oracle, OracleConfig, OracleError, OracleEvent};

const ALICE: u64 = 1;
const BOB: u64 = 2;
const CAROL: u64 = 3;
const EVE: u64 = 99;

fn oracle_with(updaters: Vec<u64>, quorum: u32) -> Oracle {
    Oracle::genesis(OracleConfig { max_updaters: 5, staleness_window: 100 }, &updaters, quorum)
}

#[test]
fn propose_rate_by_non_updater_fails() {
    let mut o = oracle_with(vec![ALICE, BOB], 2);
    assert_eq!(o.propose_rate(Origin::Signed(EVE), 1, AssetPair::PlimEur, 1_500_000), Err(OracleError::NotUpdater));
    assert_eq!(o.pending_rates.len(), 0);
}

#[test]
fn single_propose_below_quorum_does_not_activate() {
    let mut o = oracle_with(vec![ALICE, BOB], 2);
    assert_eq!(o.propose_rate(Origin::Signed(ALICE), 1, AssetPair::PlimEur, 1_500_000), Ok(()));
    assert!(o.rates.get(&AssetPair::PlimEur).is_none());
    assert!(o.pending_rates.get(&(AssetPair::PlimEur, ALICE)).is_some());
}

#[test]
fn quorum_reached_activates_rate() {
    let mut o = oracle_with(vec![ALICE, BOB], 2);
    assert_eq!(o.propose_rate(Origin::Signed(ALICE), 10, AssetPair::PlimEur, 1_500_000), Ok(()));
    assert_eq!(o.propose_rate(Origin::Signed(BOB), 10, AssetPair::PlimEur, 1_500_000), Ok(()));
    let r = o.rates.get(&AssetPair::PlimEur).expect("rate should be set");
    assert_eq!(r.rate_micros, 1_500_000);
    assert_eq!(r.updated_at, 10);
    assert_eq!(r.quorum_attesters.len(), 2);
    assert_eq!(r.quorum_attesters, vec![ALICE, BOB]);
    assert!(o.pending_rates.get(&(AssetPair::PlimEur, ALICE)).is_none());
    assert!(o.pending_rates.get(&(AssetPair::PlimEur, BOB)).is_none());
    let saw_updated = o.events.iter().any(|e| {
        matches!(e, OracleEvent::RateUpdated { pair: AssetPair::PlimEur, rate_micros: 1_500_000, .. })
    });
    assert!(saw_updated, "RateUpdated event should be emitted");
}

#[test]
fn divergent_proposals_do_not_activate() {
    let mut o = oracle_with(vec![ALICE, BOB], 2);
    assert_eq!(o.propose_rate(Origin::Signed(ALICE), 1, AssetPair::PlimEur, 1_500_000), Ok(()));
    assert_eq!(o.propose_rate(Origin::Signed(BOB), 1, AssetPair::PlimEur, 1_600_000), Ok(()));
    assert!(o.rates.get(&AssetPair::PlimEur).is_none());
    assert!(o.pending_rates.get(&(AssetPair::PlimEur, ALICE)).is_some());
    assert!(o.pending_rates.get(&(AssetPair::PlimEur, BOB)).is_some());
}

#[test]
fn get_rate_returns_stale_when_aged_out() {
    let mut o = oracle_with(vec![ALICE, BOB], 2);
    assert_eq!(o.propose_rate(Origin::Signed(ALICE), 5, AssetPair::PlimEur, 2_000_000), Ok(()));
    assert_eq!(o.propose_rate(Origin::Signed(BOB), 5, AssetPair::PlimEur, 2_000_000), Ok(()));
    let now = 5 + 101;
    assert_eq!(o.get_rate(AssetPair::PlimEur, now), Err(OracleError::StaleRate));
    assert!(!o.is_fresh(AssetPair::PlimEur, now));
    assert_eq!(o.get_rate(AssetPair::PlimEur, 5 + 100), Ok(2_000_000));
}

#[test]
fn remove_updater_clears_pending_proposals() {
    let mut o = oracle_with(vec![ALICE, BOB, CAROL], 2);
    assert_eq!(o.propose_rate(Origin::Signed(ALICE), 1, AssetPair::PlimEur, 1_111), Ok(()));
    assert_eq!(o.propose_rate(Origin::Signed(ALICE), 1, AssetPair::BtcEur, 2_222), Ok(()));
    assert!(o.pending_rates.get(&(AssetPair::PlimEur, ALICE)).is_some());
    assert!(o.pending_rates.get(&(AssetPair::BtcEur, ALICE)).is_some());
    assert_eq!(o.remove_updater(Origin::Root, ALICE), Ok(()));
    for pair in [AssetPair::PlimEur, AssetPair::PeurEur, AssetPair::BtcEur, AssetPair::EthEur] {
        assert!(o.pending_rates.get(&(pair, ALICE)).is_none());
    }
    assert!(!o.updaters.contains_key(&ALICE));
}

#[test]
fn set_quorum_above_updater_count_fails() {
    let mut o = oracle_with(vec![ALICE, BOB], 1);
    assert_eq!(o.set_quorum(Origin::Root, 5), Err(OracleError::BadQuorum));
    assert_eq!(o.set_quorum(Origin::Root, 0), Err(OracleError::BadQuorum));
    assert_eq!(o.set_quorum(Origin::Root, 2), Ok(()));
    assert_eq!(o.quorum, 2);
}

#[test]
fn add_updater_requires_root() {
    let mut o = oracle_with(vec![ALICE], 1);
    assert_eq!(o.add_updater(Origin::Signed(ALICE), BOB), Err(OracleError::BadOrigin));
    assert_eq!(o.add_updater(Origin::Root, BOB), Ok(()));
    assert!(o.updaters.contains_key(&BOB));
}

#[test]
fn stale_pending_proposals_are_pruned() {
    let mut o = oracle_with(vec![ALICE, BOB], 2);
    assert_eq!(o.propose_rate(Origin::Signed(ALICE), 1, AssetPair::PlimEur, 3_141_592), Ok(()));
    assert_eq!(o.propose_rate(Origin::Signed(BOB), 1 + 101, AssetPair::PlimEur, 3_141_592), Ok(()));
    assert!(o.rates.get(&AssetPair::PlimEur).is_none());
    assert!(o.pending_rates.get(&(AssetPair::PlimEur, ALICE)).is_none());
    assert!(o.pending_rates.get(&(AssetPair::PlimEur, BOB)).is_some());
}

#[test]
fn rates_for_different_pairs_are_independent() {
    let mut o = oracle_with(vec![ALICE, BOB], 2);
    assert_eq!(o.propose_rate(Origin::Signed(ALICE), 1, AssetPair::PlimEur, 1_500_000), Ok(()));
    assert_eq!(o.propose_rate(Origin::Signed(BOB), 1, AssetPair::PlimEur, 1_500_000), Ok(()));
    assert!(o.rates.get(&AssetPair::PlimEur).is_some());
    assert!(o.rates.get(&AssetPair::BtcEur).is_none());
    let plim = o.rates.get(&AssetPair::PlimEur).unwrap().rate_micros;
    assert_eq!(o.propose_rate(Origin::Signed(ALICE), 1, AssetPair::BtcEur, 60_000_000_000), Ok(()));
    assert_eq!(o.propose_rate(Origin::Signed(BOB), 1, AssetPair::BtcEur, 60_000_000_000), Ok(()));
    let btc = o.rates.get(&AssetPair::BtcEur).expect("btc rate set");
    assert_eq!(btc.rate_micros, 60_000_000_000);
    assert_eq!(o.rates.get(&AssetPair::PlimEur).unwrap().rate_micros, plim);
}

#[test]
fn attesters_are_sorted_ascending() {
    let mut o = oracle_with(vec![ALICE, BOB, CAROL], 3);
    assert_eq!(o.propose_rate(Origin::Signed(CAROL), 1, AssetPair::EthEur, 7), Ok(()));
    assert_eq!(o.propose_rate(Origin::Signed(ALICE), 1, AssetPair::EthEur, 7), Ok(()));
    assert_eq!(o.propose_rate(Origin::Signed(BOB), 1, AssetPair::EthEur, 7), Ok(()));
    assert_eq!(o.rates.get(&AssetPair::EthEur).unwrap().quorum_attesters, vec![ALICE, BOB, CAROL]);
}
