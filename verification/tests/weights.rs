use plim_chain::licenses::SubstrateWeight as LicenseWeights;
use plim_chain::weights::{RuntimeDbWeight, Weight};

#[test]
fn license_weights_add_reads_and_writes() {
    let w = LicenseWeights { db: RuntimeDbWeight::rocks_db() };
    assert_eq!(w.mint_license(), Weight { ref_time: 20_000_000 + 2 * 25_000_000 + 2 * 100_000_000, proof_size: 0 });
    assert_eq!(w.set_creator_config(), Weight { ref_time: 10_000_000 + 100_000_000, proof_size: 0 });
    assert_eq!(w.sweep_expired(3).ref_time, 10_000_000 + 3_000_000 + 3 * 25_000_000 + 3 * 100_000_000);
    let huge = LicenseWeights { db: RuntimeDbWeight { read: u64::MAX, write: 1 } };
    assert_eq!(huge.burn_license().ref_time, u64::MAX);
}

#[test]
fn fixed_weights() {
    assert_eq!(plim_chain::kyc::SubstrateWeight::set_kyc(), Weight { ref_time: 10_000, proof_size: 0 });
    assert_eq!(plim_chain::oracle::SubstrateWeight::propose_rate().ref_time, 10_000);
    assert_eq!(plim_chain::rwa::SubstrateWeight::claim_all_yield().ref_time, 10_000);
    assert_eq!(Weight::from_parts(u64::MAX, 1).saturating_add(Weight::from_parts(1, 2)), Weight { ref_time: u64::MAX, proof_size: 3 });
}
