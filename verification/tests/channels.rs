use plim_chain::channels::{channel_id, ChannelStatus, Channels, ChannelsConfig, ChannelsError};
use plim_chain::common::Origin;
use plim_chain::ledger::Ledger;

fn setup() -> (Channels, Ledger) {
    let mut l = Ledger::new(1);
    l.endow(1, 1_000);
    l.endow(2, 1_000);
    (Channels::new(ChannelsConfig { default_dispute_period: 10, max_channel_ttl: 100 }), l)
}

fn expected_id(a: u64, b: u64, now: u64) -> [u8; 32] {
    let mut enc = a.to_le_bytes().to_vec();
    enc.extend_from_slice(&b.to_le_bytes());
    enc.extend_from_slice(&now.to_le_bytes());
    sp_io::hashing::blake2_256(&enc)
}

#[test]
fn open_reserves_both_deposits_and_close_returns_them() {
    let (mut c, mut l) = setup();
    assert_eq!(c.open_channel(&mut l, Origin::Signed(1), 5, 2, 100, 50, 101), Err(ChannelsError::TTLExceedsMax));
    assert_eq!(c.open_channel(&mut l, Origin::Signed(1), 5, 2, 100, 5_000, 50), Err(ChannelsError::InsufficientBalance));
    assert_eq!(l.reserved_balance(1), 0);
    assert_eq!(c.open_channel(&mut l, Origin::Signed(1), 5, 2, 100, 50, 50), Ok(()));
    let id = expected_id(1, 2, 5);
    assert_eq!(channel_id(1, 2, 5), id);
    assert_eq!(l.reserved_balance(1), 100);
    assert_eq!(l.reserved_balance(2), 50);
    assert_eq!(c.open_channel(&mut l, Origin::Signed(1), 5, 2, 1, 1, 50), Err(ChannelsError::ChannelAlreadyExists));
    assert_eq!(c.close_channel(&mut l, Origin::Signed(3), id, 0, 0), Err(ChannelsError::NotChannelParty));
    assert_eq!(c.close_channel(&mut l, Origin::Signed(2), id, 100, 51), Err(ChannelsError::InvalidBalanceSplit));
    assert_eq!(c.close_channel(&mut l, Origin::Signed(2), id, 100, 50), Ok(()));
    assert_eq!(l.reserved_balance(1), 0);
    assert_eq!(l.free_balance(1), 1_000);
    assert_eq!(l.free_balance(2), 1_000);
    assert_eq!(c.channels.get(&id).unwrap().status, ChannelStatus::Settled);
    assert_eq!(c.close_channel(&mut l, Origin::Signed(2), id, 0, 0), Err(ChannelsError::InvalidChannelStatus));
}

#[test]
fn dispute_then_settle_after_period() {
    let (mut c, mut l) = setup();
    assert_eq!(c.open_channel(&mut l, Origin::Signed(1), 5, 2, 100, 50, 50), Ok(()));
    let id = expected_id(1, 2, 5);
    assert_eq!(c.dispute_channel(Origin::Signed(1), 20, id, 0, 10, 10), Err(ChannelsError::StaleNonce));
    assert_eq!(c.dispute_channel(Origin::Signed(1), 20, id, 3, 10, 10), Ok(()));
    assert_eq!(c.dispute_channel(Origin::Signed(2), 21, id, 3, 10, 10), Err(ChannelsError::StaleNonce));
    let st = *c.channels.get(&id).unwrap();
    assert_eq!(st.status, ChannelStatus::Closing);
    assert_eq!(st.nonce, 3);
    assert_eq!(st.ttl, 30);
    assert_eq!(c.settle_channel(&mut l, Origin::Signed(9), 29, id), Err(ChannelsError::DisputePeriodNotElapsed));
    assert_eq!(c.settle_channel(&mut l, Origin::Signed(9), 30, id), Ok(()));
    assert_eq!(l.reserved_balance(1), 0);
    assert_eq!(l.reserved_balance(2), 0);
    assert_eq!(c.settle_channel(&mut l, Origin::Signed(9), 40, id), Err(ChannelsError::InvalidChannelStatus));
}
