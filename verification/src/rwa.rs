//! Real-world-asset tokenization: assets with a finite supply of shares, KYC-gated
//! minting and transfers, and pro-rata yield distribution with lazy claims.

use vstd::prelude::*;
use crate::weights::Weight;
use crate::common::{
    ensure_root, ensure_signed, pallet_account, pallet_account_spec, sat_sub, AccountId, Balance,
    BlockNumber, Hash32, Origin,
};
use crate::crypto::{blake2_256, blake2_256_of};
use crate::ledger::{apply_transfer, can_transfer, transfer_error, BalanceError, Ledger};
use crate::scale::{enc_bytes, push_bytes};
use crate::table::{is_selection, lemma_filter_no_duplicates, lemma_prefix_is_selection, Table};

verus! {

/// The pallet id from which the yield pot account is derived.
pub const PALLET_ID: [u8; 8] = [0x70, 0x79, 0x2f, 0x70, 0x6c, 0x72, 0x77, 0x61];

/// Maximum length of an asset symbol.
pub const MAX_SYMBOL_LEN: usize = 16;

/// Maximum length of an asset name.
pub const MAX_NAME_LEN: usize = 128;

/// Verification level of an account; levels are ordered as declared.
#[derive(Clone, Copy, Debug, PartialEq, Eq, Structural, PartialOrd, Ord)]
pub enum KycLevel {
    /// No verification.
    Unverified,
    Basic,
    Enhanced,
    Institutional,
}

impl Default for KycLevel {
    fn default() -> (r: Self)
        ensures
            r == KycLevel::Unverified,
    {
        KycLevel::Unverified
    }
}

/// Rank of a level: `None < Basic < Enhanced < Institutional`.
pub open spec fn kyc_rank(l: KycLevel) -> u8 {
    match l {
        KycLevel::Unverified => 0,
        KycLevel::Basic => 1,
        KycLevel::Enhanced => 2,
        KycLevel::Institutional => 3,
    }
}

/// Rank of a level.
pub fn rank(l: KycLevel) -> (r: u8)
    ensures
        r == kyc_rank(l),
{
    match l {
        KycLevel::Unverified => 0,
        KycLevel::Basic => 1,
        KycLevel::Enhanced => 2,
        KycLevel::Institutional => 3,
    }
}

/// A KYC refusal.
#[derive(Clone, Copy, Debug, PartialEq, Eq, Structural)]
pub struct KycDenied;

/// The KYC source that gates share ownership.
pub trait KycProvider {
    /// The provider's own consistency, which its queries need.
    spec fn valid(&self) -> bool;

    /// The level of `account`.
    spec fn level_spec(&self, account: AccountId) -> KycLevel;

    /// Whether `account` is sanctioned.
    spec fn sanctioned_spec(&self, account: AccountId) -> bool;

    /// Whether the KYC of `account` has expired at `now`.
    spec fn expired_spec(&self, account: AccountId, now: BlockNumber) -> bool;

    /// Whether `account` meets `required` at `now`.
    spec fn admits(&self, account: AccountId, required: KycLevel, now: BlockNumber) -> bool;

    fn level_of(&self, account: AccountId) -> (r: KycLevel)
        requires
            self.valid(),
        ensures
            r == self.level_spec(account),
    ;

    fn is_sanctioned(&self, account: AccountId) -> (r: bool)
        requires
            self.valid(),
        ensures
            r == self.sanctioned_spec(account),
    ;

    fn is_expired(&self, account: AccountId, now: BlockNumber) -> (r: bool)
        requires
            self.valid(),
        ensures
            r == self.expired_spec(account, now),
    ;

    fn require_at_least(&self, account: AccountId, required: KycLevel, now: BlockNumber) -> (r: Result<(), KycDenied>)
        requires
            self.valid(),
        ensures
            r is Ok <==> self.admits(account, required, now),
    ;
}

/// The permissive provider: everyone is institutional, nobody is sanctioned or expired.
#[derive(Clone, Copy, Debug)]
pub struct OpenKyc;

impl KycProvider for OpenKyc {
    open spec fn valid(&self) -> bool {
        true
    }

    open spec fn level_spec(&self, account: AccountId) -> KycLevel {
        KycLevel::Institutional
    }

    open spec fn sanctioned_spec(&self, account: AccountId) -> bool {
        false
    }

    open spec fn expired_spec(&self, account: AccountId, now: BlockNumber) -> bool {
        false
    }

    open spec fn admits(&self, account: AccountId, required: KycLevel, now: BlockNumber) -> bool {
        true
    }

    fn level_of(&self, account: AccountId) -> (r: KycLevel) {
        KycLevel::Institutional
    }

    fn is_sanctioned(&self, account: AccountId) -> (r: bool) {
        false
    }

    fn is_expired(&self, account: AccountId, now: BlockNumber) -> (r: bool) {
        false
    }

    fn require_at_least(&self, account: AccountId, required: KycLevel, now: BlockNumber) -> (r: Result<(), KycDenied>) {
        Ok(())
    }
}

/// Currency of a yield or a net asset value.
#[derive(Clone, Copy, Debug, PartialEq, Eq, Structural)]
pub enum Currency {
    Plim,
    PEur,
    Fiat,
}

impl Default for Currency {
    fn default() -> (r: Self)
        ensures
            r == Currency::Plim,
    {
        Currency::Plim
    }
}

/// Life-cycle status of an asset.
#[derive(Clone, Copy, Debug, PartialEq, Eq, Structural)]
pub enum RwaStatus {
    Active,
    Frozen,
    WoundDown,
}

impl Default for RwaStatus {
    fn default() -> (r: Self)
        ensures
            r == RwaStatus::Active,
    {
        RwaStatus::Active
    }
}

/// Proof of an off-chain payment for minted shares.
#[derive(Clone, Copy, Debug)]
pub struct PaymentProof {
    pub payer: AccountId,
    pub amount: Balance,
    pub proof_hash: Hash32,
}

/// A registered asset.
#[derive(Debug)]
pub struct RwaAsset {
    /// Ticker, at most 16 bytes.
    pub symbol: Vec<u8>,
    /// Name, at most 128 bytes.
    pub name: Vec<u8>,
    pub description_hash: Hash32,
    pub total_supply: Balance,
    pub kyc_required: KycLevel,
    pub yield_currency: Currency,
    pub nav_currency: Currency,
    pub jurisdiction: [u8; 2],
    pub created_at_block: BlockNumber,
    pub manager: AccountId,
}

/// One yield distribution of an asset.
#[derive(Clone, Copy, Debug)]
pub struct YieldDistribution {
    pub total_amount: Balance,
    pub currency: Currency,
    pub distributed_at: BlockNumber,
    pub snapshot_at: BlockNumber,
    pub description_hash: Hash32,
    pub remaining_unclaimed: Balance,
}

/// Events of the asset registry.
#[derive(Debug)]
pub enum RwaEvent {
    AssetRegistered { asset_id: u32, symbol: Vec<u8>, total_supply: Balance, kyc_required: KycLevel },
    SharesMinted { asset_id: u32, to: AccountId, amount: Balance, payment_proof_hash: Hash32 },
    SharesBurned { asset_id: u32, from: AccountId, amount: Balance },
    BurnRequested { asset_id: u32, account: AccountId, amount: Balance },
    SharesTransferred { asset_id: u32, from: AccountId, to: AccountId, amount: Balance },
    YieldDistributed { asset_id: u32, distribution_id: u64, total_amount: Balance, snapshot_at: BlockNumber },
    YieldClaimed { asset_id: u32, distribution_id: u64, account: AccountId, amount: Balance },
    AssetFrozen { asset_id: u32 },
    AssetUnfrozen { asset_id: u32 },
    AssetWoundDown { asset_id: u32, final_nav: Balance },
}

/// Errors of the asset registry.
#[derive(Clone, Copy, Debug, PartialEq, Eq, Structural)]
pub enum RwaError {
    BadOrigin,
    AssetNotFound,
    AssetFrozen,
    AssetWoundDown,
    TotalSupplyExceeded,
    InsufficientShares,
    KycRequired,
    SenderKycFailed,
    ReceiverKycFailed,
    ManagerOnly,
    DistributionNotFound,
    NothingToClaim,
    BadPaymentProof,
    ArithmeticOverflow,
    SnapshotBlockInFuture,
    AssetAlreadyExists,
    TooManyShareholders,
    /// A currency transfer failed.
    Balance(BalanceError),
}

/// Constants of the asset registry.
#[derive(Clone, Copy, Debug)]
pub struct RwaConfig {
    /// Most distributions one `claim_all_yield` clears.
    pub max_distributions_per_claim: u32,
    /// Most shareholder rows a distribution may cover.
    pub max_shareholders_per_distribution: u32,
}

/// The asset registry storage.
pub struct Rwa {
    pub config: RwaConfig,
    /// Assets by id.
    pub assets: Table<u32, RwaAsset>,
    /// Shares by (asset, holder).
    pub shareholders: Table<(u32, AccountId), Balance>,
    /// Issued shares by asset.
    pub total_issued: Table<u32, Balance>,
    /// Distributions by (asset, distribution).
    pub yield_distributions: Table<(u32, u64), YieldDistribution>,
    /// Unclaimed yield by (asset, distribution, holder).
    pub unclaimed_yield: Table<(u32, u64, AccountId), Balance>,
    /// Status by asset (missing means `Active`).
    pub asset_status: Table<u32, RwaStatus>,
    /// Next distribution id by asset (missing means 0).
    pub next_distribution_id: Table<u32, u64>,
    /// Deposited events, oldest first.
    pub events: Vec<RwaEvent>,
}

/// `a * b`, capped at `u128::MAX`.
pub open spec fn sat_mul_u128(a: u128, b: u128) -> u128 {
    if a * b <= u128::MAX {
        (a * b) as u128
    } else {
        u128::MAX
    }
}

/// The pro-rata share of `total` for a holding of `held` out of `issued`.
pub open spec fn pro_rata(total: Balance, held: Balance, issued: Balance) -> Balance {
    (sat_mul_u128(total, held) / issued) as Balance
}

/// Whether a shareholder row belongs to `asset`.
pub open spec fn holder_of(asset: u32) -> spec_fn((u32, AccountId)) -> bool {
    |k: (u32, AccountId)| k.0 == asset
}

/// The id `register_asset` assigns: the low 32 bits of the little-endian reading of the
/// first eight bytes of the BLAKE2-256 digest of the encoded symbol, and at least 1.
pub open spec fn asset_id_spec(symbol: Seq<u8>) -> u32 {
    let h = blake2_256_of(enc_bytes(symbol));
    let n = h[0] + h[1] * 0x100 + h[2] * 0x1_0000 + h[3] * 0x100_0000;
    if n == 0 { 1 } else { n as u32 }
}

/// Derive the asset id from a symbol.
pub fn next_asset_id_from(symbol: &Vec<u8>) -> (id: u32)
    requires
        symbol@.len() <= u32::MAX,
    ensures
        id == asset_id_spec(symbol@),
{
    let mut buf: Vec<u8> = Vec::new();
    push_bytes(&mut buf, symbol.as_slice());
    let h = blake2_256(buf.as_slice());
    let n: u32 = h[0] as u32 + h[1] as u32 * 0x100 + h[2] as u32 * 0x1_0000 + h[3] as u32 * 0x100_0000;
    if n == 0 { 1 } else { n }
}

/// The shares of `asset` held, according to `m`, by the holders listed in `keys`.
pub open spec fn holdings_in(m: Map<(u32, AccountId), Balance>, asset: u32, keys: Seq<(u32, AccountId)>) -> int
    decreases keys.len(),
{
    if keys.len() == 0 {
        0
    } else {
        let k = keys.last();
        holdings_in(m, asset, keys.drop_last()) + if k.0 == asset { m[k] as int } else { 0int }
    }
}

/// The pro-rata amounts of a distribution of `total` over `issued` shares that the holders
/// of `asset` listed in `keys` receive, together.
pub open spec fn payouts_in(m: Map<(u32, AccountId), Balance>, asset: u32, keys: Seq<(u32, AccountId)>, total: Balance, issued: Balance) -> int
    decreases keys.len(),
{
    if keys.len() == 0 {
        0
    } else {
        let k = keys.last();
        payouts_in(m, asset, keys.drop_last(), total, issued) + if k.0 == asset { pro_rata(total, m[k], issued) as int } else { 0int }
    }
}

proof fn lemma_payouts_scaled(m: Map<(u32, AccountId), Balance>, asset: u32, keys: Seq<(u32, AccountId)>, total: Balance, issued: Balance)
    requires
        issued > 0,
    ensures
        payouts_in(m, asset, keys, total, issued) * issued <= total * holdings_in(m, asset, keys),
    decreases keys.len(),
{
    if keys.len() > 0 {
        let k = keys.last();
        let t = keys.drop_last();
        lemma_payouts_scaled(m, asset, t, total, issued);
        let a = payouts_in(m, asset, t, total, issued);
        let h = holdings_in(m, asset, t);
        if k.0 == asset {
            let x = sat_mul_u128(total, m[k]) as int;
            let f = pro_rata(total, m[k], issued) as int;
            assert(f == x / (issued as int));
            assert(x <= total * m[k]) by (nonlinear_arith)
                requires x == sat_mul_u128(total, m[k]) as int;
            assert(f * issued <= x) by (nonlinear_arith)
                requires f == x / (issued as int), issued > 0, x >= 0;
            assert((a + f) * issued == a * issued + f * issued) by (nonlinear_arith);
            assert(total * (h + m[k]) == total * h + total * m[k]) by (nonlinear_arith);
        }
    }
}

proof fn lemma_holdings_agree(m1: Map<(u32, AccountId), Balance>, m2: Map<(u32, AccountId), Balance>, asset: u32, keys: Seq<(u32, AccountId)>)
    requires
        forall|i: int| 0 <= i < keys.len() && (#[trigger] keys[i]).0 == asset ==> m1[keys[i]] == m2[keys[i]],
    ensures
        holdings_in(m1, asset, keys) == holdings_in(m2, asset, keys),
    decreases keys.len(),
{
    if keys.len() > 0 {
        let t = keys.drop_last();
        assert forall|i: int| 0 <= i < t.len() && (#[trigger] t[i]).0 == asset implies m1[t[i]] == m2[t[i]] by {
            assert(t[i] == keys[i]);
        }
        lemma_holdings_agree(m1, m2, asset, t);
        assert(keys.last() == keys[keys.len() - 1]);
    }
}

proof fn lemma_holdings_bounds(m: Map<(u32, AccountId), Balance>, asset: u32, keys: Seq<(u32, AccountId)>)
    ensures
        holdings_in(m, asset, keys) >= 0,
        forall|i: int| 0 <= i < keys.len() && (#[trigger] keys[i]).0 == asset ==> m[keys[i]] <= holdings_in(m, asset, keys),
    decreases keys.len(),
{
    if keys.len() > 0 {
        let t = keys.drop_last();
        lemma_holdings_bounds(m, asset, t);
        assert forall|i: int| 0 <= i < keys.len() && (#[trigger] keys[i]).0 == asset implies m[keys[i]] <= holdings_in(m, asset, keys) by {
            if i < t.len() {
                assert(t[i] == keys[i]);
            }
        }
    }
}

proof fn lemma_holdings_update(m: Map<(u32, AccountId), Balance>, asset: u32, keys: Seq<(u32, AccountId)>, k: (u32, AccountId), v: Balance)
    requires
        keys.no_duplicates(),
        keys.contains(k),
    ensures
        holdings_in(m.insert(k, v), asset, keys) == holdings_in(m, asset, keys) + if k.0 == asset { v - m[k] } else { 0int },
    decreases keys.len(),
{
    let t = keys.drop_last();
    let last = keys.last();
    assert(last == keys[keys.len() - 1]);
    if last == k {
        assert forall|i: int| 0 <= i < t.len() && (#[trigger] t[i]).0 == asset implies m.insert(k, v)[t[i]] == m[t[i]] by {
            assert(t[i] == keys[i]);
            assert(keys[i] != keys[keys.len() - 1]);
        }
        lemma_holdings_agree(m.insert(k, v), m, asset, t);
    } else {
        let j = choose|j: int| 0 <= j < keys.len() && keys[j] == k;
        assert(t[j] == k);
        assert(t.no_duplicates()) by {
            assert forall|a: int, b: int| 0 <= a < t.len() && 0 <= b < t.len() && a != b implies t[a] != t[b] by {
                assert(t[a] == keys[a] && t[b] == keys[b]);
            }
        }
        lemma_holdings_update(m, asset, t, k, v);
    }
}

/// Storing `v` for the holder `k` changes the holdings of `asset` by the difference it
/// makes to that holder's shares, when `keys` lists the holders in table order before and
/// `new_keys` after.
proof fn lemma_holdings_insert(
    m: Map<(u32, AccountId), Balance>,
    keys: Seq<(u32, AccountId)>,
    new_keys: Seq<(u32, AccountId)>,
    k: (u32, AccountId),
    v: Balance,
    asset: u32,
)
    requires
        keys.no_duplicates(),
        forall|x: (u32, AccountId)| #[trigger] m.contains_key(x) <==> keys.contains(x),
        new_keys == if m.contains_key(k) { keys } else { keys.push(k) },
    ensures
        holdings_in(m.insert(k, v), asset, new_keys) == holdings_in(m, asset, keys)
            + if k.0 == asset { v - (if m.contains_key(k) { m[k] as int } else { 0int }) } else { 0int },
{
    if m.contains_key(k) {
        lemma_holdings_update(m, asset, keys, k, v);
    } else {
        assert(new_keys.drop_last() =~= keys);
        assert forall|i: int| 0 <= i < keys.len() && (#[trigger] keys[i]).0 == asset implies m.insert(k, v)[keys[i]] == m[keys[i]] by {
            assert(keys.contains(keys[i]));
        }
        lemma_holdings_agree(m.insert(k, v), m, asset, keys);
    }
}

/// The distribution keys of a batch of claims on `asset`.
pub open spec fn claim_keys(asset: u32, c: Seq<(u64, Balance)>) -> Seq<(u32, u64)> {
    c.map_values(|p: (u64, Balance)| (asset, p.0))
}

/// The sum of the amounts of a run of claims.
pub open spec fn claims_total(c: Seq<(u64, Balance)>) -> int
    decreases c.len(),
{
    if c.len() == 0 {
        0
    } else {
        claims_total(c.drop_last()) + c.last().1
    }
}

/// The unclaimed-yield rows with those of `who` for the given claims removed.
pub open spec fn without_claims(m: Map<(u32, u64, AccountId), Balance>, asset: u32, who: AccountId, c: Seq<(u64, Balance)>) -> Map<(u32, u64, AccountId), Balance>
    decreases c.len(),
{
    if c.len() == 0 {
        m
    } else {
        without_claims(m, asset, who, c.drop_last()).remove((asset, c.last().0, who))
    }
}

/// The distributions after the given claims, each lowering the remaining amount of its
/// distribution (saturating at zero).
pub open spec fn after_claims(m: Map<(u32, u64), YieldDistribution>, asset: u32, c: Seq<(u64, Balance)>) -> Map<(u32, u64), YieldDistribution>
    decreases c.len(),
{
    if c.len() == 0 {
        m
    } else {
        let prev = after_claims(m, asset, c.drop_last());
        let key = (asset, c.last().0);
        if prev.contains_key(key) {
            prev.insert(key, YieldDistribution {
                remaining_unclaimed: sat_sub(prev[key].remaining_unclaimed as int, c.last().1 as int) as Balance,
                ..prev[key]
            })
        } else {
            prev
        }
    }
}

/// The events the given claims deposit, in order.
pub open spec fn claimed_events(asset: u32, who: AccountId, c: Seq<(u64, Balance)>) -> Seq<RwaEvent> {
    c.map_values(|p: (u64, Balance)| RwaEvent::YieldClaimed { asset_id: asset, distribution_id: p.0, account: who, amount: p.1 })
}

impl Rwa {
    /// All tables are well formed; the issued shares of an asset stay within its total
    /// supply and are exactly the shares its holders hold together.
    pub open spec fn wf(&self) -> bool {
        &&& self.assets.wf()
        &&& self.shareholders.wf()
        &&& self.total_issued.wf()
        &&& self.yield_distributions.wf()
        &&& self.unclaimed_yield.wf()
        &&& self.asset_status.wf()
        &&& self.next_distribution_id.wf()
        &&& forall|a: u32| #[trigger] self.total_issued@.contains_key(a)
            ==> self.assets@.contains_key(a) && self.total_issued@[a] <= self.assets@[a].total_supply
        &&& forall|a: u32| #[trigger] holdings_in(self.shareholders@, a, self.shareholders.keys_seq())
            == if self.total_issued@.contains_key(a) { self.total_issued@[a] as int } else { 0int }
    }

    /// The shares of `asset` its holders hold together.
    pub open spec fn holdings_of(&self, asset: u32) -> int {
        holdings_in(self.shareholders@, asset, self.shareholders.keys_seq())
    }

    /// No holder holds more shares of an asset than are issued, so adding to a holding
    /// what the supply still allows stays within the balance type.
    pub proof fn lemma_holding_within_issued(&self, asset: u32, who: AccountId)
        requires
            self.wf(),
        ensures
            self.shares_of(asset, who) <= self.issued_of(asset),
    {
        self.shareholders.lemma_keys();
        let ks = self.shareholders.keys_seq();
        lemma_holdings_bounds(self.shareholders@, asset, ks);
        if self.shareholders@.contains_key((asset, who)) {
            assert(ks.contains((asset, who)));
            let i = choose|i: int| 0 <= i < ks.len() && ks[i] == (asset, who);
            assert(ks[i].0 == asset);
        }
    }

    /// Shares of `who` in `asset` (0 when none recorded).
    pub open spec fn shares_of(&self, asset: u32, who: AccountId) -> Balance {
        if self.shareholders@.contains_key((asset, who)) { self.shareholders@[(asset, who)] } else { 0 }
    }

    /// Issued shares of `asset`.
    pub open spec fn issued_of(&self, asset: u32) -> Balance {
        if self.total_issued@.contains_key(asset) { self.total_issued@[asset] } else { 0 }
    }

    /// Status of `asset`.
    pub open spec fn status_of(&self, asset: u32) -> RwaStatus {
        if self.asset_status@.contains_key(asset) { self.asset_status@[asset] } else { RwaStatus::Active }
    }

    /// Next distribution id of `asset`.
    pub open spec fn next_dist_of(&self, asset: u32) -> u64 {
        if self.next_distribution_id@.contains_key(asset) { self.next_distribution_id@[asset] } else { 0 }
    }

    /// Unclaimed yield of `who` in a distribution.
    pub open spec fn unclaimed_of(&self, asset: u32, dist: u64, who: AccountId) -> Balance {
        if self.unclaimed_yield@.contains_key((asset, dist, who)) { self.unclaimed_yield@[(asset, dist, who)] } else { 0 }
    }

    /// The account that holds distributed yield until it is claimed.
    pub open spec fn pot_spec() -> AccountId {
        pallet_account_spec(PALLET_ID@) as AccountId
    }

    /// An empty registry.
    pub fn new(config: RwaConfig) -> (s: Self)
        ensures
            s.wf(),
            s.config == config,
            s.assets@ == Map::<u32, RwaAsset>::empty(),
            s.shareholders@ == Map::<(u32, AccountId), Balance>::empty(),
            s.total_issued@ == Map::<u32, Balance>::empty(),
            s.yield_distributions@ == Map::<(u32, u64), YieldDistribution>::empty(),
            s.unclaimed_yield@ == Map::<(u32, u64, AccountId), Balance>::empty(),
            s.asset_status@ == Map::<u32, RwaStatus>::empty(),
            s.next_distribution_id@ == Map::<u32, u64>::empty(),
            s.events@ == Seq::<RwaEvent>::empty(),
    {
        Rwa {
            config,
            assets: Table::new(),
            shareholders: Table::new(),
            total_issued: Table::new(),
            yield_distributions: Table::new(),
            unclaimed_yield: Table::new(),
            asset_status: Table::new(),
            next_distribution_id: Table::new(),
            events: Vec::new(),
        }
    }

    /// The yield pot account.
    pub fn account_id() -> (a: AccountId)
        ensures
            a == Self::pot_spec(),
    {
        pallet_account(&PALLET_ID)
    }

    /// Shares of `who` in `asset`.
    pub fn shares(&self, asset: u32, who: AccountId) -> (b: Balance)
        requires
            self.shareholders.wf(),
        ensures
            b == self.shares_of(asset, who),
    {
        match self.shareholders.get(&(asset, who)) {
            Some(b) => *b,
            None => 0,
        }
    }

    /// Issued shares of `asset`.
    pub fn issued(&self, asset: u32) -> (b: Balance)
        requires
            self.total_issued.wf(),
        ensures
            b == self.issued_of(asset),
    {
        match self.total_issued.get(&asset) {
            Some(b) => *b,
            None => 0,
        }
    }

    /// Status of `asset`.
    pub fn status(&self, asset: u32) -> (s: RwaStatus)
        requires
            self.wf(),
        ensures
            s == self.status_of(asset),
    {
        match self.asset_status.get(&asset) {
            Some(s) => *s,
            None => RwaStatus::Active,
        }
    }

    /// Next distribution id of `asset`.
    pub fn next_distribution(&self, asset: u32) -> (d: u64)
        requires
            self.wf(),
        ensures
            d == self.next_dist_of(asset),
    {
        match self.next_distribution_id.get(&asset) {
            Some(d) => *d,
            None => 0,
        }
    }

    /// Unclaimed yield of `who` in a distribution.
    pub fn unclaimed(&self, asset: u32, dist: u64, who: AccountId) -> (b: Balance)
        requires
            self.wf(),
        ensures
            b == self.unclaimed_of(asset, dist, who),
    {
        match self.unclaimed_yield.get(&(asset, dist, who)) {
            Some(b) => *b,
            None => 0,
        }
    }

    /// The error the status of `asset` imposes on minting and transfers.
    pub open spec fn active_error(&self, asset: u32) -> Option<RwaError> {
        match self.status_of(asset) {
            RwaStatus::Active => None,
            RwaStatus::Frozen => Some(RwaError::AssetFrozen),
            RwaStatus::WoundDown => Some(RwaError::AssetWoundDown),
        }
    }

    /// Succeeds when `asset` is active.
    pub fn ensure_active(&self, asset: u32) -> (r: Result<(), RwaError>)
        requires
            self.wf(),
        ensures
            match self.active_error(asset) {
                Some(e) => r == Err::<(), RwaError>(e),
                None => r is Ok,
            },
    {
        match self.status(asset) {
            RwaStatus::Active => Ok(()),
            RwaStatus::Frozen => Err(RwaError::AssetFrozen),
            RwaStatus::WoundDown => Err(RwaError::AssetWoundDown),
        }
    }

    /// Register an asset under the id derived from its symbol (root only).
    pub fn register_asset(&mut self, origin: Origin, asset: RwaAsset) -> (r: Result<(), RwaError>)
        requires
            old(self).wf(),
            asset.symbol@.len() <= MAX_SYMBOL_LEN,
        ensures
            final(self).wf(),
            origin != Origin::Root ==> r == Err::<(), RwaError>(RwaError::BadOrigin) && *final(self) == *old(self),
            origin == Origin::Root && old(self).assets@.contains_key(asset_id_spec(asset.symbol@))
                ==> r == Err::<(), RwaError>(RwaError::AssetAlreadyExists) && *final(self) == *old(self),
            origin == Origin::Root && !old(self).assets@.contains_key(asset_id_spec(asset.symbol@)) ==> {
                let id = asset_id_spec(asset.symbol@);
                &&& r is Ok
                &&& final(self).assets@ == old(self).assets@.insert(id, asset)
                &&& final(self).asset_status@ == old(self).asset_status@.insert(id, RwaStatus::Active)
                &&& final(self).config == old(self).config
                &&& final(self).shareholders@ == old(self).shareholders@
                &&& final(self).total_issued@ == old(self).total_issued@
                &&& final(self).yield_distributions@ == old(self).yield_distributions@
                &&& final(self).unclaimed_yield@ == old(self).unclaimed_yield@
                &&& final(self).next_distribution_id@ == old(self).next_distribution_id@
                &&& final(self).events@.len() == old(self).events@.len() + 1
                &&& final(self).events@.drop_last() == old(self).events@
                &&& final(self).events@.last() matches RwaEvent::AssetRegistered { asset_id, symbol, total_supply, kyc_required }
                    && asset_id == id && symbol@ == asset.symbol@ && total_supply == asset.total_supply && kyc_required == asset.kyc_required
            },
    {
        if ensure_root(&origin).is_err() {
            return Err(RwaError::BadOrigin);
        }
        let id = next_asset_id_from(&asset.symbol);
        if self.assets.contains_key(&id) {
            return Err(RwaError::AssetAlreadyExists);
        }
        let symbol = asset.symbol.clone();
        proof {
            assert(symbol@ =~= asset.symbol@);
        }
        let total_supply = asset.total_supply;
        let kyc_required = asset.kyc_required;
        self.assets.insert(id, asset);
        self.asset_status.insert(id, RwaStatus::Active);
        self.events.push(RwaEvent::AssetRegistered { asset_id: id, symbol, total_supply, kyc_required });
        Ok(())
    }

    /// The error `mint_shares` reports, if any.
    pub open spec fn mint_error<K: KycProvider>(&self, origin: Origin, now: BlockNumber, kyc: &K, asset_id: u32, to: AccountId, amount: Balance, proof: PaymentProof) -> Option<RwaError> {
        if !(origin is Signed) {
            Some(RwaError::BadOrigin)
        } else if !self.assets@.contains_key(asset_id) {
            Some(RwaError::AssetNotFound)
        } else if self.assets@[asset_id].manager != origin->Signed_0 {
            Some(RwaError::ManagerOnly)
        } else if self.active_error(asset_id) is Some {
            self.active_error(asset_id)
        } else if !kyc.admits(to, self.assets@[asset_id].kyc_required, now) {
            Some(RwaError::ReceiverKycFailed)
        } else if proof.amount != amount {
            Some(RwaError::BadPaymentProof)
        } else if self.issued_of(asset_id) + amount > u128::MAX {
            Some(RwaError::ArithmeticOverflow)
        } else if self.issued_of(asset_id) + amount > self.assets@[asset_id].total_supply {
            Some(RwaError::TotalSupplyExceeded)
        } else {
            None
        }
    }

    /// Mint `amount` shares to a KYC-qualified holder against a payment proof of the same
    /// amount; the asset's manager only, while the asset is active, within the supply.
    pub fn mint_shares<K: KycProvider>(&mut self, origin: Origin, now: BlockNumber, kyc: &K, asset_id: u32, to: AccountId, amount: Balance, payment_proof: PaymentProof) -> (r: Result<(), RwaError>)
        requires
            old(self).wf(),
            kyc.valid(),
        ensures
            final(self).wf(),
            match old(self).mint_error(origin, now, kyc, asset_id, to, amount, payment_proof) {
                Some(e) => r == Err::<(), RwaError>(e) && *final(self) == *old(self),
                None => {
                    &&& r is Ok
                    &&& final(self).total_issued@ == old(self).total_issued@.insert(asset_id, (old(self).issued_of(asset_id) + amount) as Balance)
                    &&& final(self).shareholders@ == old(self).shareholders@.insert((asset_id, to),
                        (old(self).shares_of(asset_id, to) + amount) as Balance)
                    &&& final(self).config == old(self).config
                    &&& final(self).assets@ == old(self).assets@
                    &&& final(self).yield_distributions@ == old(self).yield_distributions@
                    &&& final(self).unclaimed_yield@ == old(self).unclaimed_yield@
                    &&& final(self).asset_status@ == old(self).asset_status@
                    &&& final(self).next_distribution_id@ == old(self).next_distribution_id@
                    &&& final(self).events@.len() == old(self).events@.len() + 1
                    &&& final(self).events@.drop_last() == old(self).events@
                    &&& final(self).events@.last() matches RwaEvent::SharesMinted { asset_id: a, to: t, amount: m, payment_proof_hash: h }
                        && a == asset_id && t == to && m == amount && h == payment_proof.proof_hash
                },
            },
    {
        let who = match ensure_signed(&origin) {
            Ok(w) => w,
            Err(_) => return Err(RwaError::BadOrigin),
        };
        let (manager, kyc_required, total_supply) = match self.assets.get(&asset_id) {
            Some(a) => (a.manager, a.kyc_required, a.total_supply),
            None => return Err(RwaError::AssetNotFound),
        };
        if manager != who {
            return Err(RwaError::ManagerOnly);
        }
        match self.ensure_active(asset_id) {
            Ok(()) => {},
            Err(e) => return Err(e),
        }
        if kyc.require_at_least(to, kyc_required, now).is_err() {
            return Err(RwaError::ReceiverKycFailed);
        }
        if payment_proof.amount != amount {
            return Err(RwaError::BadPaymentProof);
        }
        let issued = self.issued(asset_id);
        let new_issued = match issued.checked_add(amount) {
            Some(v) => v,
            None => return Err(RwaError::ArithmeticOverflow),
        };
        if new_issued > total_supply {
            return Err(RwaError::TotalSupplyExceeded);
        }
        let bal = self.shares(asset_id, to);
        let ghost sh0 = self.shareholders;
        proof {
            self.lemma_holding_within_issued(asset_id, to);
            sh0.lemma_keys();
        }
        self.total_issued.insert(asset_id, new_issued);
        self.shareholders.insert((asset_id, to), bal.saturating_add(amount));
        proof {
            assert forall|a: u32| #[trigger] holdings_in(self.shareholders@, a, self.shareholders.keys_seq())
                == if self.total_issued@.contains_key(a) { self.total_issued@[a] as int } else { 0int } by {
                lemma_holdings_insert(sh0@, sh0.keys_seq(), self.shareholders.keys_seq(), (asset_id, to), (bal + amount) as Balance, a);
            }
        }
        self.events.push(RwaEvent::SharesMinted { asset_id, to, amount, payment_proof_hash: payment_proof.proof_hash });
        Ok(())
    }

    /// The error `burn_shares` reports, if any.
    pub open spec fn burn_error(&self, origin: Origin, asset_id: u32, amount: Balance) -> Option<RwaError> {
        if !(origin is Signed) {
            Some(RwaError::BadOrigin)
        } else if !self.assets@.contains_key(asset_id) {
            Some(RwaError::AssetNotFound)
        } else if self.shares_of(asset_id, origin->Signed_0) < amount {
            Some(RwaError::InsufficientShares)
        } else {
            None
        }
    }

    /// Burn `amount` of the caller's shares and request their redemption.
    pub fn burn_shares(&mut self, origin: Origin, asset_id: u32, amount: Balance) -> (r: Result<(), RwaError>)
        requires
            old(self).wf(),
        ensures
            final(self).wf(),
            match old(self).burn_error(origin, asset_id, amount) {
                Some(e) => r == Err::<(), RwaError>(e) && *final(self) == *old(self),
                None => {
                    let who = origin->Signed_0;
                    &&& r is Ok
                    &&& final(self).shareholders@ == old(self).shareholders@.insert((asset_id, who), (old(self).shares_of(asset_id, who) - amount) as Balance)
                    &&& final(self).total_issued@ == old(self).total_issued@.insert(asset_id, (old(self).issued_of(asset_id) - amount) as Balance)
                    &&& final(self).config == old(self).config
                    &&& final(self).assets@ == old(self).assets@
                    &&& final(self).yield_distributions@ == old(self).yield_distributions@
                    &&& final(self).unclaimed_yield@ == old(self).unclaimed_yield@
                    &&& final(self).asset_status@ == old(self).asset_status@
                    &&& final(self).next_distribution_id@ == old(self).next_distribution_id@
                    &&& final(self).events@.len() == old(self).events@.len() + 2
                    &&& final(self).events@.subrange(0, old(self).events@.len() as int) == old(self).events@
                    &&& final(self).events@[old(self).events@.len() as int] matches RwaEvent::SharesBurned { asset_id: a, from, amount: m }
                        && a == asset_id && from == who && m == amount
                    &&& final(self).events@.last() matches RwaEvent::BurnRequested { asset_id: a, account, amount: m }
                        && a == asset_id && account == who && m == amount
                },
            },
    {
        let who = match ensure_signed(&origin) {
            Ok(w) => w,
            Err(_) => return Err(RwaError::BadOrigin),
        };
        if !self.assets.contains_key(&asset_id) {
            return Err(RwaError::AssetNotFound);
        }
        let bal = self.shares(asset_id, who);
        if bal < amount {
            return Err(RwaError::InsufficientShares);
        }
        let ghost sh0 = self.shareholders;
        proof {
            self.lemma_holding_within_issued(asset_id, who);
            sh0.lemma_keys();
        }
        self.shareholders.insert((asset_id, who), bal - amount);
        let issued = self.issued(asset_id);
        self.total_issued.insert(asset_id, issued.saturating_sub(amount));
        proof {
            assert forall|a: u32| #[trigger] holdings_in(self.shareholders@, a, self.shareholders.keys_seq())
                == if self.total_issued@.contains_key(a) { self.total_issued@[a] as int } else { 0int } by {
                lemma_holdings_insert(sh0@, sh0.keys_seq(), self.shareholders.keys_seq(), (asset_id, who), (bal - amount) as Balance, a);
            }
        }
        self.events.push(RwaEvent::SharesBurned { asset_id, from: who, amount });
        self.events.push(RwaEvent::BurnRequested { asset_id, account: who, amount });
        Ok(())
    }

    /// The error `transfer_shares` reports, if any.
    pub open spec fn transfer_error<K: KycProvider>(&self, origin: Origin, now: BlockNumber, kyc: &K, asset_id: u32, to: AccountId, amount: Balance) -> Option<RwaError> {
        if !(origin is Signed) {
            Some(RwaError::BadOrigin)
        } else if !self.assets@.contains_key(asset_id) {
            Some(RwaError::AssetNotFound)
        } else if self.active_error(asset_id) is Some {
            self.active_error(asset_id)
        } else if !kyc.admits(origin->Signed_0, self.assets@[asset_id].kyc_required, now) {
            Some(RwaError::SenderKycFailed)
        } else if !kyc.admits(to, self.assets@[asset_id].kyc_required, now) {
            Some(RwaError::ReceiverKycFailed)
        } else if self.shares_of(asset_id, origin->Signed_0) < amount {
            Some(RwaError::InsufficientShares)
        } else {
            None
        }
    }

    /// Move `amount` shares between two KYC-qualified holders of an active asset.
    pub fn transfer_shares<K: KycProvider>(&mut self, origin: Origin, now: BlockNumber, kyc: &K, asset_id: u32, to: AccountId, amount: Balance) -> (r: Result<(), RwaError>)
        requires
            old(self).wf(),
            kyc.valid(),
        ensures
            final(self).wf(),
            match old(self).transfer_error(origin, now, kyc, asset_id, to, amount) {
                Some(e) => r == Err::<(), RwaError>(e) && *final(self) == *old(self),
                None => {
                    let from = origin->Signed_0;
                    let mid = old(self).shareholders@.insert((asset_id, from), (old(self).shares_of(asset_id, from) - amount) as Balance);
                    let to_before = if mid.contains_key((asset_id, to)) { mid[(asset_id, to)] } else { 0 };
                    &&& r is Ok
                    &&& final(self).shareholders@ == mid.insert((asset_id, to), (to_before + amount) as Balance)
                    &&& final(self).total_issued@ == old(self).total_issued@
                    &&& final(self).config == old(self).config
                    &&& final(self).assets@ == old(self).assets@
                    &&& final(self).yield_distributions@ == old(self).yield_distributions@
                    &&& final(self).unclaimed_yield@ == old(self).unclaimed_yield@
                    &&& final(self).asset_status@ == old(self).asset_status@
                    &&& final(self).next_distribution_id@ == old(self).next_distribution_id@
                    &&& final(self).events@.len() == old(self).events@.len() + 1
                    &&& final(self).events@.drop_last() == old(self).events@
                    &&& final(self).events@.last() matches RwaEvent::SharesTransferred { asset_id: a, from: f, to: t, amount: m }
                        && a == asset_id && f == from && t == to && m == amount
                },
            },
    {
        let from = match ensure_signed(&origin) {
            Ok(w) => w,
            Err(_) => return Err(RwaError::BadOrigin),
        };
        let kyc_required = match self.assets.get(&asset_id) {
            Some(a) => a.kyc_required,
            None => return Err(RwaError::AssetNotFound),
        };
        match self.ensure_active(asset_id) {
            Ok(()) => {},
            Err(e) => return Err(e),
        }
        if kyc.require_at_least(from, kyc_required, now).is_err() {
            return Err(RwaError::SenderKycFailed);
        }
        if kyc.require_at_least(to, kyc_required, now).is_err() {
            return Err(RwaError::ReceiverKycFailed);
        }
        let bal = self.shares(asset_id, from);
        if bal < amount {
            return Err(RwaError::InsufficientShares);
        }
        let ghost sh0 = self.shareholders;
        proof {
            self.lemma_holding_within_issued(asset_id, from);
            sh0.lemma_keys();
        }
        self.shareholders.insert((asset_id, from), bal - amount);
        let ghost sh1 = self.shareholders;
        proof {
            sh1.lemma_keys();
            lemma_holdings_insert(sh0@, sh0.keys_seq(), sh1.keys_seq(), (asset_id, from), (bal - amount) as Balance, asset_id);
            lemma_holdings_bounds(sh1@, asset_id, sh1.keys_seq());
            if sh1@.contains_key((asset_id, to)) {
                let ks = sh1.keys_seq();
                let i = choose|i: int| 0 <= i < ks.len() && ks[i] == (asset_id, to);
                assert(ks[i].0 == asset_id);
            }
        }
        let to_bal = self.shares(asset_id, to);
        self.shareholders.insert((asset_id, to), to_bal.saturating_add(amount));
        proof {
            assert forall|a: u32| #[trigger] holdings_in(self.shareholders@, a, self.shareholders.keys_seq())
                == if self.total_issued@.contains_key(a) { self.total_issued@[a] as int } else { 0int } by {
                lemma_holdings_insert(sh0@, sh0.keys_seq(), sh1.keys_seq(), (asset_id, from), (bal - amount) as Balance, a);
                lemma_holdings_insert(sh1@, sh1.keys_seq(), self.shareholders.keys_seq(), (asset_id, to), (to_bal + amount) as Balance, a);
            }
        }
        self.events.push(RwaEvent::SharesTransferred { asset_id, from, to, amount });
        Ok(())
    }

    /// Set the status of an asset that is not wound down (root only).
    fn set_status_checked(&mut self, origin: Origin, asset_id: u32, status: RwaStatus) -> (r: Result<(), RwaError>)
        requires
            old(self).wf(),
        ensures
            final(self).wf(),
            origin != Origin::Root ==> r == Err::<(), RwaError>(RwaError::BadOrigin) && *final(self) == *old(self),
            origin == Origin::Root && !old(self).assets@.contains_key(asset_id) ==> r == Err::<(), RwaError>(RwaError::AssetNotFound) && *final(self) == *old(self),
            origin == Origin::Root && old(self).assets@.contains_key(asset_id) && old(self).status_of(asset_id) == RwaStatus::WoundDown
                ==> r == Err::<(), RwaError>(RwaError::AssetWoundDown) && *final(self) == *old(self),
            origin == Origin::Root && old(self).assets@.contains_key(asset_id) && old(self).status_of(asset_id) != RwaStatus::WoundDown ==> {
                &&& r is Ok
                &&& final(self).asset_status@ == old(self).asset_status@.insert(asset_id, status)
                &&& final(self).events@ == old(self).events@
                &&& final(self).config == old(self).config
                &&& final(self).assets@ == old(self).assets@
                &&& final(self).shareholders@ == old(self).shareholders@
                &&& final(self).total_issued@ == old(self).total_issued@
                &&& final(self).yield_distributions@ == old(self).yield_distributions@
                &&& final(self).unclaimed_yield@ == old(self).unclaimed_yield@
                &&& final(self).next_distribution_id@ == old(self).next_distribution_id@
            },
    {
        if ensure_root(&origin).is_err() {
            return Err(RwaError::BadOrigin);
        }
        if !self.assets.contains_key(&asset_id) {
            return Err(RwaError::AssetNotFound);
        }
        if self.status(asset_id) == RwaStatus::WoundDown {
            return Err(RwaError::AssetWoundDown);
        }
        self.asset_status.insert(asset_id, status);
        Ok(())
    }

    /// Freeze an asset (root only): minting and transfers stop, claims go on.
    pub fn freeze(&mut self, origin: Origin, asset_id: u32) -> (r: Result<(), RwaError>)
        requires
            old(self).wf(),
        ensures
            final(self).wf(),
            origin != Origin::Root ==> r == Err::<(), RwaError>(RwaError::BadOrigin) && *final(self) == *old(self),
            origin == Origin::Root && !old(self).assets@.contains_key(asset_id) ==> r == Err::<(), RwaError>(RwaError::AssetNotFound) && *final(self) == *old(self),
            origin == Origin::Root && old(self).assets@.contains_key(asset_id) && old(self).status_of(asset_id) == RwaStatus::WoundDown
                ==> r == Err::<(), RwaError>(RwaError::AssetWoundDown) && *final(self) == *old(self),
            origin == Origin::Root && old(self).assets@.contains_key(asset_id) && old(self).status_of(asset_id) != RwaStatus::WoundDown ==> {
                &&& r is Ok
                &&& final(self).asset_status@ == old(self).asset_status@.insert(asset_id, RwaStatus::Frozen)
                &&& final(self).same_tables_but_status(old(self))
                &&& final(self).events@.len() == old(self).events@.len() + 1
                &&& final(self).events@.drop_last() == old(self).events@
                &&& final(self).events@.last() matches RwaEvent::AssetFrozen { asset_id: a } && a == asset_id
            },
    {
        match self.set_status_checked(origin, asset_id, RwaStatus::Frozen) {
            Ok(()) => {},
            Err(e) => return Err(e),
        }
        self.events.push(RwaEvent::AssetFrozen { asset_id });
        Ok(())
    }

    /// Restore a frozen asset to active (root only).
    pub fn unfreeze(&mut self, origin: Origin, asset_id: u32) -> (r: Result<(), RwaError>)
        requires
            old(self).wf(),
        ensures
            final(self).wf(),
            origin != Origin::Root ==> r == Err::<(), RwaError>(RwaError::BadOrigin) && *final(self) == *old(self),
            origin == Origin::Root && !old(self).assets@.contains_key(asset_id) ==> r == Err::<(), RwaError>(RwaError::AssetNotFound) && *final(self) == *old(self),
            origin == Origin::Root && old(self).assets@.contains_key(asset_id) && old(self).status_of(asset_id) == RwaStatus::WoundDown
                ==> r == Err::<(), RwaError>(RwaError::AssetWoundDown) && *final(self) == *old(self),
            origin == Origin::Root && old(self).assets@.contains_key(asset_id) && old(self).status_of(asset_id) != RwaStatus::WoundDown ==> {
                &&& r is Ok
                &&& final(self).asset_status@ == old(self).asset_status@.insert(asset_id, RwaStatus::Active)
                &&& final(self).same_tables_but_status(old(self))
                &&& final(self).events@.len() == old(self).events@.len() + 1
                &&& final(self).events@.drop_last() == old(self).events@
                &&& final(self).events@.last() matches RwaEvent::AssetUnfrozen { asset_id: a } && a == asset_id
            },
    {
        match self.set_status_checked(origin, asset_id, RwaStatus::Active) {
            Ok(()) => {},
            Err(e) => return Err(e),
        }
        self.events.push(RwaEvent::AssetUnfrozen { asset_id });
        Ok(())
    }

    /// Permanently wind an asset down (root only), reporting its issued shares.
    pub fn wind_down(&mut self, origin: Origin, asset_id: u32) -> (r: Result<(), RwaError>)
        requires
            old(self).wf(),
        ensures
            final(self).wf(),
            origin != Origin::Root ==> r == Err::<(), RwaError>(RwaError::BadOrigin) && *final(self) == *old(self),
            origin == Origin::Root && !old(self).assets@.contains_key(asset_id) ==> r == Err::<(), RwaError>(RwaError::AssetNotFound) && *final(self) == *old(self),
            origin == Origin::Root && old(self).assets@.contains_key(asset_id) ==> {
                &&& r is Ok
                &&& final(self).asset_status@ == old(self).asset_status@.insert(asset_id, RwaStatus::WoundDown)
                &&& final(self).same_tables_but_status(old(self))
                &&& final(self).events@.len() == old(self).events@.len() + 1
                &&& final(self).events@.drop_last() == old(self).events@
                &&& final(self).events@.last() matches RwaEvent::AssetWoundDown { asset_id: a, final_nav }
                    && a == asset_id && final_nav == old(self).issued_of(asset_id)
            },
    {
        if ensure_root(&origin).is_err() {
            return Err(RwaError::BadOrigin);
        }
        if !self.assets.contains_key(&asset_id) {
            return Err(RwaError::AssetNotFound);
        }
        self.asset_status.insert(asset_id, RwaStatus::WoundDown);
        let final_nav = self.issued(asset_id);
        self.events.push(RwaEvent::AssetWoundDown { asset_id, final_nav });
        Ok(())
    }

    /// Everything but the statuses is as in `other` (events aside).
    pub open spec fn same_tables_but_status(&self, other: &Self) -> bool {
        &&& self.config == other.config
        &&& self.assets@ == other.assets@
        &&& self.shareholders@ == other.shareholders@
        &&& self.total_issued@ == other.total_issued@
        &&& self.yield_distributions@ == other.yield_distributions@
        &&& self.unclaimed_yield@ == other.unclaimed_yield@
        &&& self.next_distribution_id@ == other.next_distribution_id@
    }

    /// The error `claim_yield` reports before paying, if any.
    pub open spec fn claim_error(&self, origin: Origin, asset_id: u32, dist: u64) -> Option<RwaError> {
        if !(origin is Signed) {
            Some(RwaError::BadOrigin)
        } else if !self.yield_distributions@.contains_key((asset_id, dist)) {
            Some(RwaError::DistributionNotFound)
        } else if self.unclaimed_of(asset_id, dist, origin->Signed_0) == 0 {
            Some(RwaError::NothingToClaim)
        } else {
            None
        }
    }

    /// Pay the caller its unclaimed yield of one distribution from the pot.
    pub fn claim_yield(&mut self, ledger: &mut Ledger, origin: Origin, asset_id: u32, dist: u64) -> (r: Result<(), RwaError>)
        requires
            old(self).wf(),
            old(ledger).wf(),
        ensures
            final(self).wf(),
            final(ledger).wf(),
            final(ledger).ed() == old(ledger).ed(),
            match old(self).claim_error(origin, asset_id, dist) {
                Some(e) => r == Err::<(), RwaError>(e) && *final(self) == *old(self) && *final(ledger) == *old(ledger),
                None => {
                    let who = origin->Signed_0;
                    let amount = old(self).unclaimed_of(asset_id, dist, who);
                    let d = old(self).yield_distributions@[(asset_id, dist)];
                    if !can_transfer(old(ledger)@, old(ledger).ed(), Self::pot_spec(), who, amount, false) {
                        &&& r == Err::<(), RwaError>(RwaError::Balance(transfer_error(old(ledger)@, old(ledger).ed(), Self::pot_spec(), who, amount, false)))
                        &&& *final(self) == *old(self) && *final(ledger) == *old(ledger)
                    } else {
                        &&& r is Ok
                        &&& final(ledger)@ == apply_transfer(old(ledger)@, old(ledger).ed(), Self::pot_spec(), who, amount)
                        &&& final(self).unclaimed_yield@ == old(self).unclaimed_yield@.remove((asset_id, dist, who))
                        &&& final(self).yield_distributions@ == old(self).yield_distributions@.insert((asset_id, dist),
                            YieldDistribution { remaining_unclaimed: sat_sub(d.remaining_unclaimed as int, amount as int) as Balance, ..d })
                        &&& final(self).config == old(self).config
                        &&& final(self).assets@ == old(self).assets@
                        &&& final(self).shareholders@ == old(self).shareholders@
                        &&& final(self).total_issued@ == old(self).total_issued@
                        &&& final(self).asset_status@ == old(self).asset_status@
                        &&& final(self).next_distribution_id@ == old(self).next_distribution_id@
                        &&& final(self).events@.len() == old(self).events@.len() + 1
                        &&& final(self).events@.drop_last() == old(self).events@
                        &&& final(self).events@.last() matches RwaEvent::YieldClaimed { asset_id: a, distribution_id, account, amount: m }
                            && a == asset_id && distribution_id == dist && account == who && m == amount
                    }
                },
            },
    {
        let who = match ensure_signed(&origin) {
            Ok(w) => w,
            Err(_) => return Err(RwaError::BadOrigin),
        };
        let d = match self.yield_distributions.get(&(asset_id, dist)) {
            Some(d) => *d,
            None => return Err(RwaError::DistributionNotFound),
        };
        let amount = self.unclaimed(asset_id, dist, who);
        if amount == 0 {
            return Err(RwaError::NothingToClaim);
        }
        let pot = Self::account_id();
        match ledger.transfer(pot, who, amount, false) {
            Ok(()) => {},
            Err(e) => return Err(RwaError::Balance(e)),
        }
        let _ = self.unclaimed_yield.remove(&(asset_id, dist, who));
        self.yield_distributions.insert((asset_id, dist), YieldDistribution {
            remaining_unclaimed: d.remaining_unclaimed.saturating_sub(amount),
            ..d
        });
        self.events.push(RwaEvent::YieldClaimed { asset_id, distribution_id: dist, account: who, amount });
        Ok(())
    }

    /// Number of shareholder rows of `asset` (zero holdings included).
    pub open spec fn holder_rows(&self, asset: u32) -> nat {
        self.shareholders.keys_seq().filter(holder_of(asset)).len()
    }

    /// The unclaimed-yield rows a distribution writes: the pro-rata share of every holder
    /// whose share is not zero.
    pub open spec fn yield_rows(&self, asset: u32, dist: u64, total: Balance, issued: Balance) -> Map<(u32, u64, AccountId), Balance> {
        Map::new(
            |k: (u32, u64, AccountId)| k.0 == asset && k.1 == dist && self.shareholders@.contains_key((asset, k.2))
                && pro_rata(total, self.shareholders@[(asset, k.2)], issued) > 0,
            |k: (u32, u64, AccountId)| pro_rata(total, self.shareholders@[(asset, k.2)], issued),
        )
    }

    /// The error `distribute_yield` reports before moving funds, if any.
    pub open spec fn distribute_error(&self, origin: Origin, asset_id: u32) -> Option<RwaError> {
        if !(origin is Signed) {
            Some(RwaError::BadOrigin)
        } else if !self.assets@.contains_key(asset_id) {
            Some(RwaError::AssetNotFound)
        } else if self.assets@[asset_id].manager != origin->Signed_0 {
            Some(RwaError::ManagerOnly)
        } else if self.status_of(asset_id) == RwaStatus::WoundDown {
            Some(RwaError::AssetWoundDown)
        } else if self.issued_of(asset_id) == 0 {
            Some(RwaError::NothingToClaim)
        } else if self.holder_rows(asset_id) > self.config.max_shareholders_per_distribution {
            Some(RwaError::TooManyShareholders)
        } else {
            None
        }
    }

    fn count_holder_rows(&self, asset_id: u32) -> (n: usize)
        requires
            self.wf(),
        ensures
            n == self.holder_rows(asset_id),
    {
        let ghost keys = self.shareholders.keys_seq();
        let ghost pred = holder_of(asset_id);
        let len = self.shareholders.len();
        let mut n: usize = 0;
        let mut i: usize = 0;
        while i < len
            invariant
                self.wf(),
                len == keys.len(),
                keys == self.shareholders.keys_seq(),
                pred == holder_of(asset_id),
                0 <= i <= len,
                n == keys.subrange(0, i as int).filter(pred).len(),
                n <= i,
            decreases len - i,
        {
            let k = *self.shareholders.key_at(i);
            proof {
                reveal(Seq::filter);
                assert(keys.subrange(0, i + 1).drop_last() =~= keys.subrange(0, i as int));
                assert(keys[i as int] == k);
                assert(keys.subrange(0, i + 1).last() == k);
                assert(pred(k) == (k.0 == asset_id));
                assert(keys.subrange(0, i + 1).filter(pred) == (if pred(k) {
                    keys.subrange(0, i as int).filter(pred).push(k)
                } else {
                    keys.subrange(0, i as int).filter(pred)
                }));
            }
            if k.0 == asset_id {
                n = n + 1;
            }
            i = i + 1;
        }
        assert(keys.subrange(0, len as int) =~= keys);
        n
    }

    /// Distribute `total_amount` as yield of an asset (its manager only, unless wound down):
    /// the amount moves from the manager to the pot, and every holder is credited
    /// `total_amount * holding / issued` (rounded down) under a fresh distribution id.
    #[verifier::rlimit(50)]
    pub fn distribute_yield(&mut self, ledger: &mut Ledger, origin: Origin, now: BlockNumber, asset_id: u32, total_amount: Balance, currency: Currency, description_hash: Hash32) -> (r: Result<(), RwaError>)
        requires
            old(self).wf(),
            old(ledger).wf(),
        ensures
            final(self).wf(),
            final(ledger).wf(),
            final(ledger).ed() == old(ledger).ed(),
            match old(self).distribute_error(origin, asset_id) {
                Some(e) => r == Err::<(), RwaError>(e) && *final(self) == *old(self) && *final(ledger) == *old(ledger),
                None => {
                    let who = origin->Signed_0;
                    let dist = old(self).next_dist_of(asset_id);
                    let issued = old(self).issued_of(asset_id);
                    if !can_transfer(old(ledger)@, old(ledger).ed(), who, Self::pot_spec(), total_amount, false) {
                        &&& r == Err::<(), RwaError>(RwaError::Balance(transfer_error(old(ledger)@, old(ledger).ed(), who, Self::pot_spec(), total_amount, false)))
                        &&& *final(self) == *old(self) && *final(ledger) == *old(ledger)
                    } else {
                        &&& r is Ok
                        &&& final(ledger)@ == apply_transfer(old(ledger)@, old(ledger).ed(), who, Self::pot_spec(), total_amount)
                        &&& final(self).next_distribution_id@ == old(self).next_distribution_id@.insert(asset_id,
                            crate::common::sat_add(dist as int, 1, u64::MAX as int) as u64)
                        &&& final(self).unclaimed_yield@ == old(self).unclaimed_yield@.union_prefer_right(
                            old(self).yield_rows(asset_id, dist, total_amount, issued))
                        &&& final(self).yield_distributions@ == old(self).yield_distributions@.insert((asset_id, dist), YieldDistribution {
                            total_amount, currency, distributed_at: now, snapshot_at: now, description_hash,
                            remaining_unclaimed: total_amount,
                        })
                        &&& final(self).config == old(self).config
                        &&& final(self).assets@ == old(self).assets@
                        &&& final(self).shareholders@ == old(self).shareholders@
                        &&& final(self).total_issued@ == old(self).total_issued@
                        &&& final(self).asset_status@ == old(self).asset_status@
                        &&& final(self).events@.len() == old(self).events@.len() + 1
                        &&& final(self).events@.drop_last() == old(self).events@
                        &&& final(self).events@.last() matches RwaEvent::YieldDistributed { asset_id: a, distribution_id, total_amount: t, snapshot_at }
                            && a == asset_id && distribution_id == dist && t == total_amount && snapshot_at == now
                    }
                },
            },
    {
        let who = match ensure_signed(&origin) {
            Ok(w) => w,
            Err(_) => return Err(RwaError::BadOrigin),
        };
        let manager = match self.assets.get(&asset_id) {
            Some(a) => a.manager,
            None => return Err(RwaError::AssetNotFound),
        };
        if manager != who {
            return Err(RwaError::ManagerOnly);
        }
        if self.status(asset_id) == RwaStatus::WoundDown {
            return Err(RwaError::AssetWoundDown);
        }
        let issued = self.issued(asset_id);
        if issued == 0 {
            return Err(RwaError::NothingToClaim);
        }
        let count = self.count_holder_rows(asset_id);
        if count > self.config.max_shareholders_per_distribution as usize {
            return Err(RwaError::TooManyShareholders);
        }
        let pot = Self::account_id();
        match ledger.transfer(who, pot, total_amount, false) {
            Ok(()) => {},
            Err(e) => return Err(RwaError::Balance(e)),
        }
        let dist = self.next_distribution(asset_id);
        self.next_distribution_id.insert(asset_id, dist.saturating_add(1));

        let ghost rows = old(self).yield_rows(asset_id, dist, total_amount, issued);
        let ghost entries = self.shareholders.entries_seq();
        proof {
            self.shareholders.lemma_view();
        }
        let len = self.shareholders.len();
        let mut i: usize = 0;
        while i < len
            invariant
                self.wf(),
                self.shareholders@ == old(self).shareholders@,
                entries == self.shareholders.entries_seq(),
                len == entries.len(),
                0 <= i <= len,
                issued > 0,
                issued == old(self).issued_of(asset_id),
                rows == old(self).yield_rows(asset_id, dist, total_amount, issued),
                forall|j: int| 0 <= j < entries.len() ==> old(self).shareholders@.contains_key(#[trigger] entries[j].0)
                    && old(self).shareholders@[entries[j].0] == entries[j].1,
                forall|j: int, l: int| 0 <= j < entries.len() && 0 <= l < entries.len() && j != l ==> #[trigger] entries[j].0 != #[trigger] entries[l].0,
                forall|h: (u32, AccountId)| #[trigger] old(self).shareholders@.contains_key(h) ==> exists|j: int| 0 <= j < entries.len() && entries[j].0 == h,
                self.unclaimed_yield@ == old(self).unclaimed_yield@.union_prefer_right(rows.restrict(
                    Set::new(|k: (u32, u64, AccountId)| exists|j: int| 0 <= j < i && entries[j].0 == (k.0, k.2)))),
                dist == old(self).next_dist_of(asset_id),
                self.next_distribution_id@ == old(self).next_distribution_id@.insert(asset_id,
                    crate::common::sat_add(dist as int, 1, u64::MAX as int) as u64),
                self.yield_distributions@ == old(self).yield_distributions@,
                self.config == old(self).config,
                self.assets@ == old(self).assets@,
                self.total_issued@ == old(self).total_issued@,
                self.asset_status@ == old(self).asset_status@,
                self.events@ == old(self).events@,
            decreases len - i,
        {
            let key = *self.shareholders.key_at(i);
            let hbal = *self.shareholders.value_at(i);
            let ghost before = self.unclaimed_yield@;
            if key.0 == asset_id {
                let product = match total_amount.checked_mul(hbal) {
                    Some(p) => p,
                    None => u128::MAX,
                };
                let share = product / issued;
                if share != 0 {
                    self.unclaimed_yield.insert((asset_id, dist, key.1), share);
                }
            }
            proof {
                let old_set = Set::new(|k: (u32, u64, AccountId)| exists|j: int| 0 <= j < i && entries[j].0 == (k.0, k.2));
                let new_set = Set::new(|k: (u32, u64, AccountId)| exists|j: int| 0 <= j < i + 1 && entries[j].0 == (k.0, k.2));
                assert(entries[i as int].0 == key && entries[i as int].1 == hbal);
                assert forall|k: (u32, u64, AccountId)| new_set.contains(k) <==> old_set.contains(k) || (k.0, k.2) == key by {
                    if new_set.contains(k) && !old_set.contains(k) {
                        let j = choose|j: int| 0 <= j < i + 1 && entries[j].0 == (k.0, k.2);
                        assert(j == i);
                    }
                    if (k.0, k.2) == key {
                        assert(entries[i as int].0 == (k.0, k.2));
                    }
                    if old_set.contains(k) {
                        let j = choose|j: int| 0 <= j < i && entries[j].0 == (k.0, k.2);
                        assert(0 <= j < i + 1 && entries[j].0 == (k.0, k.2));
                    }
                }
                assert(old(self).shareholders@[key] == hbal);
                assert(self.unclaimed_yield@ =~= old(self).unclaimed_yield@.union_prefer_right(rows.restrict(new_set)));
            }
            i = i + 1;
        }
        proof {
            let all = Set::new(|k: (u32, u64, AccountId)| exists|j: int| 0 <= j < len && entries[j].0 == (k.0, k.2));
            assert(rows.restrict(all) =~= rows) by {
                assert forall|k: (u32, u64, AccountId)| rows.contains_key(k) implies all.contains(k) by {
                    assert(old(self).shareholders@.contains_key((k.0, k.2)));
                }
            }
        }
        self.yield_distributions.insert((asset_id, dist), YieldDistribution {
            total_amount,
            currency,
            distributed_at: now,
            snapshot_at: now,
            description_hash,
            remaining_unclaimed: total_amount,
        });
        self.events.push(RwaEvent::YieldDistributed { asset_id, distribution_id: dist, total_amount, snapshot_at: now });
        Ok(())
    }

    /// Whether a distribution key of `asset` still owes `who` yield.
    pub open spec fn owes(&self, asset: u32, who: AccountId) -> spec_fn((u32, u64)) -> bool {
        |k: (u32, u64)| k.0 == asset && self.unclaimed_of(asset, k.1, who) > 0
    }

    /// The distributions of `asset` that owe `who` yield, in table order.
    pub open spec fn owed_keys(&self, asset: u32, who: AccountId) -> Seq<(u32, u64)> {
        self.yield_distributions.keys_seq().filter(self.owes(asset, who))
    }

    /// The first `max_distributions_per_claim` distributions of `asset` that owe `who`
    /// yield in table order, each with what it owes: one choice `claim_all_yield` may make.
    pub open spec fn claims_of(&self, asset: u32, who: AccountId) -> Seq<(u64, Balance)> {
        let owed = self.owed_keys(asset, who);
        let n = if owed.len() <= self.config.max_distributions_per_claim {
            owed.len() as int
        } else {
            self.config.max_distributions_per_claim as int
        };
        owed.take(n).map_values(|k: (u32, u64)| (k.1, self.unclaimed_of(asset, k.1, who)))
    }

    /// The error of the table-order sweep before paying, if any.
    pub open spec fn in_order_error(&self, origin: Origin, asset_id: u32) -> Option<RwaError> {
        if !(origin is Signed) {
            Some(RwaError::BadOrigin)
        } else if !self.assets@.contains_key(asset_id) {
            Some(RwaError::AssetNotFound)
        } else if claims_total(self.claims_of(asset_id, origin->Signed_0)) == 0 {
            Some(RwaError::NothingToClaim)
        } else {
            None
        }
    }

    /// The error `claim_all_yield` reports before paying, if any: nothing is claimed when
    /// no distribution of the asset owes the caller, or when the per-claim limit is zero.
    pub open spec fn claim_all_error(&self, origin: Origin, asset_id: u32) -> Option<RwaError> {
        if !(origin is Signed) {
            Some(RwaError::BadOrigin)
        } else if !self.assets@.contains_key(asset_id) {
            Some(RwaError::AssetNotFound)
        } else if self.config.max_distributions_per_claim == 0 || self.owed_keys(asset_id, origin->Signed_0).len() == 0 {
            Some(RwaError::NothingToClaim)
        } else {
            None
        }
    }

    /// `c` is a batch `claim_all_yield` may clear for `who`: `max_distributions_per_claim`
    /// distinct distributions of `asset` that owe `who` yield (all of them when fewer owe),
    /// in no particular order, each with the amount it owes.
    pub open spec fn valid_claims(&self, asset: u32, who: AccountId, c: Seq<(u64, Balance)>) -> bool {
        &&& is_selection(claim_keys(asset, c), self.owed_keys(asset, who),
            self.config.max_distributions_per_claim as int)
        &&& forall|i: int| 0 <= i < c.len() ==> (#[trigger] c[i]).1 == self.unclaimed_of(asset, c[i].0, who)
    }

    /// The effect of clearing the batch `c` for `who`: one transfer of its total (saturating)
    /// from the pot, refused with nothing changed when the ledger refuses it; otherwise the
    /// batch's unclaimed rows removed, each distribution's remaining amount lowered, and one
    /// `YieldClaimed` event per row, in the batch's order.
    pub open spec fn claim_all_outcome(old_s: &Self, new_s: &Self, old_l: &Ledger, new_l: &Ledger, asset_id: u32, who: AccountId, c: Seq<(u64, Balance)>, r: Result<(), RwaError>) -> bool {
        let total = crate::common::sat_add(claims_total(c), 0, u128::MAX as int) as Balance;
        if !can_transfer(old_l@, old_l.ed(), Self::pot_spec(), who, total, false) {
            &&& r == Err::<(), RwaError>(RwaError::Balance(transfer_error(old_l@, old_l.ed(), Self::pot_spec(), who, total, false)))
            &&& *new_s == *old_s && *new_l == *old_l
        } else {
            &&& r is Ok
            &&& new_l@ == apply_transfer(old_l@, old_l.ed(), Self::pot_spec(), who, total)
            &&& new_s.unclaimed_yield@ == without_claims(old_s.unclaimed_yield@, asset_id, who, c)
            &&& new_s.yield_distributions@ == after_claims(old_s.yield_distributions@, asset_id, c)
            &&& new_s.config == old_s.config
            &&& new_s.assets@ == old_s.assets@
            &&& new_s.shareholders@ == old_s.shareholders@
            &&& new_s.total_issued@ == old_s.total_issued@
            &&& new_s.asset_status@ == old_s.asset_status@
            &&& new_s.next_distribution_id@ == old_s.next_distribution_id@
            &&& new_s.events@ == old_s.events@ + claimed_events(asset_id, who, c)
        }
    }

    /// The table-order batch is a valid batch, and it is empty (so its total is zero)
    /// exactly when `claim_all_error` reports `NothingToClaim`.
    proof fn lemma_claims_of_valid(&self, asset: u32, who: AccountId)
        requires
            self.wf(),
        ensures
            self.valid_claims(asset, who, self.claims_of(asset, who)),
            (claims_total(self.claims_of(asset, who)) == 0) == (self.config.max_distributions_per_claim == 0
                || self.owed_keys(asset, who).len() == 0),
    {
        let owed = self.owed_keys(asset, who);
        let pred = self.owes(asset, who);
        let lim = self.config.max_distributions_per_claim as int;
        let n = if owed.len() <= lim { owed.len() as int } else { lim };
        self.yield_distributions.lemma_keys();
        lemma_filter_no_duplicates(self.yield_distributions.keys_seq(), pred);
        lemma_prefix_is_selection(owed, lim);
        let c = self.claims_of(asset, who);
        let t = owed.take(n);
        assert forall|i: int| 0 <= i < t.len() implies pred(#[trigger] t[i]) by {
            assert(t[i] == owed[i]);
            self.yield_distributions.keys_seq().lemma_filter_pred(pred, i);
        }
        assert(claim_keys(asset, c) =~= t) by {
            assert forall|i: int| 0 <= i < t.len() implies #[trigger] claim_keys(asset, c)[i] == t[i] by {
                assert(pred(t[i]));
            }
        }
        Self::lemma_positive_total(c);
        assert forall|i: int| 0 <= i < c.len() implies (#[trigger] c[i]).1 > 0 by {
            assert(pred(t[i]));
        }
    }

    /// A batch of positive amounts totals zero exactly when it is empty.
    proof fn lemma_positive_total(c: Seq<(u64, Balance)>)
        ensures
            claims_total(c) >= 0,
            (forall|i: int| 0 <= i < c.len() ==> (#[trigger] c[i]).1 > 0) ==> ((claims_total(c) == 0) == (c.len() == 0)),
        decreases c.len(),
    {
        if c.len() > 0 {
            Self::lemma_positive_total(c.drop_last());
            if forall|i: int| 0 <= i < c.len() ==> (#[trigger] c[i]).1 > 0 {
                assert(c[c.len() - 1].1 > 0);
            }
        }
    }

    proof fn lemma_claims_step(c: Seq<(u64, Balance)>, p: (u64, Balance), total: Balance)
        requires
            total == crate::common::sat_add(claims_total(c), 0, u128::MAX as int),
            claims_total(c) >= 0,
        ensures
            claims_total(c.push(p)) == claims_total(c) + p.1,
            crate::common::sat_add(total as int, p.1 as int, u128::MAX as int)
                == crate::common::sat_add(claims_total(c.push(p)), 0, u128::MAX as int),
    {
        assert(c.push(p).drop_last() =~= c);
    }

    /// Clear the table-order batch `claims_of` for the caller.
    #[verifier::rlimit(50)]
    fn claim_all_in_order(&mut self, ledger: &mut Ledger, origin: Origin, asset_id: u32) -> (r: Result<(), RwaError>)
        requires
            old(self).wf(),
            old(ledger).wf(),
        ensures
            final(self).wf(),
            final(ledger).wf(),
            final(ledger).ed() == old(ledger).ed(),
            match old(self).in_order_error(origin, asset_id) {
                Some(e) => r == Err::<(), RwaError>(e) && *final(self) == *old(self) && *final(ledger) == *old(ledger),
                None => {
                    let who = origin->Signed_0;
                    let c = old(self).claims_of(asset_id, who);
                    let total = crate::common::sat_add(claims_total(c), 0, u128::MAX as int) as Balance;
                    if !can_transfer(old(ledger)@, old(ledger).ed(), Self::pot_spec(), who, total, false) {
                        &&& r == Err::<(), RwaError>(RwaError::Balance(transfer_error(old(ledger)@, old(ledger).ed(), Self::pot_spec(), who, total, false)))
                        &&& *final(self) == *old(self) && *final(ledger) == *old(ledger)
                    } else {
                        &&& r is Ok
                        &&& final(ledger)@ == apply_transfer(old(ledger)@, old(ledger).ed(), Self::pot_spec(), who, total)
                        &&& final(self).unclaimed_yield@ == without_claims(old(self).unclaimed_yield@, asset_id, who, c)
                        &&& final(self).yield_distributions@ == after_claims(old(self).yield_distributions@, asset_id, c)
                        &&& final(self).config == old(self).config
                        &&& final(self).assets@ == old(self).assets@
                        &&& final(self).shareholders@ == old(self).shareholders@
                        &&& final(self).total_issued@ == old(self).total_issued@
                        &&& final(self).asset_status@ == old(self).asset_status@
                        &&& final(self).next_distribution_id@ == old(self).next_distribution_id@
                        &&& final(self).events@ == old(self).events@ + claimed_events(asset_id, who, c)
                    }
                },
            },
    {
        let who = match ensure_signed(&origin) {
            Ok(w) => w,
            Err(_) => return Err(RwaError::BadOrigin),
        };
        if !self.assets.contains_key(&asset_id) {
            return Err(RwaError::AssetNotFound);
        }
        let limit = self.config.max_distributions_per_claim;
        let ghost keys = self.yield_distributions.keys_seq();
        let ghost pred = self.owes(asset_id, who);
        let ghost f = |k: (u32, u64)| (k.1, self.unclaimed_of(asset_id, k.1, who));
        let len = self.yield_distributions.len();
        let mut cleared: Vec<(u64, Balance)> = Vec::new();
        let mut total: Balance = 0;
        let mut i: usize = 0;
        while i < len && cleared.len() < limit as usize
            invariant
                self.wf(),
                *self == *old(self),
                keys == self.yield_distributions.keys_seq(),
                pred == self.owes(asset_id, who),
                f == (|k: (u32, u64)| (k.1, self.unclaimed_of(asset_id, k.1, who))),
                len == keys.len(),
                limit == self.config.max_distributions_per_claim,
                0 <= i <= len,
                cleared@ == keys.take(i as int).filter(pred).map_values(f),
                cleared@.len() <= limit,
                total == crate::common::sat_add(claims_total(cleared@), 0, u128::MAX as int),
                claims_total(cleared@) >= 0,
            decreases len - i,
        {
            let key = *self.yield_distributions.key_at(i);
            let amount = self.unclaimed(asset_id, key.1, who);
            proof {
                broadcast use Seq::lemma_filter_push;
                assert(keys[i as int] == key);
                assert(keys.take(i + 1) =~= keys.take(i as int).push(key));
                assert(pred(key) == (key.0 == asset_id && amount > 0));
            }
            if key.0 == asset_id && amount != 0 {
                proof {
                    Self::lemma_claims_step(cleared@, (key.1, amount), total);
                    assert(keys.take(i as int).filter(pred).push(key).map_values(f)
                        =~= keys.take(i as int).filter(pred).map_values(f).push(f(key)));
                }
                cleared.push((key.1, amount));
                total = total.saturating_add(amount);
            }
            i = i + 1;
        }
        proof {
            let owed = keys.filter(pred);
            let pre = keys.take(i as int).filter(pred);
            assert(owed == self.owed_keys(asset_id, who));
            if cleared@.len() < limit {
                assert(keys.take(i as int) =~= keys);
                assert(owed.take(owed.len() as int) =~= owed);
            } else {
                keys.take(i as int).lemma_filter_monotone(keys, pred);
                assert(pre =~= owed.take(pre.len() as int));
            }
            assert(cleared@ =~= self.claims_of(asset_id, who));
        }
        if total == 0 {
            return Err(RwaError::NothingToClaim);
        }
        let pot = Self::account_id();
        match ledger.transfer(pot, who, total, false) {
            Ok(()) => {},
            Err(e) => return Err(RwaError::Balance(e)),
        }
        let ghost c = cleared@;
        let mut j: usize = 0;
        while j < cleared.len()
            invariant
                self.wf(),
                cleared@ == c,
                0 <= j <= c.len(),
                self.unclaimed_yield@ == without_claims(old(self).unclaimed_yield@, asset_id, who, c.take(j as int)),
                self.yield_distributions@ == after_claims(old(self).yield_distributions@, asset_id, c.take(j as int)),
                self.events@ == old(self).events@ + claimed_events(asset_id, who, c.take(j as int)),
                self.config == old(self).config,
                self.assets@ == old(self).assets@,
                self.shareholders@ == old(self).shareholders@,
                self.total_issued@ == old(self).total_issued@,
                self.asset_status@ == old(self).asset_status@,
                self.next_distribution_id@ == old(self).next_distribution_id@,
            decreases c.len() - j,
        {
            let (d, amount) = cleared[j];
            proof {
                assert(c.take(j + 1).drop_last() =~= c.take(j as int));
                assert(c.take(j + 1).last() == (d, amount));
                assert(claimed_events(asset_id, who, c.take(j + 1)) =~= claimed_events(asset_id, who, c.take(j as int)).push(
                    RwaEvent::YieldClaimed { asset_id, distribution_id: d, account: who, amount }));
            }
            let _ = self.unclaimed_yield.remove(&(asset_id, d, who));
            let cur = match self.yield_distributions.get(&(asset_id, d)) {
                Some(x) => Some(*x),
                None => None,
            };
            if let Some(x) = cur {
                self.yield_distributions.insert((asset_id, d), YieldDistribution {
                    remaining_unclaimed: x.remaining_unclaimed.saturating_sub(amount),
                    ..x
                });
            }
            self.events.push(RwaEvent::YieldClaimed { asset_id, distribution_id: d, account: who, amount });
            j = j + 1;
        }
        proof {
            assert(c.take(c.len() as int) =~= c);
        }
        Ok(())
    }

    /// Pay the caller, in one transfer from the pot, its unclaimed yield of up to
    /// `max_distributions_per_claim` distributions of an asset that owe it anything (all of
    /// them when fewer owe; which ones, when more owe, is left open); the total saturates
    /// at the largest balance.
    pub fn claim_all_yield(&mut self, ledger: &mut Ledger, origin: Origin, asset_id: u32) -> (r: Result<(), RwaError>)
        requires
            old(self).wf(),
            old(ledger).wf(),
        ensures
            final(self).wf(),
            final(ledger).wf(),
            final(ledger).ed() == old(ledger).ed(),
            match old(self).claim_all_error(origin, asset_id) {
                Some(e) => r == Err::<(), RwaError>(e) && *final(self) == *old(self) && *final(ledger) == *old(ledger),
                None => exists|c: Seq<(u64, Balance)>| old(self).valid_claims(asset_id, origin->Signed_0, c)
                    && #[trigger] Self::claim_all_outcome(old(self), final(self), old(ledger), final(ledger), asset_id,
                        origin->Signed_0, c, r),
            },
    {
        proof {
            if origin is Signed {
                old(self).lemma_claims_of_valid(asset_id, origin->Signed_0);
            }
        }
        let r = self.claim_all_in_order(ledger, origin, asset_id);
        proof {
            if old(self).claim_all_error(origin, asset_id) is None {
                assert(Self::claim_all_outcome(old(self), self, old(ledger), ledger, asset_id, origin->Signed_0,
                    old(self).claims_of(asset_id, origin->Signed_0), r));
            }
        }
        r
    }
}

/// A distribution never promises more than it collects: the pro-rata amounts of a total
/// over an asset's issued shares, summed over all its holders, are at most the total.
pub proof fn lemma_payouts_within_total(s: Rwa, asset: u32, total: Balance)
    requires
        s.wf(),
        s.issued_of(asset) > 0,
    ensures
        payouts_in(s.shareholders@, asset, s.shareholders.keys_seq(), total, s.issued_of(asset)) <= total,
{
    let i = s.issued_of(asset);
    let p = payouts_in(s.shareholders@, asset, s.shareholders.keys_seq(), total, i);
    lemma_payouts_scaled(s.shareholders@, asset, s.shareholders.keys_seq(), total, i);
    assert(holdings_in(s.shareholders@, asset, s.shareholders.keys_seq()) == i);
    assert(p <= total) by (nonlinear_arith)
        requires p * i <= total * i, i > 0;
}

/// The shares of an asset in issue never exceed its total supply, and they are exactly the
/// shares its holders hold together: minting adds to both, burning takes from both, and a
/// transfer moves shares between holders.
pub proof fn lemma_issued_shares_accounted(s: Rwa, asset: u32)
    requires
        s.wf(),
    ensures
        s.assets@.contains_key(asset) ==> s.issued_of(asset) <= s.assets@[asset].total_supply,
        s.issued_of(asset) == s.holdings_of(asset),
{
}

/// Fixed weights of the asset registry calls: each costs 10 000 picoseconds of reference time.
#[derive(Clone, Copy, Debug)]
pub struct SubstrateWeight;

impl SubstrateWeight {
    pub fn register_asset() -> (w: Weight)
        ensures
            w == (Weight { ref_time: 10_000, proof_size: 0 }),
    {
        Weight::from_parts(10_000, 0)
    }

    pub fn mint_shares() -> (w: Weight)
        ensures
            w == (Weight { ref_time: 10_000, proof_size: 0 }),
    {
        Weight::from_parts(10_000, 0)
    }

    pub fn burn_shares() -> (w: Weight)
        ensures
            w == (Weight { ref_time: 10_000, proof_size: 0 }),
    {
        Weight::from_parts(10_000, 0)
    }

    pub fn transfer_shares() -> (w: Weight)
        ensures
            w == (Weight { ref_time: 10_000, proof_size: 0 }),
    {
        Weight::from_parts(10_000, 0)
    }

    pub fn distribute_yield() -> (w: Weight)
        ensures
            w == (Weight { ref_time: 10_000, proof_size: 0 }),
    {
        Weight::from_parts(10_000, 0)
    }

    pub fn claim_yield() -> (w: Weight)
        ensures
            w == (Weight { ref_time: 10_000, proof_size: 0 }),
    {
        Weight::from_parts(10_000, 0)
    }

    pub fn claim_all_yield() -> (w: Weight)
        ensures
            w == (Weight { ref_time: 10_000, proof_size: 0 }),
    {
        Weight::from_parts(10_000, 0)
    }

    pub fn freeze() -> (w: Weight)
        ensures
            w == (Weight { ref_time: 10_000, proof_size: 0 }),
    {
        Weight::from_parts(10_000, 0)
    }

    pub fn unfreeze() -> (w: Weight)
        ensures
            w == (Weight { ref_time: 10_000, proof_size: 0 }),
    {
        Weight::from_parts(10_000, 0)
    }

    pub fn wind_down() -> (w: Weight)
        ensures
            w == (Weight { ref_time: 10_000, proof_size: 0 }),
    {
        Weight::from_parts(10_000, 0)
    }
}

} // verus!
