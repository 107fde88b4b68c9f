//! License registry for 3D-model NFTs: reusable templates, minting, custody claims,
//! burning, revocation, creator royalty settings and the periodic expiry sweep.

use vstd::prelude::*;
use crate::weights::{RuntimeDbWeight, Weight, base_reads_writes, rw_cost};
use crate::common::{ensure_signed, AccountId, Balance, BlockNumber, Hash32, Origin, OriginRule};
use crate::crypto::{blake2_256, blake2_256_of, digest, lemma_digest};
use crate::scale::{
    enc_bool, enc_bytes, enc_compact, enc_opt_u32, enc_opt_u64, enc_u128, enc_u16, enc_u32, enc_u64,
    enc_u8, push_bool, push_bytes, push_compact, push_opt_u32, push_opt_u64, push_u128, push_u16,
    push_u32, push_u64, push_u8,
};
use crate::table::{is_selection, lemma_filter_no_duplicates, lemma_prefix_is_selection, Table};

verus! {

/// Maximum royalty: 2500 basis points (25%).
pub const MAX_ROYALTY_BP: u16 = 2500;

/// Maximum number of expired licenses removed per sweep.
pub const MAX_SWEEP_PER_BLOCK: u32 = 50;

/// The sweep runs every this many blocks.
pub const SWEEP_INTERVAL: u32 = 100;

/// Maximum length of one platform restriction.
pub const MAX_PLATFORM_ID_LEN: usize = 64;

/// Maximum length of a payment proof.
pub const MAX_PAYMENT_PROOF_LEN: usize = 128;

/// Kind of license.
#[derive(Clone, Copy, Debug, PartialEq, Eq, Structural)]
pub enum LicenseType {
    /// Personal, non-commercial use only.
    Personal,
    /// Commercial use permitted.
    Commercial,
    /// Derivative works permitted.
    Derivative,
    /// Exclusive ownership; may burn the original.
    Exclusive,
    /// Valid only until a given block.
    TimeLimited,
    /// Custom terms kept off chain.
    Custom,
}

impl Default for LicenseType {
    fn default() -> (r: Self)
        ensures
            r == LicenseType::Personal,
    {
        LicenseType::Personal
    }
}

/// Legal jurisdiction of a license.
#[derive(Clone, Copy, Debug, PartialEq, Eq, Structural)]
pub enum Jurisdiction {
    ES,
    EU,
    CH,
    US,
    Global,
}

impl Default for Jurisdiction {
    fn default() -> (r: Self)
        ensures
            r == Jurisdiction::Global,
    {
        Jurisdiction::Global
    }
}

/// How a license was paid for.
#[derive(Clone, Copy, Debug, PartialEq, Eq, Structural)]
pub enum PaymentMethod {
    StripeFiat,
    PLIM,
    PEUR,
    Custody,
}

impl Default for PaymentMethod {
    fn default() -> (r: Self)
        ensures
            r == PaymentMethod::StripeFiat,
    {
        PaymentMethod::StripeFiat
    }
}

/// The asset royalties are paid in.
#[derive(Clone, Copy, Debug, PartialEq, Eq, Structural)]
pub enum RoyaltyAsset {
    /// The native token.
    Native,
    /// An asset of the assets registry.
    Asset(u32),
    /// Settled off chain.
    OffChain,
}

impl Default for RoyaltyAsset {
    fn default() -> (r: Self)
        ensures
            r == RoyaltyAsset::Native,
    {
        RoyaltyAsset::Native
    }
}

/// Full license metadata of an NFT item or a template.
#[derive(Debug)]
pub struct LicenseData {
    pub license_type: LicenseType,
    pub version: u16,
    pub original_creator: AccountId,
    pub current_owner: AccountId,
    /// Original price in EUR cents.
    pub original_price_eur_cents: u32,
    /// Original price in native tokens.
    pub original_price_plim: Balance,
    pub transferable: bool,
    pub print_commercial: bool,
    pub derivative_allowed: bool,
    pub derivative_share_alike: bool,
    pub attribution_required: bool,
    pub watermark_required: bool,
    /// Claiming this exclusive license burns the original NFT.
    pub exclusive_burns_original: bool,
    /// Royalty in basis points (at most 2500).
    pub royalty_pct_bp: u16,
    /// Block at which the license expires (`None`: perpetual).
    pub expires_at: Option<BlockNumber>,
    pub max_prints: Option<u32>,
    pub max_copies: Option<u32>,
    /// Two-letter country codes where the license is not valid.
    pub geo_restrictions: Vec<[u8; 2]>,
    /// Platform identifiers where the license is not valid (each at most 64 bytes).
    pub platform_restrictions: Vec<Vec<u8>>,
    pub jurisdiction: Jurisdiction,
    pub issued_at: BlockNumber,
    pub payment_method: PaymentMethod,
    /// External payment reference, at most 128 bytes.
    pub payment_proof: Vec<u8>,
}

/// A license held in custody for an off-chain buyer.
#[derive(Clone, Copy, Debug)]
pub struct CustodyRecord {
    pub custodian: AccountId,
    /// Hash of the buyer's e-mail address.
    pub buyer_email_hash: [u8; 32],
    pub created_at: BlockNumber,
    pub claimed: bool,
    pub claim_nonce: u64,
}

/// A creator's default royalty settings.
#[derive(Clone, Copy, Debug, PartialEq, Eq, Structural)]
pub struct CreatorRoyaltyConfig {
    pub default_pct_bp: u16,
    pub payout_address: AccountId,
    pub preferred_asset: RoyaltyAsset,
}

/// Events of the license registry.
#[derive(Clone, Copy, Debug)]
pub enum LicenseEvent {
    LicenseMinted { item_id: u32, owner: AccountId, license_type: LicenseType },
    LicenseTransferred { item_id: u32, from: AccountId, to: AccountId },
    LicenseBurned { item_id: u32, owner: AccountId },
    LicenseRevoked { item_id: u32 },
    LicenseClaimedFromCustody { item_id: u32, new_owner: AccountId },
    LicenseAttrsUpdated { template_hash: Hash32 },
    CreatorConfigSet { creator: AccountId },
    LicenseExpired { item_id: u32 },
}

/// Errors of the license registry.
#[derive(Clone, Copy, Debug, PartialEq, Eq, Structural)]
pub enum LicenseError {
    BadOrigin,
    LicenseNotFound,
    LicenseExpired,
    NotTransferable,
    NotDerivativeAllowed,
    GeoRestricted,
    MaxPrintsReached,
    InvalidLicenseAttrs,
    InvalidRoyaltyPct,
    CustodySignatureInvalid,
    NotCustodyOwned,
    AlreadyClaimed,
    Unauthorized,
    ArithmeticOverflow,
    BoundExceeded,
}

/// Constants of the license registry.
#[derive(Clone, Copy, Debug)]
pub struct LicensesConfig {
    /// Origin allowed to mint.
    pub marketplace_origin: OriginRule,
    /// Origin allowed to revoke.
    pub admin_origin: OriginRule,
    /// NFT collection of the licenses.
    pub license_collection_id: u32,
    /// Maximum number of geo restrictions.
    pub max_geo_restrictions: u32,
    /// Maximum number of platform restrictions.
    pub max_platform_restrictions: u32,
}

/// The license registry storage.
pub struct Licenses {
    pub config: LicensesConfig,
    /// Licenses by item id.
    pub licenses: Table<u32, LicenseData>,
    /// Templates by the hash of their encoding.
    pub templates: Table<Hash32, LicenseData>,
    /// Custody records by item id.
    pub custody_queue: Table<u32, CustodyRecord>,
    /// Royalty settings by creator.
    pub creator_configs: Table<AccountId, CreatorRoyaltyConfig>,
    /// The item id the next mint receives.
    pub next_item_id: u32,
    /// Deposited events, oldest first.
    pub events: Vec<LicenseEvent>,
}

/// Index of a license type in its encoding.
pub open spec fn license_type_index(t: LicenseType) -> u8 {
    match t {
        LicenseType::Personal => 0,
        LicenseType::Commercial => 1,
        LicenseType::Derivative => 2,
        LicenseType::Exclusive => 3,
        LicenseType::TimeLimited => 4,
        LicenseType::Custom => 5,
    }
}

/// Index of a jurisdiction in its encoding.
pub open spec fn jurisdiction_index(j: Jurisdiction) -> u8 {
    match j {
        Jurisdiction::ES => 0,
        Jurisdiction::EU => 1,
        Jurisdiction::CH => 2,
        Jurisdiction::US => 3,
        Jurisdiction::Global => 4,
    }
}

/// Index of a payment method in its encoding.
pub open spec fn payment_method_index(p: PaymentMethod) -> u8 {
    match p {
        PaymentMethod::StripeFiat => 0,
        PaymentMethod::PLIM => 1,
        PaymentMethod::PEUR => 2,
        PaymentMethod::Custody => 3,
    }
}

fn license_type_byte(t: LicenseType) -> (b: u8)
    ensures
        b == license_type_index(t),
{
    match t {
        LicenseType::Personal => 0,
        LicenseType::Commercial => 1,
        LicenseType::Derivative => 2,
        LicenseType::Exclusive => 3,
        LicenseType::TimeLimited => 4,
        LicenseType::Custom => 5,
    }
}

fn jurisdiction_byte(j: Jurisdiction) -> (b: u8)
    ensures
        b == jurisdiction_index(j),
{
    match j {
        Jurisdiction::ES => 0,
        Jurisdiction::EU => 1,
        Jurisdiction::CH => 2,
        Jurisdiction::US => 3,
        Jurisdiction::Global => 4,
    }
}

fn payment_method_byte(p: PaymentMethod) -> (b: u8)
    ensures
        b == payment_method_index(p),
{
    match p {
        PaymentMethod::StripeFiat => 0,
        PaymentMethod::PLIM => 1,
        PaymentMethod::PEUR => 2,
        PaymentMethod::Custody => 3,
    }
}

/// The country codes, concatenated.
pub open spec fn enc_geo_items(s: Seq<[u8; 2]>) -> Seq<u8>
    decreases s.len(),
{
    if s.len() == 0 {
        Seq::empty()
    } else {
        enc_geo_items(s.drop_last()) + s.last()@
    }
}

/// The platform identifiers, each encoded as a byte vector, concatenated.
pub open spec fn enc_platform_items(s: Seq<Vec<u8>>) -> Seq<u8>
    decreases s.len(),
{
    if s.len() == 0 {
        Seq::empty()
    } else {
        enc_platform_items(s.drop_last()) + enc_bytes(s.last()@)
    }
}

/// The SCALE encoding of license data: its fields in declaration order.
pub open spec fn enc_license(d: LicenseData) -> Seq<u8> {
    enc_u8(license_type_index(d.license_type)) + enc_u16(d.version) + enc_u64(d.original_creator)
        + enc_u64(d.current_owner) + enc_u32(d.original_price_eur_cents) + enc_u128(
        d.original_price_plim,
    ) + enc_bool(d.transferable) + enc_bool(d.print_commercial) + enc_bool(d.derivative_allowed)
        + enc_bool(d.derivative_share_alike) + enc_bool(d.attribution_required) + enc_bool(
        d.watermark_required,
    ) + enc_bool(d.exclusive_burns_original) + enc_u16(d.royalty_pct_bp) + enc_opt_u64(d.expires_at)
        + enc_opt_u32(d.max_prints) + enc_opt_u32(d.max_copies) + enc_compact(
        d.geo_restrictions@.len(),
    ) + enc_geo_items(d.geo_restrictions@) + enc_compact(d.platform_restrictions@.len())
        + enc_platform_items(d.platform_restrictions@) + enc_u8(jurisdiction_index(d.jurisdiction))
        + enc_u64(d.issued_at) + enc_u8(payment_method_index(d.payment_method)) + enc_bytes(
        d.payment_proof@,
    )
}

/// The key of a template: the BLAKE2-256 digest of its encoding.
pub open spec fn template_hash_spec(d: LicenseData) -> Hash32 {
    digest(blake2_256_of(enc_license(d)))
}

/// The attribute rules every license and template obeys, as the error a violation reports.
pub open spec fn attrs_error(
    license_type: LicenseType,
    royalty_pct_bp: u16,
    transferable: bool,
    exclusive_burns_original: bool,
    derivative_allowed: bool,
    derivative_share_alike: bool,
    expires_at: Option<BlockNumber>,
) -> Option<LicenseError> {
    if royalty_pct_bp > MAX_ROYALTY_BP {
        Some(LicenseError::InvalidRoyaltyPct)
    } else if royalty_pct_bp > 0 && !transferable {
        Some(LicenseError::InvalidLicenseAttrs)
    } else if exclusive_burns_original && license_type != LicenseType::Exclusive {
        Some(LicenseError::InvalidLicenseAttrs)
    } else if derivative_share_alike && !derivative_allowed {
        Some(LicenseError::InvalidLicenseAttrs)
    } else if license_type == LicenseType::TimeLimited && expires_at is None {
        Some(LicenseError::InvalidLicenseAttrs)
    } else {
        None
    }
}

/// Whether a license's terms obey the attribute rules.
pub open spec fn obeys_attrs(d: LicenseData) -> bool {
    attrs_error(d.license_type, d.royalty_pct_bp, d.transferable, d.exclusive_burns_original,
        d.derivative_allowed, d.derivative_share_alike, d.expires_at) is None
}

/// Check the attribute rules.
pub fn validate_license_attrs(
    license_type: LicenseType,
    royalty_pct_bp: u16,
    transferable: bool,
    exclusive_burns_original: bool,
    derivative_allowed: bool,
    derivative_share_alike: bool,
    expires_at: Option<BlockNumber>,
) -> (r: Result<(), LicenseError>)
    ensures
        match attrs_error(license_type, royalty_pct_bp, transferable, exclusive_burns_original, derivative_allowed, derivative_share_alike, expires_at) {
            Some(e) => r == Err::<(), LicenseError>(e),
            None => r is Ok,
        },
{
    if royalty_pct_bp > MAX_ROYALTY_BP {
        return Err(LicenseError::InvalidRoyaltyPct);
    }
    if royalty_pct_bp > 0 && !transferable {
        return Err(LicenseError::InvalidLicenseAttrs);
    }
    if exclusive_burns_original && license_type != LicenseType::Exclusive {
        return Err(LicenseError::InvalidLicenseAttrs);
    }
    if derivative_share_alike && !derivative_allowed {
        return Err(LicenseError::InvalidLicenseAttrs);
    }
    if license_type == LicenseType::TimeLimited && expires_at.is_none() {
        return Err(LicenseError::InvalidLicenseAttrs);
    }
    Ok(())
}

/// Whether the restriction lists and the payment proof fit their bounds.
pub open spec fn bounds_ok(cfg: LicensesConfig, geo: Seq<[u8; 2]>, platforms: Seq<Vec<u8>>, proof: Seq<u8>) -> bool {
    &&& geo.len() <= cfg.max_geo_restrictions
    &&& forall|i: int| 0 <= i < platforms.len() ==> #[trigger] platforms[i]@.len() <= MAX_PLATFORM_ID_LEN
    &&& platforms.len() <= cfg.max_platform_restrictions
    &&& proof.len() <= MAX_PAYMENT_PROOF_LEN
}

fn check_bounds(cfg: &LicensesConfig, geo: &Vec<[u8; 2]>, platforms: &Vec<Vec<u8>>, proof: &Vec<u8>) -> (ok: bool)
    ensures
        ok == bounds_ok(*cfg, geo@, platforms@, proof@),
{
    if geo.len() > cfg.max_geo_restrictions as usize {
        return false;
    }
    let mut i: usize = 0;
    while i < platforms.len()
        invariant
            0 <= i <= platforms@.len(),
            forall|j: int| 0 <= j < i ==> #[trigger] platforms@[j]@.len() <= MAX_PLATFORM_ID_LEN,
        decreases platforms@.len() - i,
    {
        if platforms[i].len() > MAX_PLATFORM_ID_LEN {
            return false;
        }
        i = i + 1;
    }
    if platforms.len() > cfg.max_platform_restrictions as usize {
        return false;
    }
    proof.len() <= MAX_PAYMENT_PROOF_LEN
}

/// Encode license data.
pub fn encode_license(d: &LicenseData) -> (out: Vec<u8>)
    requires
        d.geo_restrictions@.len() <= u32::MAX,
        d.platform_restrictions@.len() <= u32::MAX,
        forall|i: int| 0 <= i < d.platform_restrictions@.len() ==> #[trigger] d.platform_restrictions@[i]@.len() <= u32::MAX,
        d.payment_proof@.len() <= u32::MAX,
    ensures
        out@ == enc_license(*d),
{
    let mut out: Vec<u8> = Vec::new();
    push_u8(&mut out, license_type_byte(d.license_type));
    push_u16(&mut out, d.version);
    push_u64(&mut out, d.original_creator);
    push_u64(&mut out, d.current_owner);
    push_u32(&mut out, d.original_price_eur_cents);
    push_u128(&mut out, d.original_price_plim);
    push_bool(&mut out, d.transferable);
    push_bool(&mut out, d.print_commercial);
    push_bool(&mut out, d.derivative_allowed);
    push_bool(&mut out, d.derivative_share_alike);
    push_bool(&mut out, d.attribution_required);
    push_bool(&mut out, d.watermark_required);
    push_bool(&mut out, d.exclusive_burns_original);
    push_u16(&mut out, d.royalty_pct_bp);
    push_opt_u64(&mut out, d.expires_at);
    push_opt_u32(&mut out, d.max_prints);
    push_opt_u32(&mut out, d.max_copies);
    push_compact(&mut out, d.geo_restrictions.len());
    let ghost prefix = out@;
    let mut i: usize = 0;
    while i < d.geo_restrictions.len()
        invariant
            0 <= i <= d.geo_restrictions@.len(),
            out@ == prefix + enc_geo_items(d.geo_restrictions@.subrange(0, i as int)),
        decreases d.geo_restrictions@.len() - i,
    {
        let g = d.geo_restrictions[i];
        out.push(g[0]);
        out.push(g[1]);
        proof {
            let s = d.geo_restrictions@.subrange(0, i + 1);
            assert(s.drop_last() =~= d.geo_restrictions@.subrange(0, i as int));
            assert(g@ =~= seq![g[0], g[1]]);
            assert(out@ =~= prefix + enc_geo_items(s));
        }
        i = i + 1;
    }
    assert(d.geo_restrictions@.subrange(0, d.geo_restrictions@.len() as int) =~= d.geo_restrictions@);
    push_compact(&mut out, d.platform_restrictions.len());
    let ghost prefix2 = out@;
    let mut j: usize = 0;
    while j < d.platform_restrictions.len()
        invariant
            0 <= j <= d.platform_restrictions@.len(),
            forall|k: int| 0 <= k < d.platform_restrictions@.len() ==> #[trigger] d.platform_restrictions@[k]@.len() <= u32::MAX,
            out@ == prefix2 + enc_platform_items(d.platform_restrictions@.subrange(0, j as int)),
        decreases d.platform_restrictions@.len() - j,
    {
        let ghost before = out@;
        push_bytes(&mut out, d.platform_restrictions[j].as_slice());
        proof {
            let s = d.platform_restrictions@.subrange(0, j + 1);
            assert(s.drop_last() =~= d.platform_restrictions@.subrange(0, j as int));
            assert(out@ =~= prefix2 + enc_platform_items(s));
        }
        j = j + 1;
    }
    assert(d.platform_restrictions@.subrange(0, d.platform_restrictions@.len() as int) =~= d.platform_restrictions@);
    push_u8(&mut out, jurisdiction_byte(d.jurisdiction));
    push_u64(&mut out, d.issued_at);
    push_u8(&mut out, payment_method_byte(d.payment_method));
    push_bytes(&mut out, d.payment_proof.as_slice());
    proof {
        assert(out@ =~= enc_license(*d));
    }
    out
}

/// The license data a mint or template stores: the given terms, owned by `owner`, issued at `now`.
pub open spec fn license_terms(
    license_type: LicenseType,
    version: u16,
    original_creator: AccountId,
    owner: AccountId,
    original_price_eur_cents: u32,
    original_price_plim: Balance,
    flags: (bool, bool, bool, bool, bool, bool, bool),
    royalty_pct_bp: u16,
    expires_at: Option<BlockNumber>,
    max_prints: Option<u32>,
    max_copies: Option<u32>,
    geo_restrictions: Vec<[u8; 2]>,
    platform_restrictions: Vec<Vec<u8>>,
    jurisdiction: Jurisdiction,
    now: BlockNumber,
    payment_method: PaymentMethod,
    payment_proof: Vec<u8>,
) -> LicenseData {
    LicenseData {
        license_type,
        version,
        original_creator,
        current_owner: owner,
        original_price_eur_cents,
        original_price_plim,
        transferable: flags.0,
        print_commercial: flags.1,
        derivative_allowed: flags.2,
        derivative_share_alike: flags.3,
        attribution_required: flags.4,
        watermark_required: flags.5,
        exclusive_burns_original: flags.6,
        royalty_pct_bp,
        expires_at,
        max_prints,
        max_copies,
        geo_restrictions,
        platform_restrictions,
        jurisdiction,
        issued_at: now,
        payment_method,
        payment_proof,
    }
}

impl Licenses {
    /// All tables are well formed, and every stored license and template obeys the
    /// attribute rules.
    pub open spec fn wf(&self) -> bool {
        &&& self.licenses.wf()
        &&& self.templates.wf()
        &&& self.custody_queue.wf()
        &&& self.creator_configs.wf()
        &&& forall|k: u32| #[trigger] self.licenses@.contains_key(k) ==> obeys_attrs(self.licenses@[k])
        &&& forall|h: Hash32| #[trigger] self.templates@.contains_key(h) ==> obeys_attrs(self.templates@[h])
        &&& forall|k: u32| #[trigger] self.licenses@.contains_key(k) ==> k < self.next_item_id
        &&& forall|k: u32| #[trigger] self.custody_queue@.contains_key(k) ==> k < self.next_item_id
    }

    /// Every custody record claimed in `self` is, in `later`, either unchanged or gone
    /// (with its license burned, revoked or swept): a claimed record never becomes
    /// claimable again.
    pub open spec fn claimed_kept(&self, later: &Self) -> bool {
        forall|k: u32| #[trigger] self.custody_queue@.contains_key(k) && self.custody_queue@[k].claimed
            ==> !later.custody_queue@.contains_key(k) || later.custody_queue@[k] == self.custody_queue@[k]
    }

    /// An empty registry.
    pub fn new(config: LicensesConfig) -> (s: Self)
        ensures
            s.wf(),
            s.config == config,
            s.licenses@ == Map::<u32, LicenseData>::empty(),
            s.templates@ == Map::<Hash32, LicenseData>::empty(),
            s.custody_queue@ == Map::<u32, CustodyRecord>::empty(),
            s.creator_configs@ == Map::<AccountId, CreatorRoyaltyConfig>::empty(),
            s.next_item_id == 0,
            s.events@ == Seq::<LicenseEvent>::empty(),
    {
        Licenses {
            config,
            licenses: Table::new(),
            templates: Table::new(),
            custody_queue: Table::new(),
            creator_configs: Table::new(),
            next_item_id: 0,
            events: Vec::new(),
        }
    }

    /// The error `mint_license` reports, if any.
    pub open spec fn mint_error(
        &self,
        origin: Origin,
        license_type: LicenseType,
        transferable: bool,
        derivative_allowed: bool,
        derivative_share_alike: bool,
        exclusive_burns_original: bool,
        royalty_pct_bp: u16,
        expires_at: Option<BlockNumber>,
        geo: Seq<[u8; 2]>,
        platforms: Seq<Vec<u8>>,
        proof: Seq<u8>,
    ) -> Option<LicenseError> {
        if !self.config.marketplace_origin.allows(origin) {
            Some(LicenseError::BadOrigin)
        } else if attrs_error(license_type, royalty_pct_bp, transferable, exclusive_burns_original, derivative_allowed, derivative_share_alike, expires_at) is Some {
            attrs_error(license_type, royalty_pct_bp, transferable, exclusive_burns_original, derivative_allowed, derivative_share_alike, expires_at)
        } else if !bounds_ok(self.config, geo, platforms, proof) {
            Some(LicenseError::BoundExceeded)
        } else if self.next_item_id == u32::MAX {
            Some(LicenseError::ArithmeticOverflow)
        } else {
            None
        }
    }

    /// Mint a license for `owner` under the next item id (marketplace origin only). A
    /// custody purchase with a buyer e-mail hash also opens a custody record.
    pub fn mint_license(
        &mut self,
        origin: Origin,
        now: BlockNumber,
        owner: AccountId,
        license_type: LicenseType,
        version: u16,
        original_creator: AccountId,
        original_price_eur_cents: u32,
        original_price_plim: Balance,
        transferable: bool,
        print_commercial: bool,
        derivative_allowed: bool,
        derivative_share_alike: bool,
        attribution_required: bool,
        watermark_required: bool,
        exclusive_burns_original: bool,
        royalty_pct_bp: u16,
        expires_at: Option<BlockNumber>,
        max_prints: Option<u32>,
        max_copies: Option<u32>,
        geo_restrictions: Vec<[u8; 2]>,
        platform_restrictions: Vec<Vec<u8>>,
        jurisdiction: Jurisdiction,
        payment_method: PaymentMethod,
        payment_proof: Vec<u8>,
        custody_buyer_email_hash: Option<[u8; 32]>,
    ) -> (r: Result<(), LicenseError>)
        requires
            old(self).wf(),
        ensures
            final(self).wf(),
            old(self).claimed_kept(final(self)),
            match old(self).mint_error(origin, license_type, transferable, derivative_allowed, derivative_share_alike,
                exclusive_burns_original, royalty_pct_bp, expires_at, geo_restrictions@, platform_restrictions@, payment_proof@) {
                Some(e) => r == Err::<(), LicenseError>(e) && *final(self) == *old(self),
                None => {
                    let item_id = old(self).next_item_id;
                    &&& r is Ok
                    &&& final(self).licenses@ == old(self).licenses@.insert(item_id, license_terms(
                        license_type, version, original_creator, owner, original_price_eur_cents, original_price_plim,
                        (transferable, print_commercial, derivative_allowed, derivative_share_alike, attribution_required,
                        watermark_required, exclusive_burns_original), royalty_pct_bp, expires_at, max_prints, max_copies,
                        geo_restrictions, platform_restrictions, jurisdiction, now, payment_method, payment_proof))
                    &&& final(self).next_item_id == item_id + 1
                    &&& final(self).custody_queue@ == (match (payment_method, custody_buyer_email_hash) {
                        (PaymentMethod::Custody, Some(h)) => old(self).custody_queue@.insert(item_id, CustodyRecord {
                            custodian: owner, buyer_email_hash: h, created_at: now, claimed: false, claim_nonce: 0,
                        }),
                        _ => old(self).custody_queue@,
                    })
                    &&& final(self).templates@ == old(self).templates@
                    &&& final(self).creator_configs@ == old(self).creator_configs@
                    &&& final(self).config == old(self).config
                    &&& final(self).events@ == old(self).events@.push(LicenseEvent::LicenseMinted { item_id, owner, license_type })
                },
            },
    {
        if self.config.marketplace_origin.ensure_origin(&origin).is_err() {
            return Err(LicenseError::BadOrigin);
        }
        match validate_license_attrs(license_type, royalty_pct_bp, transferable, exclusive_burns_original,
            derivative_allowed, derivative_share_alike, expires_at) {
            Ok(()) => {},
            Err(e) => return Err(e),
        }
        if !check_bounds(&self.config, &geo_restrictions, &platform_restrictions, &payment_proof) {
            return Err(LicenseError::BoundExceeded);
        }
        let item_id = self.next_item_id;
        if item_id == u32::MAX {
            return Err(LicenseError::ArithmeticOverflow);
        }
        self.next_item_id = item_id + 1;
        let data = LicenseData {
            license_type,
            version,
            original_creator,
            current_owner: owner,
            original_price_eur_cents,
            original_price_plim,
            transferable,
            print_commercial,
            derivative_allowed,
            derivative_share_alike,
            attribution_required,
            watermark_required,
            exclusive_burns_original,
            royalty_pct_bp,
            expires_at,
            max_prints,
            max_copies,
            geo_restrictions,
            platform_restrictions,
            jurisdiction,
            issued_at: now,
            payment_method,
            payment_proof,
        };
        self.licenses.insert(item_id, data);
        if payment_method == PaymentMethod::Custody {
            match custody_buyer_email_hash {
                Some(h) => {
                    self.custody_queue.insert(item_id, CustodyRecord {
                        custodian: owner,
                        buyer_email_hash: h,
                        created_at: now,
                        claimed: false,
                        claim_nonce: 0,
                    });
                },
                None => {},
            }
        }
        self.events.push(LicenseEvent::LicenseMinted { item_id, owner, license_type });
        Ok(())
    }

    /// The error `create_license_template` reports, if any.
    pub open spec fn template_error(
        &self,
        origin: Origin,
        license_type: LicenseType,
        transferable: bool,
        derivative_allowed: bool,
        derivative_share_alike: bool,
        exclusive_burns_original: bool,
        royalty_pct_bp: u16,
        expires_at: Option<BlockNumber>,
        geo: Seq<[u8; 2]>,
        platforms: Seq<Vec<u8>>,
        proof: Seq<u8>,
    ) -> Option<LicenseError> {
        if !(origin is Signed) {
            Some(LicenseError::BadOrigin)
        } else if attrs_error(license_type, royalty_pct_bp, transferable, exclusive_burns_original, derivative_allowed, derivative_share_alike, expires_at) is Some {
            attrs_error(license_type, royalty_pct_bp, transferable, exclusive_burns_original, derivative_allowed, derivative_share_alike, expires_at)
        } else if !bounds_ok(self.config, geo, platforms, proof) {
            Some(LicenseError::BoundExceeded)
        } else {
            None
        }
    }

    /// Store a reusable template whose creator and owner is the caller, keyed by the hash of
    /// its encoding.
    pub fn create_license_template(
        &mut self,
        origin: Origin,
        now: BlockNumber,
        license_type: LicenseType,
        version: u16,
        original_price_eur_cents: u32,
        original_price_plim: Balance,
        transferable: bool,
        print_commercial: bool,
        derivative_allowed: bool,
        derivative_share_alike: bool,
        attribution_required: bool,
        watermark_required: bool,
        exclusive_burns_original: bool,
        royalty_pct_bp: u16,
        expires_at: Option<BlockNumber>,
        max_prints: Option<u32>,
        max_copies: Option<u32>,
        geo_restrictions: Vec<[u8; 2]>,
        platform_restrictions: Vec<Vec<u8>>,
        jurisdiction: Jurisdiction,
        payment_method: PaymentMethod,
        payment_proof: Vec<u8>,
    ) -> (r: Result<(), LicenseError>)
        requires
            old(self).wf(),
        ensures
            final(self).wf(),
            old(self).claimed_kept(final(self)),
            match old(self).template_error(origin, license_type, transferable, derivative_allowed, derivative_share_alike,
                exclusive_burns_original, royalty_pct_bp, expires_at, geo_restrictions@, platform_restrictions@, payment_proof@) {
                Some(e) => r == Err::<(), LicenseError>(e) && *final(self) == *old(self),
                None => {
                    let creator = origin->Signed_0;
                    let data = license_terms(
                        license_type, version, creator, creator, original_price_eur_cents, original_price_plim,
                        (transferable, print_commercial, derivative_allowed, derivative_share_alike, attribution_required,
                        watermark_required, exclusive_burns_original), royalty_pct_bp, expires_at, max_prints, max_copies,
                        geo_restrictions, platform_restrictions, jurisdiction, now, payment_method, payment_proof);
                    let h = template_hash_spec(data);
                    &&& r is Ok
                    &&& final(self).templates@ == old(self).templates@.insert(h, data)
                    &&& final(self).licenses@ == old(self).licenses@
                    &&& final(self).custody_queue@ == old(self).custody_queue@
                    &&& final(self).creator_configs@ == old(self).creator_configs@
                    &&& final(self).next_item_id == old(self).next_item_id
                    &&& final(self).config == old(self).config
                    &&& final(self).events@ == old(self).events@.push(LicenseEvent::LicenseAttrsUpdated { template_hash: h })
                },
            },
    {
        let creator = match ensure_signed(&origin) {
            Ok(c) => c,
            Err(_) => return Err(LicenseError::BadOrigin),
        };
        match validate_license_attrs(license_type, royalty_pct_bp, transferable, exclusive_burns_original,
            derivative_allowed, derivative_share_alike, expires_at) {
            Ok(()) => {},
            Err(e) => return Err(e),
        }
        if !check_bounds(&self.config, &geo_restrictions, &platform_restrictions, &payment_proof) {
            return Err(LicenseError::BoundExceeded);
        }
        let data = LicenseData {
            license_type,
            version,
            original_creator: creator,
            current_owner: creator,
            original_price_eur_cents,
            original_price_plim,
            transferable,
            print_commercial,
            derivative_allowed,
            derivative_share_alike,
            attribution_required,
            watermark_required,
            exclusive_burns_original,
            royalty_pct_bp,
            expires_at,
            max_prints,
            max_copies,
            geo_restrictions,
            platform_restrictions,
            jurisdiction,
            issued_at: now,
            payment_method,
            payment_proof,
        };
        let bytes = encode_license(&data);
        let h = blake2_256(bytes.as_slice());
        proof {
            lemma_digest(h);
        }
        self.templates.insert(h, data);
        self.events.push(LicenseEvent::LicenseAttrsUpdated { template_hash: h });
        Ok(())
    }

    /// The error `update_license_attrs` reports, if any.
    pub open spec fn update_attrs_error(
        &self,
        origin: Origin,
        template_hash: Hash32,
        new_royalty_pct_bp: Option<u16>,
        new_transferable: Option<bool>,
        new_derivative_allowed: Option<bool>,
        new_derivative_share_alike: Option<bool>,
    ) -> Option<LicenseError> {
        if !(origin is Signed) {
            Some(LicenseError::BadOrigin)
        } else if !self.templates@.contains_key(template_hash) {
            Some(LicenseError::LicenseNotFound)
        } else {
            let d = self.templates@[template_hash];
            let royalty = match new_royalty_pct_bp { Some(x) => x, None => d.royalty_pct_bp };
            let transferable = match new_transferable { Some(x) => x, None => d.transferable };
            let derivative_allowed = match new_derivative_allowed { Some(x) => x, None => d.derivative_allowed };
            if d.original_creator != origin->Signed_0 {
                Some(LicenseError::Unauthorized)
            } else if new_royalty_pct_bp is Some && royalty > MAX_ROYALTY_BP {
                Some(LicenseError::InvalidRoyaltyPct)
            } else if new_royalty_pct_bp is Some && royalty > 0 && !transferable {
                Some(LicenseError::InvalidLicenseAttrs)
            } else if new_transferable == Some(false) && royalty != 0 {
                Some(LicenseError::InvalidLicenseAttrs)
            } else if new_derivative_share_alike == Some(true) && !derivative_allowed {
                Some(LicenseError::InvalidLicenseAttrs)
            } else {
                None
            }
        }
    }

    /// Change some attributes of a template; only its original creator may. Royalties need a
    /// transferable template, turning derivatives off turns share-alike off, and share-alike
    /// needs derivatives.
    #[verifier::rlimit(100)]
    #[verifier::spinoff_prover]
    pub fn update_license_attrs(
        &mut self,
        origin: Origin,
        template_hash: Hash32,
        new_royalty_pct_bp: Option<u16>,
        new_transferable: Option<bool>,
        new_derivative_allowed: Option<bool>,
        new_derivative_share_alike: Option<bool>,
        new_max_prints: Option<Option<u32>>,
        new_max_copies: Option<Option<u32>>,
    ) -> (r: Result<(), LicenseError>)
        requires
            old(self).wf(),
        ensures
            final(self).wf(),
            old(self).claimed_kept(final(self)),
            match old(self).update_attrs_error(origin, template_hash, new_royalty_pct_bp, new_transferable,
                new_derivative_allowed, new_derivative_share_alike) {
                Some(e) => r == Err::<(), LicenseError>(e) && *final(self) == *old(self),
                None => {
                    let d = old(self).templates@[template_hash];
                    let derivative_allowed = match new_derivative_allowed { Some(x) => x, None => d.derivative_allowed };
                    &&& r is Ok
                    &&& final(self).templates@ == old(self).templates@.insert(template_hash, LicenseData {
                        royalty_pct_bp: match new_royalty_pct_bp { Some(x) => x, None => d.royalty_pct_bp },
                        transferable: match new_transferable { Some(x) => x, None => d.transferable },
                        derivative_allowed,
                        derivative_share_alike: match new_derivative_share_alike {
                            Some(x) => x,
                            None => if new_derivative_allowed == Some(false) { false } else { d.derivative_share_alike },
                        },
                        max_prints: match new_max_prints { Some(x) => x, None => d.max_prints },
                        max_copies: match new_max_copies { Some(x) => x, None => d.max_copies },
                        ..d
                    })
                    &&& final(self).licenses@ == old(self).licenses@
                    &&& final(self).custody_queue@ == old(self).custody_queue@
                    &&& final(self).creator_configs@ == old(self).creator_configs@
                    &&& final(self).next_item_id == old(self).next_item_id
                    &&& final(self).config == old(self).config
                    &&& final(self).events@ == old(self).events@.push(LicenseEvent::LicenseAttrsUpdated { template_hash })
                },
            },
    {
        let caller = match ensure_signed(&origin) {
            Ok(c) => c,
            Err(_) => return Err(LicenseError::BadOrigin),
        };
        let (creator, cur_royalty, cur_transferable, cur_derivative_allowed) = match self.templates.get(&template_hash) {
            Some(d) => (d.original_creator, d.royalty_pct_bp, d.transferable, d.derivative_allowed),
            None => return Err(LicenseError::LicenseNotFound),
        };
        if creator != caller {
            return Err(LicenseError::Unauthorized);
        }
        let royalty = match new_royalty_pct_bp { Some(x) => x, None => cur_royalty };
        let transferable = match new_transferable { Some(x) => x, None => cur_transferable };
        let derivative_allowed = match new_derivative_allowed { Some(x) => x, None => cur_derivative_allowed };
        if new_royalty_pct_bp.is_some() && royalty > MAX_ROYALTY_BP {
            return Err(LicenseError::InvalidRoyaltyPct);
        }
        if new_royalty_pct_bp.is_some() && royalty > 0 && !transferable {
            return Err(LicenseError::InvalidLicenseAttrs);
        }
        if new_transferable == Some(false) && royalty != 0 {
            return Err(LicenseError::InvalidLicenseAttrs);
        }
        if new_derivative_share_alike == Some(true) && !derivative_allowed {
            return Err(LicenseError::InvalidLicenseAttrs);
        }
        let (pos, d) = self.templates.take(&template_hash).unwrap();
        assert(d == old(self).templates@[template_hash]);
        let share_alike = match new_derivative_share_alike {
            Some(x) => x,
            None => if new_derivative_allowed == Some(false) { false } else { d.derivative_share_alike },
        };
        let max_prints = match new_max_prints { Some(x) => x, None => d.max_prints };
        let max_copies = match new_max_copies { Some(x) => x, None => d.max_copies };
        let updated = LicenseData {
            royalty_pct_bp: royalty,
            transferable,
            derivative_allowed,
            derivative_share_alike: share_alike,
            max_prints,
            max_copies,
            ..d
        };
        self.templates.put_back(pos, template_hash, updated);
        proof {
            assert(self.templates@ =~= old(self).templates@.insert(template_hash, updated));
        }
        self.events.push(LicenseEvent::LicenseAttrsUpdated { template_hash });
        Ok(())
    }

    /// Remove a license and its custody record (admin origin only).
    pub fn revoke_license(&mut self, origin: Origin, item_id: u32) -> (r: Result<(), LicenseError>)
        requires
            old(self).wf(),
        ensures
            final(self).wf(),
            old(self).claimed_kept(final(self)),
            !old(self).config.admin_origin.allows(origin) ==> r == Err::<(), LicenseError>(LicenseError::BadOrigin) && *final(self) == *old(self),
            old(self).config.admin_origin.allows(origin) && !old(self).licenses@.contains_key(item_id) ==> r == Err::<(), LicenseError>(LicenseError::LicenseNotFound) && *final(self) == *old(self),
            old(self).config.admin_origin.allows(origin) && old(self).licenses@.contains_key(item_id) ==> {
                &&& r is Ok
                &&& final(self).licenses@ == old(self).licenses@.remove(item_id)
                &&& final(self).custody_queue@ == old(self).custody_queue@.remove(item_id)
                &&& final(self).templates@ == old(self).templates@
                &&& final(self).creator_configs@ == old(self).creator_configs@
                &&& final(self).next_item_id == old(self).next_item_id
                &&& final(self).config == old(self).config
                &&& final(self).events@ == old(self).events@.push(LicenseEvent::LicenseRevoked { item_id })
            },
    {
        if self.config.admin_origin.ensure_origin(&origin).is_err() {
            return Err(LicenseError::BadOrigin);
        }
        if !self.licenses.contains_key(&item_id) {
            return Err(LicenseError::LicenseNotFound);
        }
        let _ = self.licenses.remove(&item_id);
        let _ = self.custody_queue.remove(&item_id);
        self.events.push(LicenseEvent::LicenseRevoked { item_id });
        Ok(())
    }

    /// The error `claim_custody_license` reports, if any.
    pub open spec fn claim_error(&self, origin: Origin, now: BlockNumber, item_id: u32, claim_nonce: u64) -> Option<LicenseError> {
        if !(origin is Signed) {
            Some(LicenseError::BadOrigin)
        } else if !self.custody_queue@.contains_key(item_id) {
            Some(LicenseError::NotCustodyOwned)
        } else if self.custody_queue@[item_id].claimed {
            Some(LicenseError::AlreadyClaimed)
        } else if self.custody_queue@[item_id].claim_nonce != claim_nonce {
            Some(LicenseError::CustodySignatureInvalid)
        } else if !self.licenses@.contains_key(item_id) {
            Some(LicenseError::LicenseNotFound)
        } else if self.licenses@[item_id].expires_at matches Some(e) && now >= e {
            Some(LicenseError::LicenseExpired)
        } else {
            None
        }
    }

    /// Claim a license held in custody: with the expected nonce, the caller becomes its
    /// owner and the custody record is marked claimed.
    pub fn claim_custody_license(&mut self, origin: Origin, now: BlockNumber, item_id: u32, claim_nonce: u64) -> (r: Result<(), LicenseError>)
        requires
            old(self).wf(),
        ensures
            final(self).wf(),
            old(self).claimed_kept(final(self)),
            match old(self).claim_error(origin, now, item_id, claim_nonce) {
                Some(e) => r == Err::<(), LicenseError>(e) && *final(self) == *old(self),
                None => {
                    let new_owner = origin->Signed_0;
                    &&& r is Ok
                    &&& final(self).custody_queue@ == old(self).custody_queue@.insert(item_id, CustodyRecord {
                        claimed: true, ..old(self).custody_queue@[item_id]
                    })
                    &&& final(self).licenses@ == old(self).licenses@.insert(item_id, LicenseData {
                        current_owner: new_owner, ..old(self).licenses@[item_id]
                    })
                    &&& final(self).templates@ == old(self).templates@
                    &&& final(self).creator_configs@ == old(self).creator_configs@
                    &&& final(self).next_item_id == old(self).next_item_id
                    &&& final(self).config == old(self).config
                    &&& final(self).events@ == old(self).events@.push(LicenseEvent::LicenseClaimedFromCustody { item_id, new_owner })
                },
            },
    {
        let new_owner = match ensure_signed(&origin) {
            Ok(c) => c,
            Err(_) => return Err(LicenseError::BadOrigin),
        };
        let custody = match self.custody_queue.get(&item_id) {
            Some(c) => *c,
            None => return Err(LicenseError::NotCustodyOwned),
        };
        if custody.claimed {
            return Err(LicenseError::AlreadyClaimed);
        }
        if custody.claim_nonce != claim_nonce {
            return Err(LicenseError::CustodySignatureInvalid);
        }
        let expires = match self.licenses.get(&item_id) {
            Some(l) => l.expires_at,
            None => return Err(LicenseError::LicenseNotFound),
        };
        match expires {
            Some(e) => {
                if now >= e {
                    return Err(LicenseError::LicenseExpired);
                }
            },
            None => {},
        }
        self.custody_queue.insert(item_id, CustodyRecord { claimed: true, ..custody });
        let (pos, l) = self.licenses.take(&item_id).unwrap();
        let updated = LicenseData { current_owner: new_owner, ..l };
        self.licenses.put_back(pos, item_id, updated);
        proof {
            assert(self.licenses@ =~= old(self).licenses@.insert(item_id, updated));
        }
        self.events.push(LicenseEvent::LicenseClaimedFromCustody { item_id, new_owner });
        Ok(())
    }

    /// The error `burn_license` reports, if any.
    pub open spec fn burn_error(&self, origin: Origin, item_id: u32) -> Option<LicenseError> {
        if !(origin is Signed) {
            Some(LicenseError::BadOrigin)
        } else if !self.licenses@.contains_key(item_id) {
            Some(LicenseError::LicenseNotFound)
        } else if self.licenses@[item_id].current_owner != origin->Signed_0 {
            Some(LicenseError::Unauthorized)
        } else {
            None
        }
    }

    /// Burn a license; only its current owner may.
    pub fn burn_license(&mut self, origin: Origin, item_id: u32) -> (r: Result<(), LicenseError>)
        requires
            old(self).wf(),
        ensures
            final(self).wf(),
            old(self).claimed_kept(final(self)),
            match old(self).burn_error(origin, item_id) {
                Some(e) => r == Err::<(), LicenseError>(e) && *final(self) == *old(self),
                None => {
                    &&& r is Ok
                    &&& final(self).licenses@ == old(self).licenses@.remove(item_id)
                    &&& final(self).custody_queue@ == old(self).custody_queue@.remove(item_id)
                    &&& final(self).templates@ == old(self).templates@
                    &&& final(self).creator_configs@ == old(self).creator_configs@
                    &&& final(self).next_item_id == old(self).next_item_id
                    &&& final(self).config == old(self).config
                    &&& final(self).events@ == old(self).events@.push(LicenseEvent::LicenseBurned { item_id, owner: origin->Signed_0 })
                },
            },
    {
        let who = match ensure_signed(&origin) {
            Ok(c) => c,
            Err(_) => return Err(LicenseError::BadOrigin),
        };
        let owner = match self.licenses.get(&item_id) {
            Some(l) => l.current_owner,
            None => return Err(LicenseError::LicenseNotFound),
        };
        if owner != who {
            return Err(LicenseError::Unauthorized);
        }
        let _ = self.licenses.remove(&item_id);
        let _ = self.custody_queue.remove(&item_id);
        self.events.push(LicenseEvent::LicenseBurned { item_id, owner: who });
        Ok(())
    }

    /// Set the caller's default royalty settings (at most 2500 bp).
    pub fn set_creator_config(&mut self, origin: Origin, default_pct_bp: u16, payout_address: AccountId, preferred_asset: RoyaltyAsset) -> (r: Result<(), LicenseError>)
        requires
            old(self).wf(),
        ensures
            final(self).wf(),
            old(self).claimed_kept(final(self)),
            !(origin is Signed) ==> r == Err::<(), LicenseError>(LicenseError::BadOrigin) && *final(self) == *old(self),
            origin is Signed && default_pct_bp > MAX_ROYALTY_BP ==> r == Err::<(), LicenseError>(LicenseError::InvalidRoyaltyPct) && *final(self) == *old(self),
            origin is Signed && default_pct_bp <= MAX_ROYALTY_BP ==> {
                &&& r is Ok
                &&& final(self).creator_configs@ == old(self).creator_configs@.insert(origin->Signed_0,
                    CreatorRoyaltyConfig { default_pct_bp, payout_address, preferred_asset })
                &&& final(self).licenses@ == old(self).licenses@
                &&& final(self).custody_queue@ == old(self).custody_queue@
                &&& final(self).templates@ == old(self).templates@
                &&& final(self).next_item_id == old(self).next_item_id
                &&& final(self).config == old(self).config
                &&& final(self).events@ == old(self).events@.push(LicenseEvent::CreatorConfigSet { creator: origin->Signed_0 })
            },
    {
        let creator = match ensure_signed(&origin) {
            Ok(c) => c,
            Err(_) => return Err(LicenseError::BadOrigin),
        };
        if default_pct_bp > MAX_ROYALTY_BP {
            return Err(LicenseError::InvalidRoyaltyPct);
        }
        self.creator_configs.insert(creator, CreatorRoyaltyConfig { default_pct_bp, payout_address, preferred_asset });
        self.events.push(LicenseEvent::CreatorConfigSet { creator });
        Ok(())
    }

    /// Whether the license of `item_id` may be resold (`false` when there is none).
    pub fn is_transferable(&self, item_id: u32) -> (b: bool)
        requires
            self.wf(),
        ensures
            b == (self.licenses@.contains_key(item_id) && self.licenses@[item_id].transferable),
    {
        match self.licenses.get(&item_id) {
            Some(l) => l.transferable,
            None => false,
        }
    }

    /// The creator and royalty rate of `item_id`, when it exists and carries a royalty.
    pub fn royalty_info(&self, item_id: u32) -> (r: Option<(AccountId, u16)>)
        requires
            self.wf(),
        ensures
            r == (if self.licenses@.contains_key(item_id) && self.licenses@[item_id].royalty_pct_bp > 0 {
                Some((self.licenses@[item_id].original_creator, self.licenses@[item_id].royalty_pct_bp))
            } else {
                None::<(AccountId, u16)>
            }),
    {
        match self.licenses.get(&item_id) {
            Some(l) => {
                if l.royalty_pct_bp > 0 {
                    Some((l.original_creator, l.royalty_pct_bp))
                } else {
                    None
                }
            },
            None => None,
        }
    }

    /// Whether the license of `k` has expired by block `n`.
    pub open spec fn expired_pred(&self, n: BlockNumber) -> spec_fn(u32) -> bool {
        |k: u32| self.licenses@.contains_key(k) && (self.licenses@[k].expires_at matches Some(e) && n >= e)
    }

    /// Whether the sweep runs at block `n`: every hundredth block (a height beyond 32 bits
    /// counts as zero).
    pub open spec fn sweep_due(n: BlockNumber) -> bool {
        (if n <= u32::MAX { n as int } else { 0int }) % (SWEEP_INTERVAL as int) == 0
    }

    /// The licenses expired at block `n`, in table order.
    pub open spec fn expired_items(&self, n: BlockNumber) -> Seq<u32> {
        self.licenses.keys_seq().filter(self.expired_pred(n))
    }

    /// The effect of a sweep that removes `items`: the licenses and their custody records
    /// gone, one `LicenseExpired` event each, in order, and `swept` their number.
    pub open spec fn sweep_outcome(old_s: &Self, new_s: &Self, items: Seq<u32>, swept: u32) -> bool {
        &&& swept == items.len()
        &&& new_s.licenses@ == old_s.licenses@.remove_keys(items.to_set())
        &&& new_s.custody_queue@ == old_s.custody_queue@.remove_keys(items.to_set())
        &&& new_s.templates@ == old_s.templates@
        &&& new_s.creator_configs@ == old_s.creator_configs@
        &&& new_s.next_item_id == old_s.next_item_id
        &&& new_s.config == old_s.config
        &&& new_s.events@ == old_s.events@ + items.map_values(|k: u32| LicenseEvent::LicenseExpired { item_id: k })
    }

    /// The first 50 expired licenses in table order: one choice a sweep may make.
    pub open spec fn swept_items(&self, n: BlockNumber) -> Seq<u32> {
        let f = self.licenses.keys_seq().filter(self.expired_pred(n));
        if f.len() <= MAX_SWEEP_PER_BLOCK { f } else { f.take(MAX_SWEEP_PER_BLOCK as int) }
    }

    /// The sweep removing the table-order choice `swept_items`.
    fn sweep_in_order(&mut self, n: BlockNumber) -> (swept: u32)
        requires
            old(self).wf(),
        ensures
            final(self).wf(),
            !Self::sweep_due(n) ==> swept == 0 && *final(self) == *old(self),
            Self::sweep_due(n) ==> {
                let items = old(self).swept_items(n);
                &&& swept == items.len()
                &&& final(self).licenses@ == old(self).licenses@.remove_keys(items.to_set())
                &&& final(self).custody_queue@ == old(self).custody_queue@.remove_keys(items.to_set())
                &&& final(self).templates@ == old(self).templates@
                &&& final(self).creator_configs@ == old(self).creator_configs@
                &&& final(self).next_item_id == old(self).next_item_id
                &&& final(self).config == old(self).config
                &&& final(self).events@ == old(self).events@ + items.map_values(|k: u32| LicenseEvent::LicenseExpired { item_id: k })
            },
    {
        let n32: u32 = if n <= u32::MAX as u64 { n as u32 } else { 0 };
        if n32 % SWEEP_INTERVAL != 0 {
            return 0;
        }
        let ghost keys = self.licenses.keys_seq();
        let ghost pred = self.expired_pred(n);
        proof {
            self.licenses.lemma_view();
        }
        let mut to_remove: Vec<u32> = Vec::new();
        let len = self.licenses.len();
        let mut i: usize = 0;
        while i < len
            invariant
                self.licenses.wf(),
                *self == *old(self),
                len == keys.len(),
                keys == self.licenses.keys_seq(),
                pred == self.expired_pred(n),
                0 <= i <= len,
                to_remove@ == keys.subrange(0, i as int).filter(pred),
                to_remove@.len() <= MAX_SWEEP_PER_BLOCK,
            ensures
                0 <= i <= len,
                to_remove@ == keys.subrange(0, i as int).filter(pred),
                to_remove@.len() <= MAX_SWEEP_PER_BLOCK,
                i < len ==> to_remove@.len() == MAX_SWEEP_PER_BLOCK,
            decreases len - i,
        {
            if to_remove.len() >= MAX_SWEEP_PER_BLOCK as usize {
                break;
            }
            let k = *self.licenses.key_at(i);
            let expires = self.licenses.value_at(i).expires_at;
            proof {
                reveal(Seq::filter);
                self.licenses.lemma_view();
                assert(keys[i as int] == self.licenses.entries_seq()[i as int].0);
                assert(keys.subrange(0, i + 1).drop_last() =~= keys.subrange(0, i as int));
                assert(keys.subrange(0, i + 1).last() == k);
                assert(keys[i as int] == k);
                assert(self.licenses@.contains_key(k));
                assert(self.licenses@[k] == self.licenses.entries_seq()[i as int].1);
                assert(pred(k) == (expires matches Some(e) && n >= e));
                assert(keys.subrange(0, i + 1).filter(pred) == (if pred(k) {
                    keys.subrange(0, i as int).filter(pred).push(k)
                } else {
                    keys.subrange(0, i as int).filter(pred)
                }));
            }
            match expires {
                Some(e) => {
                    if n >= e {
                        to_remove.push(k);
                    }
                },
                None => {},
            }
            i = i + 1;
        }
        proof {
            let f = keys.filter(pred);
            keys.subrange(0, i as int).lemma_filter_len(pred);
            assert(keys =~= keys.subrange(0, i as int) + keys.subrange(i as int, keys.len() as int));
            Seq::filter_distributes_over_add(keys.subrange(0, i as int), keys.subrange(i as int, keys.len() as int), pred);
            if i == len {
                assert(keys.subrange(0, i as int) =~= keys);
            }
            assert(to_remove@ == old(self).swept_items(n)) by {
                if i < len {
                    assert(to_remove@.len() == MAX_SWEEP_PER_BLOCK);
                    assert(f.take(MAX_SWEEP_PER_BLOCK as int) =~= to_remove@);
                } else {
                    if f.len() > MAX_SWEEP_PER_BLOCK {
                        assert(false);
                    }
                }
            }
        }
        let ghost items = to_remove@;
        let count = to_remove.len();
        let mut j: usize = 0;
        while j < count
            invariant
                self.wf(),
                count == items.len(),
                items == to_remove@,
                0 <= j <= count,
                self.licenses@ == old(self).licenses@.remove_keys(items.subrange(0, j as int).to_set()),
                self.custody_queue@ == old(self).custody_queue@.remove_keys(items.subrange(0, j as int).to_set()),
                self.templates@ == old(self).templates@,
                self.creator_configs@ == old(self).creator_configs@,
                self.next_item_id == old(self).next_item_id,
                self.config == old(self).config,
                self.events@ == old(self).events@ + items.subrange(0, j as int).map_values(|k: u32| LicenseEvent::LicenseExpired { item_id: k }),
            decreases count - j,
        {
            let k = to_remove[j];
            let _ = self.licenses.remove(&k);
            let _ = self.custody_queue.remove(&k);
            self.events.push(LicenseEvent::LicenseExpired { item_id: k });
            proof {
                let s0 = items.subrange(0, j as int);
                let s1 = items.subrange(0, j + 1);
                assert(s1 =~= s0.push(k));
                assert(s1.to_set() =~= s0.to_set().insert(k)) by {
                    s0.lemma_push_to_set_commute(k);
                }
                assert(self.licenses@ =~= old(self).licenses@.remove_keys(s1.to_set()));
                assert(self.custody_queue@ =~= old(self).custody_queue@.remove_keys(s1.to_set()));
                assert(s1.map_values(|k: u32| LicenseEvent::LicenseExpired { item_id: k }) =~= s0.map_values(|k: u32| LicenseEvent::LicenseExpired { item_id: k }).push(LicenseEvent::LicenseExpired { item_id: k }));
            }
            j = j + 1;
        }
        proof {
            assert(items.subrange(0, count as int) =~= items);
        }
        count as u32
    }

    /// Start-of-block hook: every hundredth block, remove 50 expired licenses (all of them
    /// when fewer have expired; which ones, when more have, is left open) with their
    /// custody records. Returns how many were removed.
    pub fn on_initialize(&mut self, n: BlockNumber) -> (swept: u32)
        requires
            old(self).wf(),
        ensures
            final(self).wf(),
            old(self).claimed_kept(final(self)),
            !Self::sweep_due(n) ==> swept == 0 && *final(self) == *old(self),
            Self::sweep_due(n) ==> exists|items: Seq<u32>|
                is_selection(items, old(self).expired_items(n), MAX_SWEEP_PER_BLOCK as int)
                && #[trigger] Self::sweep_outcome(old(self), final(self), items, swept),
    {
        proof {
            let lim = MAX_SWEEP_PER_BLOCK as int;
            let f = old(self).expired_items(n);
            old(self).licenses.lemma_keys();
            lemma_filter_no_duplicates(old(self).licenses.keys_seq(), old(self).expired_pred(n));
            lemma_prefix_is_selection(f, lim);
            assert(old(self).swept_items(n) =~= f.take(if f.len() <= lim { f.len() as int } else { lim }));
        }
        let swept = self.sweep_in_order(n);
        proof {
            if Self::sweep_due(n) {
                assert(Self::sweep_outcome(old(self), self, old(self).swept_items(n), swept));
            }
        }
        swept
    }
}

/// Every license and every template the registry holds obeys the attribute rules: the
/// calls that store terms check them, and the calls that change terms keep them.
pub proof fn lemma_stored_terms_obey_rules(s: Licenses, item_id: u32, template_hash: Hash32)
    requires
        s.wf(),
    ensures
        s.licenses@.contains_key(item_id) ==> attrs_error(
            s.licenses@[item_id].license_type, s.licenses@[item_id].royalty_pct_bp,
            s.licenses@[item_id].transferable, s.licenses@[item_id].exclusive_burns_original,
            s.licenses@[item_id].derivative_allowed, s.licenses@[item_id].derivative_share_alike,
            s.licenses@[item_id].expires_at,
        ) is None,
        s.templates@.contains_key(template_hash) ==> attrs_error(
            s.templates@[template_hash].license_type, s.templates@[template_hash].royalty_pct_bp,
            s.templates@[template_hash].transferable, s.templates@[template_hash].exclusive_burns_original,
            s.templates@[template_hash].derivative_allowed, s.templates@[template_hash].derivative_share_alike,
            s.templates@[template_hash].expires_at,
        ) is None,
{
}

/// A custody license is claimed once: once its record is marked claimed, every call keeps
/// the record as it is or removes it together with its license (`claimed_kept`), and while
/// it stands every further signed claim of it is refused with `AlreadyClaimed`, whatever
/// nonce it carries (once it is gone, with `NotCustodyOwned`).
pub proof fn lemma_custody_claimed_once(s: Licenses, origin: Origin, now: BlockNumber, item_id: u32, claim_nonce: u64)
    requires
        origin is Signed,
        s.custody_queue@.contains_key(item_id),
        s.custody_queue@[item_id].claimed,
    ensures
        s.claim_error(origin, now, item_id, claim_nonce) == Some(LicenseError::AlreadyClaimed),
{
}

/// Weights of the license calls: a base time plus the storage reads and writes of the
/// runtime's database.
#[derive(Clone, Copy, Debug)]
pub struct SubstrateWeight {
    pub db: RuntimeDbWeight,
}

impl SubstrateWeight {
    pub fn create_license_template(&self) -> (wt: Weight)
        ensures
            wt.ref_time == rw_cost(self.db, 15000000, 1, 1),
            wt.proof_size == 0,
    {
        base_reads_writes(self.db, 15000000, 1, 1)
    }

    pub fn mint_license(&self) -> (wt: Weight)
        ensures
            wt.ref_time == rw_cost(self.db, 20000000, 2, 2),
            wt.proof_size == 0,
    {
        base_reads_writes(self.db, 20000000, 2, 2)
    }

    pub fn update_license_attrs(&self) -> (wt: Weight)
        ensures
            wt.ref_time == rw_cost(self.db, 15000000, 1, 1),
            wt.proof_size == 0,
    {
        base_reads_writes(self.db, 15000000, 1, 1)
    }

    pub fn revoke_license(&self) -> (wt: Weight)
        ensures
            wt.ref_time == rw_cost(self.db, 12000000, 1, 1),
            wt.proof_size == 0,
    {
        base_reads_writes(self.db, 12000000, 1, 1)
    }

    pub fn claim_custody_license(&self) -> (wt: Weight)
        ensures
            wt.ref_time == rw_cost(self.db, 18000000, 2, 2),
            wt.proof_size == 0,
    {
        base_reads_writes(self.db, 18000000, 2, 2)
    }

    pub fn burn_license(&self) -> (wt: Weight)
        ensures
            wt.ref_time == rw_cost(self.db, 12000000, 1, 1),
            wt.proof_size == 0,
    {
        base_reads_writes(self.db, 12000000, 1, 1)
    }

    pub fn set_creator_config(&self) -> (wt: Weight)
        ensures
            wt.ref_time == rw_cost(self.db, 10000000, 0, 1),
            wt.proof_size == 0,
    {
        base_reads_writes(self.db, 10000000, 0, 1)
    }

    /// The weight of sweeping `n` expired licenses: 10 microseconds plus 1 microsecond, a read and a write
    /// per license.
    pub fn sweep_expired(&self, n: u32) -> (wt: Weight)
        ensures
            wt.ref_time == rw_cost(self.db, 10_000_000 + 1_000_000 * n, n as int, n as int),
            wt.proof_size == 0,
    {
        let base = 10_000_000u64 + 1_000_000u64 * (n as u64);
        base_reads_writes(self.db, base, n as u64, n as u64)
    }
}

} // verus!
