//! Types shared by the pallets: accounts, balances, block numbers, hashes and origins.

use vstd::prelude::*;

verus! {

/// An account identifier.
pub type AccountId = u64;

/// An amount of currency.
pub type Balance = u128;

/// A block height.
pub type BlockNumber = u64;

/// A 32-byte digest.
pub type Hash32 = [u8; 32];

/// Who dispatched a call.
#[derive(Clone, Copy, Debug, PartialEq, Eq, Structural)]
pub enum Origin {
    /// The root (sudo / governance) origin.
    Root,
    /// A signed extrinsic from the given account.
    Signed(AccountId),
    /// An unsigned dispatch.
    Unsigned,
}

/// The failure of an origin check.
#[derive(Clone, Copy, Debug, PartialEq, Eq, Structural)]
pub struct BadOrigin;

/// Which origins a privileged call admits.
#[derive(Clone, Copy, Debug, PartialEq, Eq, Structural)]
pub enum OriginRule {
    /// Only the root origin.
    Root,
    /// Any signed origin.
    AnySigned,
    /// Only the given signed account.
    SignedBy(AccountId),
}

impl OriginRule {
    /// Whether the rule admits `o`.
    pub open spec fn allows(self, o: Origin) -> bool {
        match self {
            OriginRule::Root => o == Origin::Root,
            OriginRule::AnySigned => o is Signed,
            OriginRule::SignedBy(a) => o == Origin::Signed(a),
        }
    }

    /// Check `o` against the rule.
    pub fn ensure_origin(&self, o: &Origin) -> (r: Result<(), BadOrigin>)
        ensures
            r is Ok <==> self.allows(*o),
    {
        match (self, o) {
            (OriginRule::Root, Origin::Root) => Ok(()),
            (OriginRule::AnySigned, Origin::Signed(_)) => Ok(()),
            (OriginRule::SignedBy(a), Origin::Signed(b)) => {
                if *a == *b {
                    Ok(())
                } else {
                    Err(BadOrigin)
                }
            },
            _ => Err(BadOrigin),
        }
    }
}

/// The signer of `o`, if it is signed.
pub fn ensure_signed(o: &Origin) -> (r: Result<AccountId, BadOrigin>)
    ensures
        match *o {
            Origin::Signed(a) => r == Ok::<AccountId, BadOrigin>(a),
            _ => r is Err,
        },
{
    match o {
        Origin::Signed(a) => Ok(*a),
        _ => Err(BadOrigin),
    }
}

/// Succeeds exactly for the root origin.
pub fn ensure_root(o: &Origin) -> (r: Result<(), BadOrigin>)
    ensures
        r is Ok <==> *o == Origin::Root,
{
    match o {
        Origin::Root => Ok(()),
        _ => Err(BadOrigin),
    }
}

/// `a - b`, or zero when `b > a`.
pub open spec fn sat_sub(a: int, b: int) -> int {
    if a >= b {
        a - b
    } else {
        0
    }
}

/// `a + b`, capped at `max`.
pub open spec fn sat_add(a: int, b: int, max: int) -> int {
    if a + b <= max {
        a + b
    } else {
        max
    }
}

/// The account a pallet derives from its 8-byte pallet id (the `AccountIdConversion`
/// of the runtime for 64-bit account ids): the little-endian value of the bytes
/// `"modl"` followed by the first four bytes of the id.
pub open spec fn pallet_account_spec(id: Seq<u8>) -> int {
    0x6c646f6d + id[0] * 0x1_0000_0000 + id[1] * 0x1_0000_0000_00 + id[2]
        * 0x1_0000_0000_0000 + id[3] * 0x1_0000_0000_0000_00
}

/// Derive a pallet's account from its 8-byte pallet id.
pub fn pallet_account(id: &[u8; 8]) -> (a: AccountId)
    ensures
        a as int == pallet_account_spec(id@),
{
    let b0: u64 = id[0] as u64;
    let b1: u64 = id[1] as u64;
    let b2: u64 = id[2] as u64;
    let b3: u64 = id[3] as u64;
    0x6c646f6du64 + b0 * 0x1_0000_0000u64 + b1 * 0x1_0000_0000_00u64 + b2 * 0x1_0000_0000_0000u64 + b3
        * 0x1_0000_0000_0000_00u64
}

} // verus!
