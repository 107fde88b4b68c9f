//! Hashing and signature primitives of the chain, provided by `sp-io`.

use vstd::prelude::*;

verus! {

/// The 32-byte BLAKE2b digest that `sp_io::hashing::blake2_256` computes of `data`.
pub uninterp spec fn blake2_256_of(data: Seq<u8>) -> Seq<u8>;

/// The two verdicts `sp_io::crypto::ed25519_verify` chooses between on `sig` over `msg`
/// under `public`: the first that of `ed25519-dalek` (taken inside externalities that
/// register its extension), the second that of `sp_core::ed25519::Pair::verify`
/// (taken elsewhere). Each is a function of the three byte strings.
pub uninterp spec fn ed25519_verdicts(sig: Seq<u8>, msg: Seq<u8>, public: Seq<u8>) -> (bool, bool);

/// The 32-byte array whose bytes are `s`.
pub open spec fn digest(s: Seq<u8>) -> [u8; 32] {
    choose|h: [u8; 32]| h@ == s
}

/// An array is the digest of its own bytes.
pub proof fn lemma_digest(h: [u8; 32])
    ensures
        digest(h@) == h,
{
    let d = digest(h@);
    assert(d@ == h@);
    assert(d =~= h);
}

/// Calls `sp_io::hashing::blake2_256`. Trusted: the result is the named digest of the
/// input bytes (a pure function of them); nothing more is claimed of it.
#[verifier::external_body]
pub(crate) fn blake2_256(data: &[u8]) -> (out: [u8; 32])
    ensures
        out@ == blake2_256_of(data@),
{
    sp_io::hashing::blake2_256(data)
}

/// Calls `sp_io::crypto::ed25519_verify` on a raw signature and public key. Trusted: the
/// answer is one of the two verdicts of `ed25519_verdicts` on the three byte strings.
/// Which one is not stated: inside externalities that register the dalek extension the
/// check runs on `ed25519-dalek`, elsewhere on `sp_core::ed25519::Pair::verify`, and the
/// two may disagree on malformed keys or signatures.
#[verifier::external_body]
pub(crate) fn ed25519_verify(sig: &[u8; 64], msg: &[u8], public: &[u8; 32]) -> (ok: bool)
    ensures
        ok == ed25519_verdicts(sig@, msg@, public@).0 || ok == ed25519_verdicts(sig@, msg@, public@).1,
{
    let s = sp_core::ed25519::Signature::from_raw(*sig);
    let p = sp_core::ed25519::Public::from_raw(*public);
    sp_io::crypto::ed25519_verify(&s, msg, &p)
}

} // verus!
