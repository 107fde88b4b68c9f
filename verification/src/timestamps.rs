//! Timestamping: event hashes are buffered, and once per aggregation interval the
//! buffer is committed as the root of a binary Merkle tree; anyone can then check that
//! an event hash is included under a committed root with a Merkle proof.

use vstd::prelude::*;
use crate::common::{BlockNumber, Hash32, Origin, sat_add};
use crate::crypto::{blake2_256, blake2_256_of, digest, lemma_digest};
use crate::scale::push_raw;
use crate::table::Table;

verus! {

/// Events of the timestamps pallet.
#[derive(Clone, Copy, Debug)]
pub enum TimestampsEvent {
    EventBuffered { event_hash: Hash32 },
    TimestampRootCommitted { block_number: BlockNumber, merkle_root: Hash32, event_count: u32 },
    TimestampVerified { block_number: BlockNumber, event_hash: Hash32, valid: bool },
}

/// Errors of the timestamps pallet.
#[derive(Clone, Copy, Debug, PartialEq, Eq, Structural)]
pub enum TimestampsError {
    BadOrigin,
    EventBufferFull,
    MerkleRootNotFound,
    AggregationNotDue,
    EmptyBuffer,
    ProofTooLong,
    InvalidProof,
}

/// Constants of the timestamps pallet.
#[derive(Clone, Copy, Debug)]
pub struct TimestampsConfig {
    /// Blocks between two commitments.
    pub aggregation_interval: BlockNumber,
    /// Most buffered hashes.
    pub max_event_buffer: u32,
    /// Longest Merkle proof.
    pub max_proof_depth: u32,
}

/// The timestamps storage.
pub struct Timestamps {
    pub config: TimestampsConfig,
    /// Committed roots by block.
    pub merkle_roots: Table<BlockNumber, Hash32>,
    /// Hashes waiting for the next commitment, oldest first.
    pub event_buffer: Vec<Hash32>,
    /// Block of the last commitment.
    pub last_aggregation: BlockNumber,
    /// Deposited events, oldest first.
    pub events: Vec<TimestampsEvent>,
}

/// An inner node of the tree: the BLAKE2-256 digest of its two children, left first.
pub open spec fn node(left: Hash32, right: Hash32) -> Hash32 {
    digest(blake2_256_of(left@ + right@))
}

/// The root of an empty tree: the BLAKE2-256 digest of the encoded byte `0`.
pub open spec fn empty_root() -> Hash32 {
    digest(blake2_256_of(seq![0u8]))
}

/// The layer above `l`: each pair hashed, an odd last element paired with itself.
pub open spec fn next_layer(l: Seq<Hash32>) -> Seq<Hash32> {
    Seq::new(((l.len() + 1) / 2) as nat, |k: int| node(l[2 * k], if 2 * k + 1 < l.len() { l[2 * k + 1] } else { l[2 * k] }))
}

/// The Merkle root of the leaves.
pub open spec fn merkle_root(l: Seq<Hash32>) -> Hash32
    decreases l.len(),
{
    if l.len() == 0 {
        empty_root()
    } else if l.len() == 1 {
        l[0]
    } else {
        merkle_root(next_layer(l))
    }
}

/// One step up a proof: the sibling goes left when its flag is set.
pub open spec fn proof_step(current: Hash32, step: (Hash32, bool)) -> Hash32 {
    if step.1 {
        node(step.0, current)
    } else {
        node(current, step.0)
    }
}

/// The root a proof leads to from a leaf.
pub open spec fn fold_proof(current: Hash32, proof: Seq<(Hash32, bool)>) -> Hash32
    decreases proof.len(),
{
    if proof.len() == 0 {
        current
    } else {
        fold_proof(proof_step(current, proof[0]), proof.drop_first())
    }
}

/// The proof of the leaf at `i`: its sibling on each layer, from the leaves up.
pub open spec fn merkle_path(l: Seq<Hash32>, i: int) -> Seq<(Hash32, bool)>
    decreases l.len(),
{
    if l.len() <= 1 {
        Seq::empty()
    } else {
        let sibling = if i % 2 == 1 { l[i - 1] } else if i + 1 < l.len() { l[i + 1] } else { l[i] };
        seq![(sibling, i % 2 == 1)] + merkle_path(next_layer(l), i / 2)
    }
}

/// Every leaf is provably included: the path of the leaf at `i` leads from it to the
/// Merkle root of the leaves.
pub proof fn lemma_merkle_path_verifies(l: Seq<Hash32>, i: int)
    requires
        0 <= i < l.len(),
    ensures
        fold_proof(l[i], merkle_path(l, i)) == merkle_root(l),
    decreases l.len(),
{
    if l.len() > 1 {
        let n = next_layer(l);
        let p = merkle_path(l, i);
        let rest = merkle_path(n, i / 2);
        assert(n[i / 2] == proof_step(l[i], p[0]));
        assert(p.drop_first() =~= rest);
        lemma_merkle_path_verifies(n, i / 2);
    }
}

/// The digest of two hashes, left first.
fn node_hash(left: &Hash32, right: &Hash32) -> (h: Hash32)
    ensures
        h == node(*left, *right),
{
    let mut buf: Vec<u8> = Vec::new();
    push_raw(&mut buf, left);
    push_raw(&mut buf, right);
    let h = blake2_256(buf.as_slice());
    proof {
        lemma_digest(h);
    }
    h
}

/// The layer above `layer`.
fn next_layer_of(layer: &Vec<Hash32>) -> (next: Vec<Hash32>)
    ensures
        next@ == next_layer(layer@),
{
    let len = layer.len();
    let half = len / 2 + len % 2;
    let mut next: Vec<Hash32> = Vec::new();
    let mut k: usize = 0;
    while k < half
        invariant
            len == layer@.len(),
            half == (len + 1) / 2,
            0 <= k <= half,
            next@.len() == k,
            forall|t: int| 0 <= t < k ==> #[trigger] next@[t] == next_layer(layer@)[t],
        decreases half - k,
    {
        let left = layer[2 * k];
        let right = if 2 * k + 1 < len { layer[2 * k + 1] } else { layer[2 * k] };
        let parent = node_hash(&left, &right);
        next.push(parent);
        k = k + 1;
    }
    assert(next@ =~= next_layer(layer@));
    next
}

/// The Merkle root of the leaves.
pub fn compute_merkle_root(leaves: &Vec<Hash32>) -> (root: Hash32)
    ensures
        root == merkle_root(leaves@),
{
    if leaves.len() == 0 {
        let zero: Vec<u8> = vec![0u8];
        let h = blake2_256(zero.as_slice());
        proof {
            assert(zero@ =~= seq![0u8]);
            lemma_digest(h);
        }
        return h;
    }
    if leaves.len() == 1 {
        return leaves[0];
    }
    let mut layer = next_layer_of(leaves);
    while layer.len() > 1
        invariant
            layer@.len() >= 1,
            merkle_root(layer@) == merkle_root(leaves@),
        decreases layer@.len(),
    {
        layer = next_layer_of(&layer);
    }
    layer[0]
}

impl Timestamps {
    /// The roots table is well formed and the buffer within its bound.
    pub open spec fn wf(&self) -> bool {
        &&& self.merkle_roots.wf()
        &&& self.event_buffer@.len() <= self.config.max_event_buffer
    }

    /// An empty pallet.
    pub fn new(config: TimestampsConfig) -> (s: Self)
        ensures
            s.wf(),
            s.config == config,
            s.merkle_roots@ == Map::<BlockNumber, Hash32>::empty(),
            s.event_buffer@ == Seq::<Hash32>::empty(),
            s.last_aggregation == 0,
            s.events@ == Seq::<TimestampsEvent>::empty(),
    {
        Timestamps {
            config,
            merkle_roots: Table::new(),
            event_buffer: Vec::new(),
            last_aggregation: 0,
            events: Vec::new(),
        }
    }

    /// The error `buffer_event` reports, if any.
    pub open spec fn buffer_error(&self, origin: Origin) -> Option<TimestampsError> {
        if !(origin is Signed) {
            Some(TimestampsError::BadOrigin)
        } else if self.event_buffer@.len() >= self.config.max_event_buffer {
            Some(TimestampsError::EventBufferFull)
        } else {
            None
        }
    }

    /// Buffer an event hash for the next commitment (any signed origin).
    pub fn buffer_event(&mut self, origin: Origin, event_hash: Hash32) -> (r: Result<(), TimestampsError>)
        requires
            old(self).wf(),
        ensures
            final(self).wf(),
            match old(self).buffer_error(origin) {
                Some(e) => r == Err::<(), TimestampsError>(e) && *final(self) == *old(self),
                None => {
                    &&& r is Ok
                    &&& final(self).event_buffer@ == old(self).event_buffer@.push(event_hash)
                    &&& final(self).merkle_roots@ == old(self).merkle_roots@
                    &&& final(self).last_aggregation == old(self).last_aggregation
                    &&& final(self).config == old(self).config
                    &&& final(self).events@ == old(self).events@.push(TimestampsEvent::EventBuffered { event_hash })
                },
            },
    {
        match origin {
            Origin::Signed(_) => {},
            _ => return Err(TimestampsError::BadOrigin),
        }
        if self.event_buffer.len() >= self.config.max_event_buffer as usize {
            return Err(TimestampsError::EventBufferFull);
        }
        self.event_buffer.push(event_hash);
        self.events.push(TimestampsEvent::EventBuffered { event_hash });
        Ok(())
    }

    /// The error `commit_timestamp_root` reports, if any.
    pub open spec fn commit_error(&self, origin: Origin, now: BlockNumber) -> Option<TimestampsError> {
        if !(origin is Signed) {
            Some(TimestampsError::BadOrigin)
        } else if now < sat_add(self.last_aggregation as int, self.config.aggregation_interval as int, u64::MAX as int) {
            Some(TimestampsError::AggregationNotDue)
        } else if self.event_buffer@.len() == 0 {
            Some(TimestampsError::EmptyBuffer)
        } else {
            None
        }
    }

    /// Commit the Merkle root of the buffer at block `now` (any signed origin), once the
    /// interval since the last commitment has elapsed; the buffer is emptied.
    pub fn commit_timestamp_root(&mut self, origin: Origin, now: BlockNumber) -> (r: Result<(), TimestampsError>)
        requires
            old(self).wf(),
        ensures
            final(self).wf(),
            match old(self).commit_error(origin, now) {
                Some(e) => r == Err::<(), TimestampsError>(e) && *final(self) == *old(self),
                None => {
                    let root = merkle_root(old(self).event_buffer@);
                    &&& r is Ok
                    &&& final(self).merkle_roots@ == old(self).merkle_roots@.insert(now, root)
                    &&& final(self).event_buffer@ == Seq::<Hash32>::empty()
                    &&& final(self).last_aggregation == now
                    &&& final(self).config == old(self).config
                    &&& final(self).events@ == old(self).events@.push(TimestampsEvent::TimestampRootCommitted {
                        block_number: now, merkle_root: root, event_count: old(self).event_buffer@.len() as u32 })
                },
            },
    {
        match origin {
            Origin::Signed(_) => {},
            _ => return Err(TimestampsError::BadOrigin),
        }
        if now < self.last_aggregation.saturating_add(self.config.aggregation_interval) {
            return Err(TimestampsError::AggregationNotDue);
        }
        if self.event_buffer.len() == 0 {
            return Err(TimestampsError::EmptyBuffer);
        }
        let event_count = self.event_buffer.len() as u32;
        let merkle_root = compute_merkle_root(&self.event_buffer);
        self.merkle_roots.insert(now, merkle_root);
        self.event_buffer = Vec::new();
        self.last_aggregation = now;
        self.events.push(TimestampsEvent::TimestampRootCommitted { block_number: now, merkle_root, event_count });
        Ok(())
    }

    /// The error `verify_timestamp` reports, if any.
    pub open spec fn verify_error(&self, origin: Origin, block_number: BlockNumber) -> Option<TimestampsError> {
        if !(origin is Signed) {
            Some(TimestampsError::BadOrigin)
        } else if !self.merkle_roots@.contains_key(block_number) {
            Some(TimestampsError::MerkleRootNotFound)
        } else {
            None
        }
    }

    /// Check a Merkle proof of `event_hash` against the root committed at `block_number`
    /// (any signed origin); the verdict is announced in the event.
    pub fn verify_timestamp(&mut self, origin: Origin, block_number: BlockNumber, event_hash: Hash32, proof: Vec<(Hash32, bool)>) -> (r: Result<(), TimestampsError>)
        requires
            old(self).wf(),
            proof@.len() <= old(self).config.max_proof_depth,
        ensures
            final(self).wf(),
            match old(self).verify_error(origin, block_number) {
                Some(e) => r == Err::<(), TimestampsError>(e) && *final(self) == *old(self),
                None => {
                    &&& r is Ok
                    &&& final(self).merkle_roots@ == old(self).merkle_roots@
                    &&& final(self).event_buffer@ == old(self).event_buffer@
                    &&& final(self).last_aggregation == old(self).last_aggregation
                    &&& final(self).config == old(self).config
                    &&& final(self).events@ == old(self).events@.push(TimestampsEvent::TimestampVerified {
                        block_number, event_hash,
                        valid: fold_proof(event_hash, proof@) == old(self).merkle_roots@[block_number] })
                },
            },
    {
        match origin {
            Origin::Signed(_) => {},
            _ => return Err(TimestampsError::BadOrigin),
        }
        let stored_root = match self.merkle_roots.get(&block_number) {
            Some(h) => *h,
            None => return Err(TimestampsError::MerkleRootNotFound),
        };
        let mut current = event_hash;
        let mut j: usize = 0;
        assert(proof@.subrange(0, proof@.len() as int) =~= proof@);
        while j < proof.len()
            invariant
                0 <= j <= proof@.len(),
                fold_proof(current, proof@.subrange(j as int, proof@.len() as int)) == fold_proof(event_hash, proof@),
            decreases proof@.len() - j,
        {
            let (sibling, is_left) = proof[j];
            proof {
                let s = proof@.subrange(j as int, proof@.len() as int);
                assert(s[0] == (sibling, is_left));
                assert(s.drop_first() =~= proof@.subrange(j + 1, proof@.len() as int));
            }
            current = if is_left { node_hash(&sibling, &current) } else { node_hash(&current, &sibling) };
            j = j + 1;
        }
        assert(proof@.subrange(0, proof@.len() as int) =~= proof@);
        let valid = crate::table::bytes_eq(&current, &stored_root);
        self.events.push(TimestampsEvent::TimestampVerified { block_number, event_hash, valid });
        Ok(())
    }
}

} // verus!
