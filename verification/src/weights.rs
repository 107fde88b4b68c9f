//! Dispatch weights: a reference time and a proof size, both saturating, and the cost of
//! storage reads and writes.

use vstd::prelude::*;

verus! {

/// The cost of a dispatch.
#[derive(Clone, Copy, Debug, PartialEq, Eq, Structural)]
pub struct Weight {
    /// Computation time, in picoseconds.
    pub ref_time: u64,
    /// Size of the storage proof, in bytes.
    pub proof_size: u64,
}

/// The cost of one storage read and one storage write.
#[derive(Clone, Copy, Debug, PartialEq, Eq, Structural)]
pub struct RuntimeDbWeight {
    pub read: u64,
    pub write: u64,
}

/// The cost of a storage read on a RocksDB backend (25 microseconds).
pub const ROCKS_DB_READ: u64 = 25_000_000;

/// The cost of a storage write on a RocksDB backend (100 microseconds).
pub const ROCKS_DB_WRITE: u64 = 100_000_000;

/// `x`, capped at the largest `u64`.
pub open spec fn capped(x: int) -> u64 {
    if x <= u64::MAX { x as u64 } else { u64::MAX }
}

impl Weight {
    /// A weight of the given parts.
    pub fn from_parts(ref_time: u64, proof_size: u64) -> (w: Weight)
        ensures
            w == (Weight { ref_time, proof_size }),
    {
        Weight { ref_time, proof_size }
    }

    /// The component-wise sum, saturating.
    pub fn saturating_add(self, other: Weight) -> (w: Weight)
        ensures
            w.ref_time == capped(self.ref_time + other.ref_time),
            w.proof_size == capped(self.proof_size + other.proof_size),
    {
        Weight {
            ref_time: self.ref_time.saturating_add(other.ref_time),
            proof_size: self.proof_size.saturating_add(other.proof_size),
        }
    }
}

impl RuntimeDbWeight {
    /// The storage costs of a RocksDB backend.
    pub fn rocks_db() -> (w: RuntimeDbWeight)
        ensures
            w == (RuntimeDbWeight { read: ROCKS_DB_READ, write: ROCKS_DB_WRITE }),
    {
        RuntimeDbWeight { read: ROCKS_DB_READ, write: ROCKS_DB_WRITE }
    }

    /// The cost of `n` reads.
    pub fn reads(&self, n: u64) -> (w: Weight)
        ensures
            w.ref_time == capped(self.read * n),
            w.proof_size == 0,
    {
        let t = match self.read.checked_mul(n) {
            Some(v) => v,
            None => u64::MAX,
        };
        Weight { ref_time: t, proof_size: 0 }
    }

    /// The cost of `n` writes.
    pub fn writes(&self, n: u64) -> (w: Weight)
        ensures
            w.ref_time == capped(self.write * n),
            w.proof_size == 0,
    {
        let t = match self.write.checked_mul(n) {
            Some(v) => v,
            None => u64::MAX,
        };
        Weight { ref_time: t, proof_size: 0 }
    }
}

/// A base time plus `r` reads and `w` writes, all capped at the largest `u64`.
pub open spec fn rw_cost(db: RuntimeDbWeight, base: int, r: int, w: int) -> u64 {
    capped(base + db.read * r + db.write * w)
}

/// `base` plus `r` reads and `w` writes.
pub fn base_reads_writes(db: RuntimeDbWeight, base: u64, r: u64, w: u64) -> (wt: Weight)
    ensures
        wt.ref_time == rw_cost(db, base as int, r as int, w as int),
        wt.proof_size == 0,
{
    let a = Weight::from_parts(base, 0).saturating_add(db.reads(r));
    let b = a.saturating_add(db.writes(w));
    proof {
        assert(db.read * r >= 0 && db.write * w >= 0) by (nonlinear_arith);
    }
    b
}

} // verus!
