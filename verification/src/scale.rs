//! The SCALE byte encoding of the values that the pallets hash: fixed-width
//! little-endian integers, booleans, options, compact lengths and byte vectors.

use vstd::prelude::*;

verus! {

/// The `n` low-order bytes of `x`, least significant first.
pub open spec fn le_bytes(x: nat, n: nat) -> Seq<u8>
    decreases n,
{
    if n == 0 {
        Seq::empty()
    } else {
        seq![(x % 256) as u8] + le_bytes(x / 256, (n - 1) as nat)
    }
}

/// SCALE encoding of a `u8`.
pub open spec fn enc_u8(x: u8) -> Seq<u8> {
    seq![x]
}

/// SCALE encoding of a `u16`.
pub open spec fn enc_u16(x: u16) -> Seq<u8> {
    le_bytes(x as nat, 2)
}

/// SCALE encoding of a `u32`.
pub open spec fn enc_u32(x: u32) -> Seq<u8> {
    le_bytes(x as nat, 4)
}

/// SCALE encoding of a `u64`.
pub open spec fn enc_u64(x: u64) -> Seq<u8> {
    le_bytes(x as nat, 8)
}

/// SCALE encoding of a `u128`.
pub open spec fn enc_u128(x: u128) -> Seq<u8> {
    le_bytes(x as nat, 16)
}

/// SCALE encoding of a `bool`.
pub open spec fn enc_bool(b: bool) -> Seq<u8> {
    if b {
        seq![1u8]
    } else {
        seq![0u8]
    }
}

/// SCALE compact encoding of a length that fits in 32 bits.
pub open spec fn enc_compact(n: nat) -> Seq<u8> {
    if n < 64 {
        seq![(n * 4) as u8]
    } else if n < 0x4000 {
        le_bytes(n * 4 + 1, 2)
    } else if n < 0x4000_0000 {
        le_bytes(n * 4 + 2, 4)
    } else {
        seq![3u8] + le_bytes(n, 4)
    }
}

/// SCALE encoding of a byte vector: compact length, then the bytes.
pub open spec fn enc_bytes(b: Seq<u8>) -> Seq<u8> {
    enc_compact(b.len()) + b
}

/// SCALE encoding of an optional `u32`.
pub open spec fn enc_opt_u32(o: Option<u32>) -> Seq<u8> {
    match o {
        Some(x) => seq![1u8] + enc_u32(x),
        None => seq![0u8],
    }
}

/// SCALE encoding of an optional `u64`.
pub open spec fn enc_opt_u64(o: Option<u64>) -> Seq<u8> {
    match o {
        Some(x) => seq![1u8] + enc_u64(x),
        None => seq![0u8],
    }
}

/// Append the `n` low-order bytes of `x`, least significant first.
pub fn push_le(out: &mut Vec<u8>, x: u128, n: usize)
    ensures
        final(out)@ == old(out)@ + le_bytes(x as nat, n as nat),
{
    let ghost start = out@;
    let mut v: u128 = x;
    let mut i: usize = 0;
    while i < n
        invariant
            0 <= i <= n,
            start + le_bytes(x as nat, n as nat) == out@ + le_bytes(v as nat, (n - i) as nat),
        decreases n - i,
    {
        let ghost before = out@;
        out.push((v % 256) as u8);
        proof {
            assert(le_bytes(v as nat, (n - i) as nat) == seq![(v as nat % 256) as u8] + le_bytes(
                v as nat / 256,
                (n - i - 1) as nat,
            ));
            assert(out@ + le_bytes((v / 256) as nat, (n - i - 1) as nat) =~= before + (seq![
                (v as nat % 256) as u8,
            ] + le_bytes(v as nat / 256, (n - i - 1) as nat)));
        }
        v = v / 256;
        i = i + 1;
    }
    assert(le_bytes(v as nat, 0) =~= Seq::<u8>::empty());
    assert(out@ + Seq::<u8>::empty() =~= out@);
}

/// Append the encoding of a `u8`.
pub fn push_u8(out: &mut Vec<u8>, x: u8)
    ensures
        final(out)@ == old(out)@ + enc_u8(x),
{
    out.push(x);
    assert(out@ =~= old(out)@ + enc_u8(x));
}

/// Append the encoding of a `u16`.
pub fn push_u16(out: &mut Vec<u8>, x: u16)
    ensures
        final(out)@ == old(out)@ + enc_u16(x),
{
    push_le(out, x as u128, 2);
}

/// Append the encoding of a `u32`.
pub fn push_u32(out: &mut Vec<u8>, x: u32)
    ensures
        final(out)@ == old(out)@ + enc_u32(x),
{
    push_le(out, x as u128, 4);
}

/// Append the encoding of a `u64`.
pub fn push_u64(out: &mut Vec<u8>, x: u64)
    ensures
        final(out)@ == old(out)@ + enc_u64(x),
{
    push_le(out, x as u128, 8);
}

/// Append the encoding of a `u128`.
pub fn push_u128(out: &mut Vec<u8>, x: u128)
    ensures
        final(out)@ == old(out)@ + enc_u128(x),
{
    push_le(out, x, 16);
}

/// Append the encoding of a `bool`.
pub fn push_bool(out: &mut Vec<u8>, b: bool)
    ensures
        final(out)@ == old(out)@ + enc_bool(b),
{
    out.push(if b { 1u8 } else { 0u8 });
    assert(out@ =~= old(out)@ + enc_bool(b));
}

/// Append raw bytes.
pub fn push_raw(out: &mut Vec<u8>, data: &[u8])
    ensures
        final(out)@ == old(out)@ + data@,
{
    let ghost start = out@;
    let mut i: usize = 0;
    while i < data.len()
        invariant
            0 <= i <= data@.len(),
            out@ == start + data@.subrange(0, i as int),
        decreases data@.len() - i,
    {
        out.push(data[i]);
        assert(data@.subrange(0, i + 1) =~= data@.subrange(0, i as int).push(data@[i as int]));
        i = i + 1;
    }
    assert(data@.subrange(0, data@.len() as int) =~= data@);
}

/// Append the compact encoding of a length that fits in 32 bits.
pub fn push_compact(out: &mut Vec<u8>, n: usize)
    requires
        n <= u32::MAX,
    ensures
        final(out)@ == old(out)@ + enc_compact(n as nat),
{
    if n < 64 {
        out.push((n * 4) as u8);
        assert(out@ =~= old(out)@ + enc_compact(n as nat));
    } else if n < 0x4000 {
        push_le(out, (n as u128) * 4 + 1, 2);
    } else if n < 0x4000_0000 {
        push_le(out, (n as u128) * 4 + 2, 4);
    } else {
        out.push(3u8);
        push_le(out, n as u128, 4);
        assert(out@ =~= old(out)@ + enc_compact(n as nat));
    }
}

/// Append the encoding of a byte vector.
pub fn push_bytes(out: &mut Vec<u8>, data: &[u8])
    requires
        data@.len() <= u32::MAX,
    ensures
        final(out)@ == old(out)@ + enc_bytes(data@),
{
    push_compact(out, data.len());
    push_raw(out, data);
    assert(out@ =~= old(out)@ + enc_bytes(data@));
}

/// Append the encoding of an optional `u32`.
pub fn push_opt_u32(out: &mut Vec<u8>, o: Option<u32>)
    ensures
        final(out)@ == old(out)@ + enc_opt_u32(o),
{
    match o {
        Some(x) => {
            out.push(1u8);
            push_u32(out, x);
            assert(out@ =~= old(out)@ + enc_opt_u32(o));
        },
        None => {
            out.push(0u8);
            assert(out@ =~= old(out)@ + enc_opt_u32(o));
        },
    }
}

/// Append the encoding of an optional `u64`.
pub fn push_opt_u64(out: &mut Vec<u8>, o: Option<u64>)
    ensures
        final(out)@ == old(out)@ + enc_opt_u64(o),
{
    match o {
        Some(x) => {
            out.push(1u8);
            push_u64(out, x);
            assert(out@ =~= old(out)@ + enc_opt_u64(o));
        },
        None => {
            out.push(0u8);
            assert(out@ =~= old(out)@ + enc_opt_u64(o));
        },
    }
}

/// The value of eight bytes read as a little-endian `u64`.
pub open spec fn le_u64_value(b: Seq<u8>) -> int {
    b[0] + b[1] * 0x100 + b[2] * 0x1_0000 + b[3] * 0x100_0000 + b[4] * 0x1_0000_0000
        + b[5] * 0x100_0000_0000 + b[6] * 0x1_0000_0000_0000 + b[7] * 0x100_0000_0000_0000
}

/// Read the eight bytes at `data[at..at + 8]` as a little-endian `u64`.
pub fn read_u64_le(data: &[u8], at: usize) -> (v: u64)
    requires
        at + 8 <= data@.len(),
    ensures
        v == le_u64_value(data@.subrange(at as int, at + 8)),
{
    let ghost b = data@.subrange(at as int, at + 8);
    assert(b[0] == data@[at as int] && b[7] == data@[at + 7]);
    assert(b[1] == data@[at + 1] && b[2] == data@[at + 2] && b[3] == data@[at + 3]);
    assert(b[4] == data@[at + 4] && b[5] == data@[at + 5] && b[6] == data@[at + 6]);
    data[at] as u64 + data[at + 1] as u64 * 0x100 + data[at + 2] as u64 * 0x1_0000
        + data[at + 3] as u64 * 0x100_0000 + data[at + 4] as u64 * 0x1_0000_0000
        + data[at + 5] as u64 * 0x100_0000_0000 + data[at + 6] as u64 * 0x1_0000_0000_0000
        + data[at + 7] as u64 * 0x100_0000_0000_0000
}

} // verus!
