//! Little-endian integers: their model over byte sequences, and the
//! executable reads and writes that the tags, length fields and values use.
use crate::errors::TLVError;
use vstd::prelude::*;
use vstd::utf8::{decode_utf8, encode_utf8, encode_utf8_decode_utf8, valid_utf8};

verus! {

/// `256^n`: one more than the largest value that `n` bytes hold.
pub open spec fn pow256(n: nat) -> nat
    decreases n,
{
    if n == 0 {
        1
    } else {
        256 * pow256((n - 1) as nat)
    }
}

/// The unsigned value of a little-endian byte sequence.
pub open spec fn le_value(s: Seq<u8>) -> nat
    decreases s.len(),
{
    if s.len() == 0 {
        0
    } else {
        s[0] as nat + 256 * le_value(s.drop_first())
    }
}

/// The `n` low-order bytes of `v`, least significant first.
pub open spec fn le_bytes(v: nat, n: nat) -> Seq<u8>
    decreases n,
{
    if n == 0 {
        Seq::empty()
    } else {
        seq![(v % 256) as u8] + le_bytes(v / 256, (n - 1) as nat)
    }
}

/// The two's complement pattern of `v` in `n` bytes, as an unsigned value.
pub open spec fn twos_complement(v: int, n: nat) -> nat {
    if v >= 0 {
        v as nat
    } else {
        (v + pow256(n)) as nat
    }
}

/// The signed value whose `n`-byte two's complement pattern is `u`.
pub open spec fn signed_value(u: nat, n: nat) -> int {
    if 2 * u >= pow256(n) {
        u - pow256(n)
    } else {
        u as int
    }
}

pub proof fn lemma_pow256_values()
    ensures
        pow256(0) == 1,
        pow256(1) == 0x100,
        pow256(2) == 0x1_0000,
        pow256(4) == 0x1_0000_0000,
        pow256(8) == 0x1_0000_0000_0000_0000,
{
    reveal_with_fuel(pow256, 9);
}

pub proof fn lemma_le_bytes_len(v: nat, n: nat)
    ensures
        le_bytes(v, n).len() == n,
    decreases n,
{
    if n > 0 {
        lemma_le_bytes_len(v / 256, (n - 1) as nat);
    }
}

pub proof fn lemma_le_value_bound(s: Seq<u8>)
    ensures
        le_value(s) < pow256(s.len()),
    decreases s.len(),
{
    if s.len() > 0 {
        lemma_le_value_bound(s.drop_first());
    }
}

/// Decoding the `n`-byte encoding of a value below `256^n` gives the value back.
pub proof fn lemma_le_value_of_bytes(v: nat, n: nat)
    requires
        v < pow256(n),
    ensures
        le_value(le_bytes(v, n)) == v,
    decreases n,
{
    if n > 0 {
        let s = le_bytes(v, n);
        lemma_le_bytes_len(v, n);
        assert(s.drop_first() =~= le_bytes(v / 256, (n - 1) as nat));
        lemma_le_value_of_bytes(v / 256, (n - 1) as nat);
    }
}

/// The value of the bytes of `s` at positions `lo .. hi + 1`.
pub proof fn lemma_le_value_step(s: Seq<u8>, lo: int, hi: int)
    requires
        0 <= lo < hi <= s.len(),
    ensures
        le_value(s.subrange(lo, hi)) == s[lo] as nat + 256 * le_value(s.subrange(lo + 1, hi)),
{
    assert(s.subrange(lo, hi).drop_first() =~= s.subrange(lo + 1, hi));
}

pub proof fn lemma_signed_round_trip(v: int, n: nat)
    requires
        n > 0,
        -pow256(n) <= 2 * v < pow256(n),
    ensures
        twos_complement(v, n) < pow256(n),
        signed_value(twos_complement(v, n), n) == v,
{
}

/// Reads `n` bytes of `bytes` from `start` as a little-endian unsigned integer.
pub fn read_le(bytes: &[u8], start: usize, n: usize) -> (r: u64)
    requires
        n <= 8,
        start + n <= bytes@.len(),
    ensures
        r as nat == le_value(bytes@.subrange(start as int, start + n)),
{
    proof {
        lemma_pow256_values();
    }
    let len = bytes.len();
    let mut acc: u64 = 0;
    let mut i: usize = n;
    while i > 0
        invariant
            len == bytes@.len(),
            n <= 8,
            start + n <= bytes@.len(),
            i <= n,
            acc as nat == le_value(bytes@.subrange(start + i, start + n)),
            acc < pow256((n - i) as nat),
            pow256(8) == 0x1_0000_0000_0000_0000,
        decreases i,
    {
        proof {
            lemma_le_value_step(bytes@, start + i - 1, start + n as int);
            lemma_pow256_monotone((n - i + 1) as nat, 8);
            assert(pow256((n - i + 1) as nat) == 256 * pow256((n - i) as nat));
        }
        let b: u8 = bytes[start + (i - 1)];
        acc = acc * 256 + b as u64;
        i = i - 1;
    }
    acc
}

pub proof fn lemma_pow256_monotone(a: nat, b: nat)
    requires
        a <= b,
    ensures
        pow256(a) <= pow256(b),
    decreases b,
{
    if a < b {
        lemma_pow256_monotone(a, (b - 1) as nat);
    }
}

/// Appends the `n` low-order bytes of `v`, least significant first.
pub fn push_le(out: &mut Vec<u8>, v: u64, n: usize)
    requires
        n <= 8,
    ensures
        final(out)@ == old(out)@ + le_bytes(v as nat, n as nat),
{
    let mut x: u64 = v;
    let mut i: usize = 0;
    while i < n
        invariant
            i <= n,
            old(out)@ + le_bytes(v as nat, n as nat) == out@ + le_bytes(x as nat, (n - i) as nat),
        decreases n - i,
    {
        let b: u8 = (x % 256) as u8;
        proof {
            let rest = le_bytes(x as nat / 256, (n - i - 1) as nat);
            assert(le_bytes(x as nat, (n - i) as nat) == seq![b] + rest);
            assert(out@ + (seq![b] + rest) =~= out@.push(b) + rest);
        }
        out.push(b);
        x = x / 256;
        i = i + 1;
    }
    assert(le_bytes(x as nat, 0) =~= Seq::<u8>::empty());
    assert(out@ + Seq::<u8>::empty() =~= out@);
}

/// Appends all bytes of `src`.
pub fn push_all(out: &mut Vec<u8>, src: &[u8])
    ensures
        final(out)@ == old(out)@ + src@,
{
    let mut i: usize = 0;
    while i < src.len()
        invariant
            i <= src@.len(),
            out@ == old(out)@ + src@.subrange(0, i as int),
        decreases src@.len() - i,
    {
        proof {
            assert(src@.subrange(0, i + 1) =~= src@.subrange(0, i as int).push(src@[i as int]));
        }
        out.push(src[i]);
        i = i + 1;
    }
    assert(src@.subrange(0, src@.len() as int) =~= src@);
}

/// Reads an `n`-byte little-endian unsigned integer from the front of `bytes`.
pub fn parse_le(bytes: &[u8], n: usize) -> (r: Result<(&[u8], u64), TLVError>)
    requires
        n <= 8,
    ensures
        bytes@.len() < n ==> r matches Err(TLVError::UnderRun),
        bytes@.len() >= n ==> (r matches Ok((rest, v)) && v as nat == le_value(bytes@.take(n as int))
            && rest@ == bytes@.skip(n as int)),
{
    if bytes.len() < n {
        return Err(TLVError::UnderRun);
    }
    let v = read_le(bytes, 0, n);
    proof {
        assert(bytes@.subrange(0, n as int) =~= bytes@.take(n as int));
    }
    let rest = vstd::slice::slice_subrange(bytes, n, bytes.len());
    proof {
        assert(rest@ =~= bytes@.skip(n as int));
    }
    Ok((rest, v))
}

/// Reads an unsigned 8-bit integer from the front of `bytes`.
pub fn parse_u8(bytes: &[u8]) -> (r: Result<(&[u8], u8), TLVError>)
    ensures
        bytes@.len() < 1 ==> r matches Err(TLVError::UnderRun),
        bytes@.len() >= 1 ==> (r matches Ok((rest, v)) && v as nat == le_value(bytes@.take(1))
            && rest@ == bytes@.skip(1)),
{
    let (rest, v) = parse_le(bytes, 1)?;
    proof {
        lemma_le_value_bound(bytes@.take(1));
        lemma_pow256_values();
    }
    Ok((rest, v as u8))
}

/// Reads a little-endian unsigned 16-bit integer from the front of `bytes`.
pub fn parse_u16(bytes: &[u8]) -> (r: Result<(&[u8], u16), TLVError>)
    ensures
        bytes@.len() < 2 ==> r matches Err(TLVError::UnderRun),
        bytes@.len() >= 2 ==> (r matches Ok((rest, v)) && v as nat == le_value(bytes@.take(2))
            && rest@ == bytes@.skip(2)),
{
    let (rest, v) = parse_le(bytes, 2)?;
    proof {
        lemma_le_value_bound(bytes@.take(2));
        lemma_pow256_values();
    }
    Ok((rest, v as u16))
}

/// Reads a little-endian unsigned 32-bit integer from the front of `bytes`.
pub fn parse_u32(bytes: &[u8]) -> (r: Result<(&[u8], u32), TLVError>)
    ensures
        bytes@.len() < 4 ==> r matches Err(TLVError::UnderRun),
        bytes@.len() >= 4 ==> (r matches Ok((rest, v)) && v as nat == le_value(bytes@.take(4))
            && rest@ == bytes@.skip(4)),
{
    let (rest, v) = parse_le(bytes, 4)?;
    proof {
        lemma_le_value_bound(bytes@.take(4));
        lemma_pow256_values();
    }
    Ok((rest, v as u32))
}

/// Reads a little-endian unsigned 64-bit integer from the front of `bytes`.
pub fn parse_u64(bytes: &[u8]) -> (r: Result<(&[u8], u64), TLVError>)
    ensures
        bytes@.len() < 8 ==> r matches Err(TLVError::UnderRun),
        bytes@.len() >= 8 ==> (r matches Ok((rest, v)) && v as nat == le_value(bytes@.take(8))
            && rest@ == bytes@.skip(8)),
{
    parse_le(bytes, 8)
}

/// The signed value whose `n`-byte two's complement pattern is `v`.
pub fn to_signed(v: u64, n: usize) -> (r: i64)
    requires
        n == 1 || n == 2 || n == 4 || n == 8,
        v < pow256(n as nat),
    ensures
        r as int == signed_value(v as nat, n as nat),
{
    proof {
        lemma_pow256_values();
    }
    if n == 8 {
        if v >= 0x8000_0000_0000_0000 {
            ((v - 0x8000_0000_0000_0000) as i64) + i64::MIN
        } else {
            v as i64
        }
    } else {
        let full: u64 = if n == 1 {
            0x100
        } else if n == 2 {
            0x1_0000
        } else {
            0x1_0000_0000
        };
        if 2 * v >= full {
            (v as i64) - (full as i64)
        } else {
            v as i64
        }
    }
}

/// Reads a signed 8-bit integer from the front of `bytes`.
pub fn parse_i8(bytes: &[u8]) -> (r: Result<(&[u8], i8), TLVError>)
    ensures
        bytes@.len() < 1 ==> r matches Err(TLVError::UnderRun),
        bytes@.len() >= 1 ==> (r matches Ok((rest, v)) && v as int == signed_value(
            le_value(bytes@.take(1)),
            1,
        ) && rest@ == bytes@.skip(1)),
{
    let (rest, v) = parse_le(bytes, 1)?;
    proof {
        lemma_le_value_bound(bytes@.take(1));
        lemma_pow256_values();
    }
    Ok((rest, to_signed(v, 1) as i8))
}

/// Reads a little-endian signed 16-bit integer from the front of `bytes`.
pub fn parse_i16(bytes: &[u8]) -> (r: Result<(&[u8], i16), TLVError>)
    ensures
        bytes@.len() < 2 ==> r matches Err(TLVError::UnderRun),
        bytes@.len() >= 2 ==> (r matches Ok((rest, v)) && v as int == signed_value(
            le_value(bytes@.take(2)),
            2,
        ) && rest@ == bytes@.skip(2)),
{
    let (rest, v) = parse_le(bytes, 2)?;
    proof {
        lemma_le_value_bound(bytes@.take(2));
        lemma_pow256_values();
    }
    Ok((rest, to_signed(v, 2) as i16))
}

/// Reads a little-endian signed 32-bit integer from the front of `bytes`.
pub fn parse_i32(bytes: &[u8]) -> (r: Result<(&[u8], i32), TLVError>)
    ensures
        bytes@.len() < 4 ==> r matches Err(TLVError::UnderRun),
        bytes@.len() >= 4 ==> (r matches Ok((rest, v)) && v as int == signed_value(
            le_value(bytes@.take(4)),
            4,
        ) && rest@ == bytes@.skip(4)),
{
    let (rest, v) = parse_le(bytes, 4)?;
    proof {
        lemma_le_value_bound(bytes@.take(4));
        lemma_pow256_values();
    }
    Ok((rest, to_signed(v, 4) as i32))
}

/// Reads a little-endian signed 64-bit integer from the front of `bytes`.
pub fn parse_i64(bytes: &[u8]) -> (r: Result<(&[u8], i64), TLVError>)
    ensures
        bytes@.len() < 8 ==> r matches Err(TLVError::UnderRun),
        bytes@.len() >= 8 ==> (r matches Ok((rest, v)) && v as int == signed_value(
            le_value(bytes@.take(8)),
            8,
        ) && rest@ == bytes@.skip(8)),
{
    let (rest, v) = parse_le(bytes, 8)?;
    proof {
        lemma_le_value_bound(bytes@.take(8));
        lemma_pow256_values();
    }
    Ok((rest, to_signed(v, 8)))
}

/// Relies on `std::str::from_utf8`: it accepts exactly the valid UTF-8 byte
/// sequences, and the `str` that it returns consists of those bytes.
#[verifier::external_body]
fn str_from_utf8(bytes: &[u8]) -> (r: Option<&str>)
    ensures
        r is Some <==> valid_utf8(bytes@),
        r matches Some(s) ==> encode_utf8(s@) == bytes@,
{
    std::str::from_utf8(bytes).ok()
}

/// The text whose UTF-8 encoding is `utf8_bytes`.
pub fn parse_str(utf8_bytes: &[u8]) -> (r: Result<&str, TLVError>)
    ensures
        valid_utf8(utf8_bytes@) ==> (r matches Ok(s) && s@ == decode_utf8(utf8_bytes@)),
        !valid_utf8(utf8_bytes@) ==> r matches Err(TLVError::ParseError),
{
    match str_from_utf8(utf8_bytes) {
        Some(s) => {
            proof {
                encode_utf8_decode_utf8(s@);
            }
            Ok(s)
        },
        None => Err(TLVError::ParseError),
    }
}

} // verus!
