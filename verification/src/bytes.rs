//! Reading little-endian fields out of raw bytes, and the byte sum that
//! firmware tables are checked with.
//!
//! A read beyond the end of the bytes yields zero, so every read is
//! defined whatever the length of the table at hand.

use vstd::prelude::*;

verus! {

/// The byte of `s` at `i`, or zero where `s` does not reach that far.
pub open spec fn byte_or_zero(s: Seq<u8>, i: int) -> u8 {
    if 0 <= i < s.len() {
        s[i]
    } else {
        0
    }
}

/// The `n` bytes of `s` from `at` on, with zeros where `s` ends before.
pub open spec fn bytes_at(s: Seq<u8>, at: int, n: nat) -> Seq<u8> {
    Seq::new(n, |i: int| byte_or_zero(s, at + i))
}

/// The 16-bit little-endian number of `s` at `at`.
pub open spec fn le16(s: Seq<u8>, at: int) -> u16 {
    (byte_or_zero(s, at) + 0x100 * byte_or_zero(s, at + 1)) as u16
}

/// The 32-bit little-endian number of `s` at `at`.
pub open spec fn le32(s: Seq<u8>, at: int) -> u32 {
    (le16(s, at) + 0x1_0000 * le16(s, at + 2)) as u32
}

/// The 64-bit little-endian number of `s` at `at`.
pub open spec fn le64(s: Seq<u8>, at: int) -> u64 {
    (le32(s, at) + 0x1_0000_0000 * le32(s, at + 4)) as u64
}

/// The sum of the bytes of `s`.
pub open spec fn byte_sum(s: Seq<u8>) -> int
    decreases s.len(),
{
    if s.len() == 0 {
        0
    } else {
        byte_sum(s.drop_last()) + s.last()
    }
}

/// Whether `s` holds a table of `length` bytes whose bytes sum to zero
/// modulo 256.
pub open spec fn checksum_ok(s: Seq<u8>, length: int) -> bool {
    0 <= length <= s.len() && byte_sum(s.take(length)) % 256 == 0
}

/// The byte of `bytes` at `at + by`, or zero beyond the end.
pub fn read_u8(bytes: &[u8], at: u64, by: u64) -> (v: u8)
    ensures
        v == byte_or_zero(bytes@, at + by),
{
    let n = bytes.len();
    match at.checked_add(by) {
        Some(i) => if i < n as u64 {
            bytes[i as usize]
        } else {
            0
        },
        None => 0,
    }
}

/// The 16-bit little-endian number of `bytes` at `at + by`.
pub fn read_u16(bytes: &[u8], at: u64, by: u64) -> (v: u16)
    requires
        by + 1 <= u64::MAX,
    ensures
        v == le16(bytes@, at + by),
{
    read_u8(bytes, at, by) as u16 + 0x100 * (read_u8(bytes, at, by + 1) as u16)
}

/// The 32-bit little-endian number of `bytes` at `at + by`.
pub fn read_u32(bytes: &[u8], at: u64, by: u64) -> (v: u32)
    requires
        by + 3 <= u64::MAX,
    ensures
        v == le32(bytes@, at + by),
{
    read_u16(bytes, at, by) as u32 + 0x1_0000 * (read_u16(bytes, at, by + 2) as u32)
}

/// The 64-bit little-endian number of `bytes` at `at + by`.
pub fn read_u64(bytes: &[u8], at: u64, by: u64) -> (v: u64)
    requires
        by + 7 <= u64::MAX,
    ensures
        v == le64(bytes@, at + by),
{
    read_u32(bytes, at, by) as u64 + 0x1_0000_0000 * (read_u32(bytes, at, by + 4) as u64)
}

/// Whether the first `length` bytes of `bytes` are all there and sum to
/// zero modulo 256.
pub fn checksum(bytes: &[u8], length: usize) -> (ok: bool)
    ensures
        ok == checksum_ok(bytes@, length as int),
{
    if length > bytes.len() {
        return false;
    }
    let mut sum: u8 = 0;
    let mut i: usize = 0;
    while i < length
        invariant
            i <= length <= bytes@.len(),
            sum == byte_sum(bytes@.take(i as int)) % 256,
        decreases length - i,
    {
        proof {
            assert(bytes@.take(i as int + 1).drop_last() =~= bytes@.take(i as int));
        }
        sum = sum.wrapping_add(bytes[i]);
        i += 1;
    }
    sum == 0
}

/// Changing one byte of a sequence changes its sum by the difference of
/// the two bytes.
pub proof fn lemma_byte_sum_update(s: Seq<u8>, i: int, v: u8)
    requires
        0 <= i < s.len(),
    ensures
        byte_sum(s.update(i, v)) == byte_sum(s) - s[i] + v,
    decreases s.len(),
{
    let t = s.update(i, v);
    if i == s.len() - 1 {
        assert(t.drop_last() =~= s.drop_last());
    } else {
        assert(t.drop_last() =~= s.drop_last().update(i, v));
        lemma_byte_sum_update(s.drop_last(), i, v);
    }
}

/// A table whose bytes sum to zero modulo 256 stops doing so when any one
/// of its bytes is changed.
pub proof fn lemma_checksum_detects_change(s: Seq<u8>, length: int, i: int, v: u8)
    requires
        checksum_ok(s, length),
        0 <= i < length,
        v != s[i],
    ensures
        !checksum_ok(s.update(i, v), length),
{
    assert(s.update(i, v).take(length) =~= s.take(length).update(i, v));
    lemma_byte_sum_update(s.take(length), i, v);
}

/// The four bytes of `v`, lowest first.
pub open spec fn le_bytes32(v: u32) -> Seq<u8> {
    seq![
        (v % 0x100) as u8,
        (v / 0x100 % 0x100) as u8,
        (v / 0x1_0000 % 0x100) as u8,
        (v / 0x100_0000) as u8,
    ]
}

/// The four bytes of a number read in little-endian order are the bytes
/// it was read from.
pub proof fn lemma_le_bytes32(s: Seq<u8>, at: int)
    ensures
        le_bytes32(le32(s, at)) == bytes_at(s, at, 4),
{
    let b0 = byte_or_zero(s, at) as int;
    let b1 = byte_or_zero(s, at + 1) as int;
    let b2 = byte_or_zero(s, at + 2) as int;
    let b3 = byte_or_zero(s, at + 3) as int;
    let v = le32(s, at) as int;
    assert(v == b0 + 0x100 * b1 + 0x1_0000 * b2 + 0x100_0000 * b3);
    assert(v % 0x100 == b0);
    assert(v / 0x100 == b1 + 0x100 * b2 + 0x1_0000 * b3);
    assert(v / 0x100 % 0x100 == b1);
    assert(v / 0x1_0000 == b2 + 0x100 * b3);
    assert(v / 0x1_0000 % 0x100 == b2);
    assert(v / 0x100_0000 == b3);
    assert(le_bytes32(le32(s, at)) =~= bytes_at(s, at, 4));
}

} // verus!
