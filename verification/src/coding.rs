//! Big-endian integers, as the on-disk formats spell them.

use byteorder::{BigEndian, ByteOrder};
use vstd::prelude::*;

verus! {

/// The number that `bytes` spells when the first byte is the most significant.
pub open spec fn be_value(bytes: Seq<u8>) -> nat
    decreases bytes.len(),
{
    if bytes.len() == 0 {
        0
    } else {
        be_value(bytes.drop_last()) * 256 + bytes.last() as nat
    }
}

/// The `width` bytes that spell `n`, most significant byte first.
/// Digits above the width are dropped.
pub open spec fn be_bytes(n: nat, width: nat) -> Seq<u8>
    decreases width,
{
    if width == 0 {
        Seq::empty()
    } else {
        be_bytes(n / 256, (width - 1) as nat).push((n % 256) as u8)
    }
}

/// The first number that `width` bytes cannot spell: 256 to the power `width`.
pub open spec fn be_limit(width: nat) -> nat
    decreases width,
{
    if width == 0 {
        1
    } else {
        256 * be_limit((width - 1) as nat)
    }
}

pub proof fn lemma_be_limits()
    ensures
        be_limit(1) == 0x100,
        be_limit(2) == 0x1_0000,
        be_limit(4) == 0x1_0000_0000,
        be_limit(8) == 0x1_0000_0000_0000_0000,
{
    reveal_with_fuel(be_limit, 9);
}

pub proof fn lemma_be_bytes_len(n: nat, width: nat)
    ensures
        be_bytes(n, width).len() == width,
    decreases width,
{
    if width > 0 {
        lemma_be_bytes_len(n / 256, (width - 1) as nat);
    }
}

/// Spelling a number that fits and reading it back gives the number.
pub proof fn lemma_be_value_of_bytes(n: nat, width: nat)
    requires
        n < be_limit(width),
    ensures
        be_value(be_bytes(n, width)) == n,
    decreases width,
{
    if width > 0 {
        let head = be_bytes(n / 256, (width - 1) as nat);
        let low = (n % 256) as u8;
        lemma_be_value_of_bytes(n / 256, (width - 1) as nat);
        assert(head.push(low).drop_last() =~= head);
        assert(head.push(low).last() == low);
    }
}

/// Reading bytes and spelling the number again gives the bytes.
pub proof fn lemma_be_bytes_of_value(bytes: Seq<u8>)
    ensures
        be_value(bytes) < be_limit(bytes.len()),
        be_bytes(be_value(bytes), bytes.len()) == bytes,
    decreases bytes.len(),
{
    if bytes.len() > 0 {
        let head = bytes.drop_last();
        lemma_be_bytes_of_value(head);
        let n = be_value(bytes);
        assert(n == be_value(head) * 256 + bytes.last() as nat);
        assert(n / 256 == be_value(head));
        assert(n % 256 == bytes.last() as nat);
        assert(head.push(bytes.last()) =~= bytes);
    }
}

/// Two bytes spell the first byte times 256 plus the second, and a number
/// below 65536 is spelt by its quotient and its remainder by 256.
pub proof fn lemma_be_two_bytes(bytes: Seq<u8>, n: nat)
    ensures
        bytes.len() == 2 ==> be_value(bytes) == bytes[0] as nat * 256 + bytes[1] as nat,
        n < 0x1_0000 ==> be_bytes(n, 2) == seq![(n / 256) as u8, (n % 256) as u8],
{
    reveal_with_fuel(be_value, 3);
    reveal_with_fuel(be_bytes, 3);
    if bytes.len() == 2 {
        assert(bytes.drop_last().drop_last().len() == 0);
    }
    if n < 0x1_0000 {
        assert(be_bytes(n, 2) =~= seq![(n / 256) as u8, (n % 256) as u8]);
    }
}

/// `byteorder::BigEndian::read_u16`: the first two bytes of `buf`, read as
/// a big-endian number. The outside function panics on a shorter slice.
#[verifier::external_body]
pub(crate) fn read_u16_be(buf: &[u8]) -> (n: u16)
    requires
        buf@.len() >= 2,
    ensures
        n as nat == be_value(buf@.subrange(0, 2)),
{
    BigEndian::read_u16(buf)
}

/// `byteorder::BigEndian::read_u32`: the first four bytes of `buf`, read as
/// a big-endian number. The outside function panics on a shorter slice.
#[verifier::external_body]
pub(crate) fn read_u32_be(buf: &[u8]) -> (n: u32)
    requires
        buf@.len() >= 4,
    ensures
        n as nat == be_value(buf@.subrange(0, 4)),
{
    BigEndian::read_u32(buf)
}

/// `byteorder::BigEndian::read_u64`: the first eight bytes of `buf`, read as
/// a big-endian number. The outside function panics on a shorter slice.
#[verifier::external_body]
pub(crate) fn read_u64_be(buf: &[u8]) -> (n: u64)
    requires
        buf@.len() >= 8,
    ensures
        n as nat == be_value(buf@.subrange(0, 8)),
{
    BigEndian::read_u64(buf)
}

/// `byteorder::BigEndian::write_u16` into a fresh two-byte array: the array
/// then spells `n`, most significant byte first.
#[verifier::external_body]
pub(crate) fn u16_to_be(n: u16) -> (out: [u8; 2])
    ensures
        out@ == be_bytes(n as nat, 2),
{
    let mut out: [u8; 2] = [0u8; 2];
    BigEndian::write_u16(&mut out, n);
    out
}

/// `byteorder::BigEndian::write_u32` into a fresh four-byte array: the array
/// then spells `n`, most significant byte first.
#[verifier::external_body]
pub(crate) fn u32_to_be(n: u32) -> (out: [u8; 4])
    ensures
        out@ == be_bytes(n as nat, 4),
{
    let mut out: [u8; 4] = [0u8; 4];
    BigEndian::write_u32(&mut out, n);
    out
}

/// `byteorder::BigEndian::write_u64` into a fresh eight-byte array: the array
/// then spells `n`, most significant byte first.
#[verifier::external_body]
pub(crate) fn u64_to_be(n: u64) -> (out: [u8; 8])
    ensures
        out@ == be_bytes(n as nat, 8),
{
    let mut out: [u8; 8] = [0u8; 8];
    BigEndian::write_u64(&mut out, n);
    out
}

/// Appends the two bytes of `n` to `buf`.
pub fn put_u16(buf: &mut Vec<u8>, n: u16)
    ensures
        final(buf)@ == old(buf)@ + be_bytes(n as nat, 2),
{
    let bytes = u16_to_be(n);
    buf.extend_from_slice(bytes.as_slice());
}

/// Appends the four bytes of `n` to `buf`.
pub fn put_u32(buf: &mut Vec<u8>, n: u32)
    ensures
        final(buf)@ == old(buf)@ + be_bytes(n as nat, 4),
{
    let bytes = u32_to_be(n);
    buf.extend_from_slice(bytes.as_slice());
}

/// Appends the eight bytes of `n` to `buf`.
pub fn put_u64(buf: &mut Vec<u8>, n: u64)
    ensures
        final(buf)@ == old(buf)@ + be_bytes(n as nat, 8),
{
    let bytes = u64_to_be(n);
    buf.extend_from_slice(bytes.as_slice());
}

} // verus!
