//! Fixed-width integers as the tag formats write them, and the joining of
//! byte strings.

use vstd::prelude::*;

verus! {

/// The four bytes of `n`, most significant first.
pub open spec fn be32(n: u32) -> Seq<u8> {
    seq![
        (n / 0x100_0000) as u8,
        (n / 0x1_0000 % 0x100) as u8,
        (n / 0x100 % 0x100) as u8,
        (n % 0x100) as u8,
    ]
}

/// The number that four bytes hold, most significant first.
pub open spec fn be32_value(b: Seq<u8>) -> int
    recommends
        b.len() == 4,
{
    b[0] as int * 0x100_0000 + b[1] as int * 0x1_0000 + b[2] as int * 0x100 + b[3] as int
}

/// The four bytes of `n`, least significant first.
pub open spec fn le32(n: u32) -> Seq<u8> {
    seq![
        (n % 0x100) as u8,
        (n / 0x100 % 0x100) as u8,
        (n / 0x1_0000 % 0x100) as u8,
        (n / 0x100_0000) as u8,
    ]
}

/// The three bytes of a number below 2^24, most significant first.
pub open spec fn be24(n: u32) -> Seq<u8>
    recommends
        n < 0x100_0000,
{
    seq![(n / 0x1_0000 % 0x100) as u8, (n / 0x100 % 0x100) as u8, (n % 0x100) as u8]
}

/// The number that three bytes hold, most significant first.
pub open spec fn be24_value(b: Seq<u8>) -> int
    recommends
        b.len() == 3,
{
    b[0] as int * 0x1_0000 + b[1] as int * 0x100 + b[2] as int
}

/// A number below 2^28 in four bytes of seven bits each, most significant
/// first. The top bit of every byte stays clear.
pub open spec fn syncsafe(n: u32) -> Seq<u8>
    recommends
        n < 0x1000_0000,
{
    seq![
        (n / 0x20_0000 % 0x80) as u8,
        (n / 0x4000 % 0x80) as u8,
        (n / 0x80 % 0x80) as u8,
        (n % 0x80) as u8,
    ]
}

/// Whether four bytes are a number in seven-bit form.
pub open spec fn is_syncsafe(b: Seq<u8>) -> bool {
    b.len() == 4 && b[0] < 0x80 && b[1] < 0x80 && b[2] < 0x80 && b[3] < 0x80
}

/// The number that four bytes of seven bits each hold.
pub open spec fn syncsafe_value(b: Seq<u8>) -> int
    recommends
        is_syncsafe(b),
{
    b[0] as int * 0x20_0000 + b[1] as int * 0x4000 + b[2] as int * 0x80 + b[3] as int
}

/// Reading back what `be32` wrote gives the number.
pub proof fn lemma_be32_round_trip(n: u32)
    ensures
        be32(n).len() == 4,
        be32_value(be32(n)) == n,
{
}

/// Reading back what `be24` wrote gives the number.
pub proof fn lemma_be24_round_trip(n: u32)
    requires
        n < 0x100_0000,
    ensures
        be24(n).len() == 3,
        be24_value(be24(n)) == n,
{
}

/// Three bytes are the three-byte form of the number they hold.
pub proof fn lemma_be24_of_value(b: Seq<u8>)
    requires
        b.len() == 3,
    ensures
        0 <= be24_value(b) < 0x100_0000,
        be24(be24_value(b) as u32) == b,
{
    assert(be24(be24_value(b) as u32) =~= b);
}

/// Reading back what `syncsafe` wrote gives the number.
pub proof fn lemma_syncsafe_round_trip(n: u32)
    requires
        n < 0x1000_0000,
    ensures
        is_syncsafe(syncsafe(n)),
        syncsafe_value(syncsafe(n)) == n,
{
}

/// Appends `n`, most significant byte first.
pub fn put_be32(out: &mut Vec<u8>, n: u32)
    ensures
        final(out)@ == old(out)@ + be32(n),
{
    out.push((n / 0x100_0000) as u8);
    out.push((n / 0x1_0000 % 0x100) as u8);
    out.push((n / 0x100 % 0x100) as u8);
    out.push((n % 0x100) as u8);
    assert(out@ =~= old(out)@ + be32(n));
}

/// Appends `n`, least significant byte first.
pub fn put_le32(out: &mut Vec<u8>, n: u32)
    ensures
        final(out)@ == old(out)@ + le32(n),
{
    out.push((n % 0x100) as u8);
    out.push((n / 0x100 % 0x100) as u8);
    out.push((n / 0x1_0000 % 0x100) as u8);
    out.push((n / 0x100_0000) as u8);
    assert(out@ =~= old(out)@ + le32(n));
}

/// Appends a number below 2^24 in three bytes, most significant first.
pub fn put_be24(out: &mut Vec<u8>, n: u32)
    requires
        n < 0x100_0000,
    ensures
        final(out)@ == old(out)@ + be24(n),
{
    out.push((n / 0x1_0000 % 0x100) as u8);
    out.push((n / 0x100 % 0x100) as u8);
    out.push((n % 0x100) as u8);
    assert(out@ =~= old(out)@ + be24(n));
}

/// Appends a number below 2^28 in seven-bit form.
pub fn put_syncsafe(out: &mut Vec<u8>, n: u32)
    requires
        n < 0x1000_0000,
    ensures
        final(out)@ == old(out)@ + syncsafe(n),
{
    out.push((n / 0x20_0000 % 0x80) as u8);
    out.push((n / 0x4000 % 0x80) as u8);
    out.push((n / 0x80 % 0x80) as u8);
    out.push((n % 0x80) as u8);
    assert(out@ =~= old(out)@ + syncsafe(n));
}

/// The number in the four bytes at `at`, most significant first.
pub fn read_be32(bytes: &[u8], at: usize) -> (n: u32)
    requires
        at + 4 <= bytes.len(),
    ensures
        n == be32_value(bytes@.subrange(at as int, at + 4)),
{
    let n: u32 = bytes[at] as u32 * 0x100_0000 + bytes[at + 1] as u32 * 0x1_0000 + bytes[at
        + 2] as u32 * 0x100 + bytes[at + 3] as u32;
    n
}

/// The number in the three bytes at `at`, most significant first.
pub fn read_be24(bytes: &[u8], at: usize) -> (n: u32)
    requires
        at + 3 <= bytes.len(),
    ensures
        n == be24_value(bytes@.subrange(at as int, at + 3)),
        n < 0x100_0000,
{
    let n: u32 = bytes[at] as u32 * 0x1_0000 + bytes[at + 1] as u32 * 0x100 + bytes[at
        + 2] as u32;
    n
}

/// Appends a byte string.
pub fn append(out: &mut Vec<u8>, part: &[u8])
    ensures
        final(out)@ == old(out)@ + part@,
{
    out.extend_from_slice(part);
    assert(out@ =~= old(out)@ + part@);
}

} // verus!
