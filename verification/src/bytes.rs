//! Numbers and texts as bytes.
use vstd::prelude::*;

verus! {

/// The two bytes of `n`, the least significant first.
pub open spec fn le16(n: nat) -> Seq<u8> {
    seq![(n % 256) as u8, (n / 256 % 256) as u8]
}

/// The four bytes of `n`, the least significant first.
pub open spec fn le32(n: nat) -> Seq<u8> {
    le16(n) + le16(n / 65536)
}

/// The eight bytes of `n`, the least significant first.
pub open spec fn le64(n: nat) -> Seq<u8> {
    le32(n) + le32(n / 4294967296)
}

/// Appends the four bytes of `n`, the least significant first.
pub fn push_le32(out: &mut Vec<u8>, n: u32)
    ensures
        final(out)@ == old(out)@ + le32(n as nat),
{
    out.push((n % 256) as u8);
    out.push((n / 256 % 256) as u8);
    out.push((n / 65536 % 256) as u8);
    out.push((n / 65536 / 256 % 256) as u8);
    assert(out@ =~= old(out)@ + le32(n as nat));
}

/// Four bytes as a number, the first the least significant.
pub open spec fn le_word(b0: u8, b1: u8, b2: u8, b3: u8) -> nat {
    (b0 + 256 * b1 + 65536 * b2 + 16777216 * b3) as nat
}

/// Reads four bytes as a number, the first the least significant.
pub fn read_le_word(b0: u8, b1: u8, b2: u8, b3: u8) -> (r: u32)
    ensures
        r == le_word(b0, b1, b2, b3),
{
    b0 as u32 + 256 * (b1 as u32) + 65536 * (b2 as u32) + 16777216 * (b3 as u32)
}

/// The four bytes of a word read back give the word.
pub proof fn word_reads_back(n: u32)
    ensures
        ({
            let b = le32(n as nat);
            le_word(b[0], b[1], b[2], b[3]) == n
        }),
{
}

/// The text as bytes, one for each of its characters.
pub open spec fn ascii_bytes(s: Seq<char>) -> Seq<u8> {
    Seq::new(s.len(), |i: int| s[i] as u8)
}

/// Appends all of `more`.
pub fn push_all(out: &mut Vec<u8>, more: &[u8])
    ensures
        final(out)@ == old(out)@ + more@,
{
    let n = more.len();
    for i in 0..n
        invariant
            n == more@.len(),
            out@ == old(out)@ + more@.take(i as int),
    {
        out.push(more[i]);
        assert(more@.take(i + 1) =~= more@.take(i as int).push(more@[i as int]));
    }
    assert(more@.take(n as int) =~= more@);
}

/// A word of four bytes counts its first byte by ones, and each further one by 256 times as much as
/// the one before.
pub proof fn first_byte_counts_least(b0: u8, b1: u8, b2: u8, b3: u8)
    ensures
        le_word(b0, 0, 0, 0) == b0,
        le_word(b0, b1, b2, b3) == b0 + 256 * (b1 + 256 * (b2 + 256 * b3)),
{
}

/// The bytes of a number add up to it, the first counting least.
pub proof fn bytes_add_up(n: u32)
    ensures
        ({
            let b = le32(n as nat);
            b.len() == 4 && b[0] + 256 * (b[1] + 256 * (b[2] + 256 * b[3])) == n
        }),
{
}

} // verus!
