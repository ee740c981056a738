//! Numbers and keys as they lie in account data.
use vstd::prelude::*;

verus! {

/// The number that `bytes` spell, least significant byte first.
pub open spec fn little_endian(bytes: Seq<u8>) -> nat
    decreases bytes.len(),
{
    if bytes.len() == 0 {
        0
    } else {
        bytes[0] as nat + 256 * little_endian(bytes.skip(1))
    }
}

/// The number that `bytes` spell, most significant byte first.
pub open spec fn big_endian(bytes: Seq<u8>) -> nat
    decreases bytes.len(),
{
    if bytes.len() == 0 {
        0
    } else {
        256 * big_endian(bytes.drop_last()) + bytes.last() as nat
    }
}

/// The signed number with the same 64 bits as `n`.
pub open spec fn twos_complement(n: u64) -> int {
    if n < 0x8000_0000_0000_0000 {
        n as int
    } else {
        n - 0x1_0000_0000_0000_0000
    }
}

/// Reinterprets an unsigned number as the signed one with the same bits, the only
/// 64-bit integer that a SQLite column holds.
pub fn as_i64(n: u64) -> (r: i64)
    ensures
        r == twos_complement(n),
{
    let r: i64 = n as i64;
    assert(n < 0x8000_0000_0000_0000u64 ==> (n as i64) as int == n as int) by (bit_vector);
    assert(n >= 0x8000_0000_0000_0000u64 ==> (n as i64) as int == n - 0x1_0000_0000_0000_0000)
        by (bit_vector);
    r
}

/// Whether two public keys are the same.
pub fn same_key(a: &[u8; 32], b: &[u8; 32]) -> (same: bool)
    ensures
        same == (a@ == b@),
{
    let mut i: usize = 0;
    while i < 32
        invariant
            i <= 32,
            forall|j: int| 0 <= j < i ==> a@[j] == b@[j],
        decreases 32 - i,
    {
        if a[i] != b[i] {
            return false;
        }
        i += 1;
    }
    assert(a@ =~= b@);
    true
}

/// Two unsigned numbers that are stored as the same signed number are the same.
pub proof fn law_twos_complement_is_injective(a: u64, b: u64)
    requires
        twos_complement(a) == twos_complement(b),
    ensures
        a == b,
{
}

/// Two byte strings of one length that spell the same number are the same.
pub proof fn lemma_big_endian_is_injective(a: Seq<u8>, b: Seq<u8>)
    requires
        a.len() == b.len(),
        big_endian(a) == big_endian(b),
    ensures
        a == b,
    decreases a.len(),
{
    if a.len() == 0 {
        assert(a =~= b);
    } else {
        lemma_big_endian_is_injective(a.drop_last(), b.drop_last());
        assert(a =~= a.drop_last().push(a.last()));
        assert(b =~= b.drop_last().push(b.last()));
    }
}

/// A number and the one that is stored for it have the same 64 bits: they differ by nothing,
/// or by the whole range, and the stored one is a signed number.
pub proof fn law_twos_complement_keeps_the_bits(n: u64)
    ensures
        -0x8000_0000_0000_0000 <= twos_complement(n) < 0x8000_0000_0000_0000,
        twos_complement(n) % 0x1_0000_0000_0000_0000 == n,
{
}

} // verus!
