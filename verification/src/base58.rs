//! Base58 text of public keys.
use vstd::prelude::*;

use crate::bytes;

verus! {

/// The digits of base 58, in the order of their values.
pub open spec fn alphabet() -> Seq<char> {
    "123456789ABCDEFGHJKLMNPQRSTUVWXYZabcdefghijkmnopqrstuvwxyz"@
}

/// `n` in base 58, most significant digit first, without leading zeros.
pub open spec fn base58_digits(n: nat) -> Seq<char>
    decreases n,
{
    if n == 0 {
        Seq::empty()
    } else {
        base58_digits(n / 58).push(alphabet()[(n % 58) as int])
    }
}

/// How many zero bytes `bytes` starts with.
pub open spec fn leading_zeros(bytes: Seq<u8>) -> nat
    decreases bytes.len(),
{
    if bytes.len() == 0 || bytes[0] != 0 {
        0
    } else {
        1 + leading_zeros(bytes.skip(1))
    }
}

/// The base58 text of `data`: a `1` for each leading zero byte, then the digits of the
/// number that `data` spells.
pub open spec fn base58(data: Seq<u8>) -> Seq<char> {
    Seq::new(leading_zeros(data), |i: int| '1') + base58_digits(bytes::big_endian(data))
}

/// Encodes a public key with `bs58::encode(..).into_string()` (the `bs58` that
/// `solana_sdk` re-exports).
///
/// Trusted: the text is the base58 text of the bytes, in the Bitcoin alphabet and
/// without a checksum.
#[verifier::external_body]
pub(crate) fn encode_key(key: &[u8; 32]) -> (text: String)
    ensures
        text@ == base58(key@),
{
    solana_sdk::bs58::encode(key).into_string()
}

/// The digits of base 58 are distinct.
proof fn lemma_alphabet_is_injective(i: int, j: int)
    requires
        0 <= i < 58,
        0 <= j < 58,
        alphabet()[i] == alphabet()[j],
    ensures
        i == j,
{
    reveal_strlit("123456789ABCDEFGHJKLMNPQRSTUVWXYZabcdefghijkmnopqrstuvwxyz");
}

/// The first digit of a number is not the digit of zero.
proof fn lemma_no_leading_zero_digit(n: nat)
    requires
        n > 0,
    ensures
        base58_digits(n).len() > 0,
        base58_digits(n)[0] != '1',
    decreases n,
{
    if n < 58 {
        assert(base58_digits(n / 58) =~= Seq::empty());
        assert(base58_digits(n)[0] == alphabet()[n as int]);
        assert(alphabet()[0] == '1') by {
            reveal_strlit("123456789ABCDEFGHJKLMNPQRSTUVWXYZabcdefghijkmnopqrstuvwxyz");
        }
        if base58_digits(n)[0] == '1' {
            lemma_alphabet_is_injective(0, n as int);
        }
    } else {
        lemma_no_leading_zero_digit(n / 58);
    }
}

/// Different numbers have different digits.
proof fn lemma_digits_are_injective(n: nat, m: nat)
    requires
        base58_digits(n) == base58_digits(m),
    ensures
        n == m,
    decreases n,
{
    if n > 0 && m > 0 {
        let a = base58_digits(n);
        let b = base58_digits(m);
        assert(a.last() == alphabet()[(n % 58) as int]);
        assert(b.last() == alphabet()[(m % 58) as int]);
        lemma_alphabet_is_injective((n % 58) as int, (m % 58) as int);
        assert(a.drop_last() =~= base58_digits(n / 58));
        assert(b.drop_last() =~= base58_digits(m / 58));
        lemma_digits_are_injective(n / 58, m / 58);
    } else if n > 0 {
        lemma_no_leading_zero_digit(n);
    } else if m > 0 {
        lemma_no_leading_zero_digit(m);
    }
}

/// A shorter run of leading `1`s shows in the text.
proof fn lemma_leading_ones(z: nat, n: nat, y: nat, m: nat)
    requires
        Seq::new(z, |i: int| '1') + base58_digits(n) == Seq::new(y, |i: int| '1')
            + base58_digits(m),
    ensures
        z >= y,
{
    let left = Seq::new(z, |i: int| '1') + base58_digits(n);
    let right = Seq::new(y, |i: int| '1') + base58_digits(m);
    if z < y {
        assert(right[z as int] == '1');
        if n == 0 {
            assert(left.len() == z);
            assert(right.len() >= y);
        } else {
            lemma_no_leading_zero_digit(n);
            assert(left[z as int] == base58_digits(n)[0]);
        }
    }
}

/// Two keys with the same base58 text are the same key.
pub proof fn law_base58_is_injective(a: Seq<u8>, b: Seq<u8>)
    requires
        a.len() == b.len(),
        base58(a) == base58(b),
    ensures
        a == b,
{
    let (z, n) = (leading_zeros(a), bytes::big_endian(a));
    let (y, m) = (leading_zeros(b), bytes::big_endian(b));
    lemma_leading_ones(z, n, y, m);
    lemma_leading_ones(y, m, z, n);
    assert(base58(a).skip(z as int) =~= base58_digits(n));
    assert(base58(b).skip(y as int) =~= base58_digits(m));
    lemma_digits_are_injective(n, m);
    bytes::lemma_big_endian_is_injective(a, b);
}

/// Every character of a base58 text is a digit of base 58.
pub proof fn lemma_base58_chars(data: Seq<u8>, i: int)
    requires
        0 <= i < base58(data).len(),
    ensures
        alphabet().contains(base58(data)[i]),
{
    reveal_strlit("123456789ABCDEFGHJKLMNPQRSTUVWXYZabcdefghijkmnopqrstuvwxyz");
    let z = leading_zeros(data);
    if i < z {
        assert(alphabet()[0] == '1');
    } else {
        lemma_digit_chars(bytes::big_endian(data), i - z);
    }
}

proof fn lemma_digit_chars(n: nat, i: int)
    requires
        0 <= i < base58_digits(n).len(),
    ensures
        alphabet().contains(base58_digits(n)[i]),
    decreases n,
{
    reveal_strlit("123456789ABCDEFGHJKLMNPQRSTUVWXYZabcdefghijkmnopqrstuvwxyz");
    if i < base58_digits(n / 58).len() {
        lemma_digit_chars(n / 58, i);
    } else {
        assert(base58_digits(n)[i] == alphabet()[(n % 58) as int]);
    }
}

} // verus!
