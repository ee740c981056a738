//! How mints and token accounts are written as bytes, and that they are read as what was
//! written.
use vstd::prelude::*;

use crate::bytes;
use crate::token;
use crate::token::{Mint, MintView, TokenAccount, TokenAccountView, TokenKind};
use crate::wire;

verus! {

/// A key that may be missing: a tag of four bytes, and the key, or whatever is in its place.
pub open spec fn optional_key_bytes(key: Option<Seq<u8>>, filler: Seq<u8>) -> Seq<u8> {
    match key {
        None => seq![0u8, 0u8, 0u8, 0u8] + filler,
        Some(k) => seq![1u8, 0u8, 0u8, 0u8] + k,
    }
}

/// A 64-bit number that may be missing: a tag of four bytes, and the number, or whatever is
/// in its place.
pub open spec fn optional_number_bytes(n: Option<u64>, filler: Seq<u8>) -> Seq<u8> {
    match n {
        None => seq![0u8, 0u8, 0u8, 0u8] + filler,
        Some(n) => seq![1u8, 0u8, 0u8, 0u8] + wire::number_bytes(n as nat, 8),
    }
}

/// Whether a key that may be missing has 32 bytes.
pub open spec fn is_optional_key(key: Option<Seq<u8>>) -> bool {
    key matches Some(k) ==> k.len() == 32
}

/// A mint that has been initialized, as bytes. What stands in the place of a missing
/// authority does not matter.
pub open spec fn mint_bytes(m: MintView, filler: Seq<u8>, other_filler: Seq<u8>) -> Seq<u8> {
    optional_key_bytes(m.mint_authority, filler) + wire::number_bytes(m.supply as nat, 8) + seq![
        m.decimals,
        1u8,
    ] + optional_key_bytes(m.freeze_authority, other_filler)
}

/// Whether a mint can be written: it has been initialized, and its keys have 32 bytes.
pub open spec fn mint_can_be_written(m: MintView) -> bool {
    &&& m.is_initialized
    &&& is_optional_key(m.mint_authority)
    &&& is_optional_key(m.freeze_authority)
}

/// A token account as bytes. What stands in the place of a missing field does not matter.
pub open spec fn token_account_bytes(
    a: TokenAccountView,
    filler: Seq<u8>,
    other_filler: Seq<u8>,
    short_filler: Seq<u8>,
) -> Seq<u8> {
    a.mint + a.owner + wire::number_bytes(a.amount as nat, 8) + optional_key_bytes(
        a.delegate,
        filler,
    ) + seq![a.state] + optional_number_bytes(a.is_native, short_filler) + wire::number_bytes(
        a.delegated_amount as nat,
        8,
    ) + optional_key_bytes(a.close_authority, other_filler)
}

/// Whether a token account can be written: it is initialized (1) or frozen (2), and its keys
/// have 32 bytes.
pub open spec fn token_account_can_be_written(a: TokenAccountView) -> bool {
    &&& a.mint.len() == 32
    &&& a.owner.len() == 32
    &&& a.state == 1 || a.state == 2
    &&& is_optional_key(a.delegate)
    &&& is_optional_key(a.close_authority)
}

/// The numbers that four bytes spell.
proof fn lemma_tag(data: Seq<u8>, at: int)
    requires
        0 <= at,
        at + 4 <= data.len(),
    ensures
        token::tag_at(data, at) == 0 <==> (data[at] == 0 && data[at + 1] == 0 && data[at + 2] == 0
            && data[at + 3] == 0),
        token::tag_at(data, at) == 1 <==> (data[at] == 1 && data[at + 1] == 0 && data[at + 2] == 0
            && data[at + 3] == 0),
{
    let tag = data.subrange(at, at + 4);
    let t1 = tag.skip(1);
    let t2 = t1.skip(1);
    let t3 = t2.skip(1);
    let t4 = t3.skip(1);
    assert(t4.len() == 0);
    assert(bytes::little_endian(t4) == 0);
    assert(bytes::little_endian(t3) == t3[0]);
    assert(bytes::little_endian(t2) == t2[0] + 256 * t3[0]);
    assert(bytes::little_endian(t1) == t1[0] + 256 * (t2[0] + 256 * t3[0]));
    assert(bytes::little_endian(tag) == tag[0] + 256 * (t1[0] + 256 * (t2[0] + 256 * t3[0])));
}

/// Where bytes lie inside others.
spec fn lies_at(part: Seq<u8>, data: Seq<u8>, at: int) -> bool {
    &&& 0 <= at
    &&& at + part.len() <= data.len()
    &&& data.subrange(at, at + part.len()) == part
}

proof fn lemma_optional_key(data: Seq<u8>, at: int, key: Option<Seq<u8>>, filler: Seq<u8>)
    requires
        lies_at(optional_key_bytes(key, filler), data, at),
        is_optional_key(key),
        filler.len() == 32,
    ensures
        token::tag_at(data, at) <= 1,
        token::optional_key_at(data, at) == key,
{
    let part = optional_key_bytes(key, filler);
    assert forall|i: int| 0 <= i < 36 implies data[at + i] == part[i] by {
        assert(part[i] == data.subrange(at, at + 36)[i]);
    }
    lemma_tag(data, at);
    assert(data[at] == part[0] && data[at + 1] == part[1] && data[at + 2] == part[2] && data[at + 3]
        == part[3]);
    if let Some(k) = key {
        assert(data.subrange(at + 4, at + 36) =~= k) by {
            assert forall|i: int| 0 <= i < 32 implies data[at + 4 + i] == k[i] by {
                assert(data[at + (4 + i)] == part[4 + i]);
            }
        }
    }
}

proof fn lemma_optional_number(data: Seq<u8>, at: int, n: Option<u64>, filler: Seq<u8>)
    requires
        lies_at(optional_number_bytes(n, filler), data, at),
        filler.len() == 8,
    ensures
        token::tag_at(data, at) <= 1,
        token::optional_number_at(data, at) == n,
{
    let part = optional_number_bytes(n, filler);
    if let Some(number) = n {
        wire::lemma_numbers_in();
        wire::law_number_round_trip(number as nat, 8);
    }
    assert forall|i: int| 0 <= i < 12 implies data[at + i] == part[i] by {
        assert(part[i] == data.subrange(at, at + 12)[i]);
    }
    lemma_tag(data, at);
    assert(data[at] == part[0] && data[at + 1] == part[1] && data[at + 2] == part[2] && data[at + 3]
        == part[3]);
    if let Some(number) = n {
        let written = wire::number_bytes(number as nat, 8);
        assert(data.subrange(at + 4, at + 12) =~= written) by {
            assert forall|i: int| 0 <= i < 8 implies data[at + 4 + i] == written[i] by {
                assert(data[at + (4 + i)] == part[4 + i]);
            }
        }
    }
}

proof fn lemma_number(data: Seq<u8>, at: int, n: u64)
    requires
        lies_at(wire::number_bytes(n as nat, 8), data, at),
    ensures
        token::number_at(data, at) == n,
{
    wire::lemma_numbers_in();
    wire::law_number_round_trip(n as nat, 8);
}

/// A mint is read from its bytes, whatever its supply, decimals and authorities are.
pub proof fn law_mint_round_trip(m: MintView, filler: Seq<u8>, other_filler: Seq<u8>)
    requires
        mint_can_be_written(m),
        filler.len() == 32,
        other_filler.len() == 32,
    ensures
        mint_bytes(m, filler, other_filler).len() == 82,
        token::mint_of(mint_bytes(m, filler, other_filler)) == Some(m),
{
    let data = mint_bytes(m, filler, other_filler);
    wire::lemma_numbers_in();
    wire::law_number_round_trip(m.supply as nat, 8);
    assert(data.subrange(0, 36) =~= optional_key_bytes(m.mint_authority, filler));
    assert(data.subrange(36, 44) =~= wire::number_bytes(m.supply as nat, 8));
    assert(data.subrange(46, 82) =~= optional_key_bytes(m.freeze_authority, other_filler));
    lemma_optional_key(data, 0, m.mint_authority, filler);
    lemma_number(data, 36, m.supply);
    lemma_optional_key(data, 46, m.freeze_authority, other_filler);
}

/// The bytes from which an optional key is read.
proof fn lemma_optional_key_read(data: Seq<u8>, at: int)
    requires
        0 <= at,
        at + 36 <= data.len(),
        token::tag_at(data, at) <= 1,
    ensures
        is_optional_key(token::optional_key_at(data, at)),
        data.subrange(at, at + 36) == optional_key_bytes(
            token::optional_key_at(data, at),
            data.subrange(at + 4, at + 36),
        ),
{
    lemma_tag(data, at);
    assert(data.subrange(at, at + 36) =~= optional_key_bytes(
        token::optional_key_at(data, at),
        data.subrange(at + 4, at + 36),
    ));
}

proof fn lemma_number_read(data: Seq<u8>, at: int)
    requires
        0 <= at,
        at + 8 <= data.len(),
    ensures
        data.subrange(at, at + 8) == wire::number_bytes(token::number_at(data, at) as nat, 8),
{
    wire::lemma_numbers_in();
    wire::law_number_has_one_writing(data.subrange(at, at + 8));
}

/// A mint is read from its own bytes only.
pub proof fn law_mint_has_one_writing(data: Seq<u8>)
    ensures
        token::mint_of(data) matches Some(m) ==> mint_can_be_written(m) && data == mint_bytes(
            m,
            data.subrange(4, 36),
            data.subrange(50, 82),
        ),
{
    if let Some(m) = token::mint_of(data) {
        lemma_optional_key_read(data, 0);
        lemma_number_read(data, 36);
        lemma_optional_key_read(data, 46);
        assert(data =~= data.subrange(0, 36) + data.subrange(36, 44) + seq![m.decimals, 1u8]
            + data.subrange(46, 82));
    }
}

/// A token account is read from its bytes, whatever its fields are.
pub proof fn law_token_account_round_trip(
    a: TokenAccountView,
    filler: Seq<u8>,
    other_filler: Seq<u8>,
    short_filler: Seq<u8>,
)
    requires
        token_account_can_be_written(a),
        filler.len() == 32,
        other_filler.len() == 32,
        short_filler.len() == 8,
    ensures
        token_account_bytes(a, filler, other_filler, short_filler).len() == 165,
        token::token_account_of(token_account_bytes(a, filler, other_filler, short_filler))
            == Some(a),
{
    let data = token_account_bytes(a, filler, other_filler, short_filler);
    wire::lemma_numbers_in();
    wire::law_number_round_trip(a.amount as nat, 8);
    wire::law_number_round_trip(a.delegated_amount as nat, 8);
    if let Some(n) = a.is_native {
        wire::law_number_round_trip(n as nat, 8);
    }
    assert(data.subrange(0, 32) =~= a.mint);
    assert(data.subrange(32, 64) =~= a.owner);
    assert(data.subrange(64, 72) =~= wire::number_bytes(a.amount as nat, 8));
    assert(data.subrange(72, 108) =~= optional_key_bytes(a.delegate, filler));
    assert(data[108] == a.state);
    assert(data.subrange(109, 121) =~= optional_number_bytes(a.is_native, short_filler));
    assert(data.subrange(121, 129) =~= wire::number_bytes(a.delegated_amount as nat, 8));
    assert(data.subrange(129, 165) =~= optional_key_bytes(a.close_authority, other_filler));
    lemma_number(data, 64, a.amount);
    lemma_optional_key(data, 72, a.delegate, filler);
    lemma_optional_number(data, 109, a.is_native, short_filler);
    lemma_number(data, 121, a.delegated_amount);
    lemma_optional_key(data, 129, a.close_authority, other_filler);
}

/// A token account is read from its own bytes only.
pub proof fn law_token_account_has_one_writing(data: Seq<u8>)
    ensures
        token::token_account_of(data) matches Some(a) ==> token_account_can_be_written(a) && data
            == token_account_bytes(
            a,
            data.subrange(76, 108),
            data.subrange(133, 165),
            data.subrange(113, 121),
        ),
{
    if let Some(a) = token::token_account_of(data) {
        lemma_number_read(data, 64);
        lemma_optional_key_read(data, 72);
        lemma_tag(data, 109);
        lemma_number_read(data, 113);
        lemma_number_read(data, 121);
        lemma_optional_key_read(data, 129);
        assert(data.subrange(109, 121) =~= optional_number_bytes(
            a.is_native,
            data.subrange(113, 121),
        ));
        assert(data =~= data.subrange(0, 32) + data.subrange(32, 64) + data.subrange(64, 72)
            + data.subrange(72, 108) + seq![a.state] + data.subrange(109, 121) + data.subrange(
            121,
            129,
        ) + data.subrange(129, 165));
    }
}

/// What the token program keeps in an account is told by its recorded size: 165 bytes are a
/// token account, 82 a mint, 355 a multisignature account, and any other size is unexpected.
/// (A size that the machine's `usize` does not hold is cut to it first.)
pub proof fn law_sizes_tell_the_kind(data_len: u64)
    requires
        data_len <= usize::MAX,
    ensures
        token::kind_of_len(data_len) == TokenKind::Account <==> data_len == 165,
        token::kind_of_len(data_len) == TokenKind::Mint <==> data_len == 82,
        token::kind_of_len(data_len) == TokenKind::Multisig <==> data_len == 355,
{
}

/// Mints and token accounts are seen with the fields that they have.
pub proof fn law_tokens_are_seen_as_they_are(m: Mint, a: TokenAccount, key: [u8; 32])
    ensures
        m@.supply == m.supply,
        m@.decimals == m.decimals,
        m@.is_initialized == m.is_initialized,
        m@.mint_authority is None <==> m.mint_authority is None,
        m.mint_authority == Some(key) ==> m@.mint_authority == Some(key@),
        m@.freeze_authority is None <==> m.freeze_authority is None,
        m.freeze_authority == Some(key) ==> m@.freeze_authority == Some(key@),
        a@.mint == a.mint@,
        a@.owner == a.owner@,
        a@.amount == a.amount,
        a@.state == a.state,
        a@.is_native == a.is_native,
        a@.delegated_amount == a.delegated_amount,
        a@.delegate is None <==> a.delegate is None,
        a.delegate == Some(key) ==> a@.delegate == Some(key@),
        a@.close_authority is None <==> a.close_authority is None,
        a.close_authority == Some(key) ==> a@.close_authority == Some(key@),
{
}

} // verus!
