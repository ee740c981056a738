//! What the cells of rows tell.
use vstd::prelude::*;

use crate::account::StoredAccount;
use crate::base58;
use crate::borsh_fields::CreatorEntry;
use crate::json;
use crate::metadata_wire;
use crate::mpl_metadata::{MetadataExt, MetadataExtV1_2View, MetadataView};
use crate::rows;
use crate::token::{MintView, TokenAccountView};
use crate::token_wire;
use crate::value::{Value, ValueView};

verus! {

/// A 64-bit number is stored as it is where a signed column can hold it, and else as the
/// negative number with the same bits. So the cell tells all 64 bits of the number.
pub proof fn law_number_cells(n: u64, m: u64)
    ensures
        n < 0x8000_0000_0000_0000 ==> rows::number_cell(n) == ValueView::Integer(n as int),
        n >= 0x8000_0000_0000_0000 ==> rows::number_cell(n) == ValueView::Integer(
            n - 0x1_0000_0000_0000_0000,
        ),
        rows::number_cell(n) == rows::number_cell(m) <==> n == m,
        rows::optional_number_cell(Some(n)) == rows::number_cell(n),
        rows::optional_number_cell(None) == ValueView::Null,
{
}

/// The cell of a key is its base58 text, and tells all 32 bytes of the key.
pub proof fn law_address_cells(a: Seq<u8>, b: Seq<u8>)
    requires
        a.len() == 32,
        b.len() == 32,
    ensures
        rows::address_cell(a) == ValueView::Text(base58::base58(a)),
        rows::address_cell(a) == rows::address_cell(b) <==> a == b,
        rows::optional_address_cell(Some(a)) == rows::address_cell(a),
        rows::optional_address_cell(None) == ValueView::Null,
{
    if rows::address_cell(a) == rows::address_cell(b) {
        base58::law_base58_is_injective(a, b);
    }
}

proof fn lemma_optional_addresses(a: Option<Seq<u8>>, b: Option<Seq<u8>>)
    requires
        token_wire::is_optional_key(a),
        token_wire::is_optional_key(b),
    ensures
        rows::optional_address_cell(a) == rows::optional_address_cell(b) <==> a == b,
{
    if a is Some && b is Some {
        law_address_cells(a.unwrap(), b.unwrap());
    }
}

proof fn lemma_optional_numbers(a: Option<u64>, b: Option<u64>)
    ensures
        rows::optional_number_cell(a) == rows::optional_number_cell(b) <==> a == b,
{
}

/// The number that a signed column holds for an unsigned one.
pub open spec fn stored_number(n: u64) -> ValueView {
    if n < 0x8000_0000_0000_0000 {
        ValueView::Integer(n as int)
    } else {
        ValueView::Integer(n - 0x1_0000_0000_0000_0000)
    }
}

/// The text that stands for a key.
pub open spec fn stored_key(key: Seq<u8>) -> ValueView {
    ValueView::Text(base58::base58(key))
}

/// The number 1 or 0 that stands for a truth value.
pub open spec fn stored_flag(b: bool) -> ValueView {
    if b {
        ValueView::Integer(1)
    } else {
        ValueView::Integer(0)
    }
}

/// Each column of a token account's row holds its field, and a missing field is NULL.
pub proof fn law_token_account_columns(pubkey: Seq<u8>, a: TokenAccountView)
    ensures
        rows::token_account_row(pubkey, a).len() == 9,
        rows::token_account_row(pubkey, a)[0] == stored_key(pubkey),
        rows::token_account_row(pubkey, a)[1] == stored_key(a.mint),
        rows::token_account_row(pubkey, a)[2] == stored_key(a.owner),
        rows::token_account_row(pubkey, a)[3] == stored_number(a.amount),
        a.delegate is None ==> rows::token_account_row(pubkey, a)[4] == ValueView::Null,
        a.delegate matches Some(key) ==> rows::token_account_row(pubkey, a)[4] == stored_key(key),
        rows::token_account_row(pubkey, a)[5] == ValueView::Integer(a.state as int),
        a.is_native is None ==> rows::token_account_row(pubkey, a)[6] == ValueView::Null,
        a.is_native matches Some(n) ==> rows::token_account_row(pubkey, a)[6] == stored_number(n),
        rows::token_account_row(pubkey, a)[7] == stored_number(a.delegated_amount),
        a.close_authority is None ==> rows::token_account_row(pubkey, a)[8] == ValueView::Null,
        a.close_authority matches Some(key) ==> rows::token_account_row(pubkey, a)[8]
            == stored_key(key),
{
}

/// Each column of a token account's row tells its field, and no other: two rows have the
/// same cell in a column exactly if the accounts have the same field there.
pub proof fn law_token_account_cells_tell_the_fields(
    p: Seq<u8>,
    a: TokenAccountView,
    q: Seq<u8>,
    b: TokenAccountView,
)
    requires
        p.len() == 32,
        q.len() == 32,
        token_wire::token_account_can_be_written(a),
        token_wire::token_account_can_be_written(b),
    ensures
        ({
            let x = rows::token_account_row(p, a);
            let y = rows::token_account_row(q, b);
            &&& x[0] == y[0] <==> p == q
            &&& x[1] == y[1] <==> a.mint == b.mint
            &&& x[2] == y[2] <==> a.owner == b.owner
            &&& x[3] == y[3] <==> a.amount == b.amount
            &&& x[4] == y[4] <==> a.delegate == b.delegate
            &&& x[5] == y[5] <==> a.state == b.state
            &&& x[6] == y[6] <==> a.is_native == b.is_native
            &&& x[7] == y[7] <==> a.delegated_amount == b.delegated_amount
            &&& x[8] == y[8] <==> a.close_authority == b.close_authority
        }),
{
    law_address_cells(p, q);
    law_address_cells(a.mint, b.mint);
    law_address_cells(a.owner, b.owner);
    law_number_cells(a.amount, b.amount);
    lemma_optional_addresses(a.delegate, b.delegate);
    lemma_optional_numbers(a.is_native, b.is_native);
    law_number_cells(a.delegated_amount, b.delegated_amount);
    lemma_optional_addresses(a.close_authority, b.close_authority);
}

/// Each column of a mint's row holds its field, and a missing field is NULL.
pub proof fn law_token_mint_columns(pubkey: Seq<u8>, m: MintView)
    ensures
        rows::token_mint_row(pubkey, m).len() == 6,
        rows::token_mint_row(pubkey, m)[0] == stored_key(pubkey),
        m.mint_authority is None ==> rows::token_mint_row(pubkey, m)[1] == ValueView::Null,
        m.mint_authority matches Some(key) ==> rows::token_mint_row(pubkey, m)[1] == stored_key(
            key,
        ),
        rows::token_mint_row(pubkey, m)[2] == stored_number(m.supply),
        rows::token_mint_row(pubkey, m)[3] == ValueView::Integer(m.decimals as int),
        rows::token_mint_row(pubkey, m)[4] == stored_flag(m.is_initialized),
        m.freeze_authority is None ==> rows::token_mint_row(pubkey, m)[5] == ValueView::Null,
        m.freeze_authority matches Some(key) ==> rows::token_mint_row(pubkey, m)[5] == stored_key(
            key,
        ),
{
}

/// Each column of a mint's row tells its field, and no other.
pub proof fn law_token_mint_cells_tell_the_fields(
    p: Seq<u8>,
    a: MintView,
    q: Seq<u8>,
    b: MintView,
)
    requires
        p.len() == 32,
        q.len() == 32,
        token_wire::is_optional_key(a.mint_authority),
        token_wire::is_optional_key(b.mint_authority),
        token_wire::is_optional_key(a.freeze_authority),
        token_wire::is_optional_key(b.freeze_authority),
    ensures
        ({
            let x = rows::token_mint_row(p, a);
            let y = rows::token_mint_row(q, b);
            &&& x[0] == y[0] <==> p == q
            &&& x[1] == y[1] <==> a.mint_authority == b.mint_authority
            &&& x[2] == y[2] <==> a.supply == b.supply
            &&& x[3] == y[3] <==> a.decimals == b.decimals
            &&& x[4] == y[4] <==> a.is_initialized == b.is_initialized
            &&& x[5] == y[5] <==> a.freeze_authority == b.freeze_authority
        }),
{
    law_address_cells(p, q);
    lemma_optional_addresses(a.mint_authority, b.mint_authority);
    law_number_cells(a.supply, b.supply);
    lemma_optional_addresses(a.freeze_authority, b.freeze_authority);
}

/// The addresses of creators.
pub open spec fn creator_keys(list: Seq<CreatorEntry>) -> Seq<Seq<u8>> {
    Seq::new(list.len(), |i: int| list[i].0)
}

/// The addresses of creators that may be missing.
pub open spec fn optional_creator_keys(creators: Option<Seq<CreatorEntry>>) -> Option<
    Seq<Seq<u8>>,
> {
    match creators {
        Some(list) => Some(creator_keys(list)),
        None => None,
    }
}

/// The edition nonce, if there is one.
pub open spec fn edition_nonce(ext: Option<MetadataExt>) -> Option<u8> {
    match ext {
        Some(e) => e.edition_nonce,
        None => None,
    }
}

/// The collection, if there is one.
pub open spec fn collection(ext: Option<MetadataExtV1_2View>) -> Option<(bool, Seq<u8>)> {
    match ext {
        Some(e) => e.collection,
        None => None,
    }
}

/// Whether the collection is verified, if there is one.
pub open spec fn collection_verified(ext: Option<MetadataExtV1_2View>) -> Option<bool> {
    match collection(ext) {
        Some((verified, _)) => Some(verified),
        None => None,
    }
}

/// The key of the collection, if there is one.
pub open spec fn collection_key(ext: Option<MetadataExtV1_2View>) -> Option<Seq<u8>> {
    match collection(ext) {
        Some((_, key)) => Some(key),
        None => None,
    }
}

/// The cell of creators is a JSON array of their addresses, in order, and tells the addresses.
pub proof fn law_creators_cells(a: Option<Seq<CreatorEntry>>, b: Option<Seq<CreatorEntry>>)
    requires
        crate::wire::creators_can_be_written(a),
        crate::wire::creators_can_be_written(b),
    ensures
        a is None ==> rows::creators_cell(a) == ValueView::Null,
        a matches Some(list) ==> rows::creators_cell(a) == ValueView::Text(
            json::json_array(json::key_texts(creator_keys(list))),
        ),
        rows::creators_cell(a) == rows::creators_cell(b) <==> optional_creator_keys(a)
            == optional_creator_keys(b),
{
    if let Some(list) = a {
        assert(rows::creator_addresses(list) =~= json::key_texts(creator_keys(list)));
    }
    if let Some(list) = b {
        assert(rows::creator_addresses(list) =~= json::key_texts(creator_keys(list)));
    }
    if a is Some && b is Some && rows::creators_cell(a) == rows::creators_cell(b) {
        let (x, y) = (creator_keys(a.unwrap()), creator_keys(b.unwrap()));
        assert forall|i: int| 0 <= i < x.len() implies (#[trigger] x[i]).len() == 32 by {
            assert(a.unwrap()[i].0.len() == 32);
        }
        assert forall|i: int| 0 <= i < y.len() implies (#[trigger] y[i]).len() == 32 by {
            assert(b.unwrap()[i].0.len() == 32);
        }
        json::law_arrays_of_keys_are_injective(x, y);
    }
}

/// Each column of a metadata row holds its field, and a missing field is NULL.
pub proof fn law_token_metadata_columns(
    pubkey: Seq<u8>,
    m: MetadataView,
    first: Option<MetadataExt>,
    second: Option<MetadataExtV1_2View>,
)
    requires
        metadata_wire::metadata_can_be_written(m),
    ensures
        ({
            let row = rows::token_metadata_row(pubkey, m, first, second);
            &&& row.len() == 13
            &&& row[0] == stored_key(pubkey)
            &&& row[1] == stored_key(m.mint)
            &&& row[2] == ValueView::Text(m.data.name)
            &&& row[3] == stored_key(m.update_authority)
            &&& m.data.creators is None ==> row[4] == ValueView::Null
            &&& m.data.creators matches Some(list) ==> row[4] == ValueView::Text(
                json::json_array(json::key_texts(creator_keys(list))),
            )
            &&& row[5] == ValueView::Text(m.data.symbol)
            &&& row[6] == ValueView::Text(m.data.uri)
            &&& row[7] == ValueView::Integer(m.data.seller_fee_basis_points as int)
            &&& row[8] == stored_flag(m.primary_sale_happened)
            &&& row[9] == stored_flag(m.is_mutable)
            &&& edition_nonce(first) is None ==> row[10] == ValueView::Null
            &&& edition_nonce(first) matches Some(n) ==> row[10] == ValueView::Integer(n as int)
            &&& collection(second) is None ==> row[11] == ValueView::Null && row[12]
                == ValueView::Null
            &&& collection(second) matches Some((verified, key)) ==> row[11] == stored_flag(
                verified,
            ) && row[12] == stored_key(key)
        }),
{
    law_creators_cells(m.data.creators, m.data.creators);
}

/// Each column of a metadata row tells its field, and no other: two rows have the same cell
/// in a column exactly if the metadata have the same field there.
pub proof fn law_token_metadata_cells_tell_the_fields(
    p: Seq<u8>,
    a: MetadataView,
    a_first: Option<MetadataExt>,
    a_second: Option<MetadataExtV1_2View>,
    q: Seq<u8>,
    b: MetadataView,
    b_first: Option<MetadataExt>,
    b_second: Option<MetadataExtV1_2View>,
)
    requires
        p.len() == 32,
        q.len() == 32,
        metadata_wire::metadata_can_be_written(a),
        metadata_wire::metadata_can_be_written(b),
        collection(a_second) matches Some((_, key)) ==> key.len() == 32,
        collection(b_second) matches Some((_, key)) ==> key.len() == 32,
    ensures
        ({
            let x = rows::token_metadata_row(p, a, a_first, a_second);
            let y = rows::token_metadata_row(q, b, b_first, b_second);
            &&& x[0] == y[0] <==> p == q
            &&& x[1] == y[1] <==> a.mint == b.mint
            &&& x[2] == y[2] <==> a.data.name == b.data.name
            &&& x[3] == y[3] <==> a.update_authority == b.update_authority
            &&& x[4] == y[4] <==> optional_creator_keys(a.data.creators) == optional_creator_keys(
                b.data.creators,
            )
            &&& x[5] == y[5] <==> a.data.symbol == b.data.symbol
            &&& x[6] == y[6] <==> a.data.uri == b.data.uri
            &&& x[7] == y[7] <==> a.data.seller_fee_basis_points == b.data.seller_fee_basis_points
            &&& x[8] == y[8] <==> a.primary_sale_happened == b.primary_sale_happened
            &&& x[9] == y[9] <==> a.is_mutable == b.is_mutable
            &&& x[10] == y[10] <==> edition_nonce(a_first) == edition_nonce(b_first)
            &&& x[11] == y[11] <==> collection_verified(a_second) == collection_verified(b_second)
            &&& x[12] == y[12] <==> collection_key(a_second) == collection_key(b_second)
        }),
{
    law_address_cells(p, q);
    law_address_cells(a.mint, b.mint);
    law_address_cells(a.update_authority, b.update_authority);
    law_creators_cells(a.data.creators, b.data.creators);
    if let (Some((_, k)), Some((_, l))) = (collection(a_second), collection(b_second)) {
        law_address_cells(k, l);
    }
}

/// Stored accounts and cells are seen as they are.
pub proof fn law_inputs_and_cells_are_seen_as_they_are(account: StoredAccount, cell: Value)
    ensures
        account@.pubkey == account.pubkey@ && account@.pubkey.len() == 32,
        account@.owner == account.owner@ && account@.owner.len() == 32,
        account@.data_len == account.data_len,
        account@.data == account.data@,
        cell is Null <==> cell@ is Null,
        cell matches Value::Integer(n) ==> cell@ == ValueView::Integer(n as int),
        cell matches Value::Text(s) ==> cell@ == ValueView::Text(s@),
{
}

} // verus!
