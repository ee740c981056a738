//! The rows that accounts become.
use vstd::prelude::*;

use crate::account::StoredAccount;
use crate::base58;
use crate::borsh_fields;
use crate::bytes;
use crate::json;
use crate::mpl_metadata::{Creator, Metadata, MetadataExt, MetadataExtV1_2, MetadataExtV1_2View, MetadataView};
use crate::token::{Mint, MintView, TokenAccount, TokenAccountView};
use crate::value;
use crate::value::{Value, ValueView};

verus! {

/// The cell of a key: its base58 text.
pub open spec fn address_cell(key: Seq<u8>) -> ValueView {
    ValueView::Text(base58::base58(key))
}

/// The cell of a key that may be missing.
pub open spec fn optional_address_cell(key: Option<Seq<u8>>) -> ValueView {
    match key {
        Some(k) => address_cell(k),
        None => ValueView::Null,
    }
}

/// The cell of a 64-bit number, stored with the bits it has.
pub open spec fn number_cell(n: u64) -> ValueView {
    ValueView::Integer(bytes::twos_complement(n))
}

/// The cell of a 64-bit number that may be missing.
pub open spec fn optional_number_cell(n: Option<u64>) -> ValueView {
    match n {
        Some(n) => number_cell(n),
        None => ValueView::Null,
    }
}

/// The cell of a truth value: 1 or 0.
pub open spec fn flag_cell(b: bool) -> ValueView {
    ValueView::Integer(
        if b {
            1
        } else {
            0
        },
    )
}

/// The row of a token account.
pub open spec fn token_account_row(pubkey: Seq<u8>, account: TokenAccountView) -> Seq<ValueView> {
    seq![
        address_cell(pubkey),
        address_cell(account.mint),
        address_cell(account.owner),
        number_cell(account.amount),
        optional_address_cell(account.delegate),
        ValueView::Integer(account.state as int),
        optional_number_cell(account.is_native),
        number_cell(account.delegated_amount),
        optional_address_cell(account.close_authority),
    ]
}

/// The row of a mint.
pub open spec fn token_mint_row(pubkey: Seq<u8>, mint: MintView) -> Seq<ValueView> {
    seq![
        address_cell(pubkey),
        optional_address_cell(mint.mint_authority),
        number_cell(mint.supply),
        ValueView::Integer(mint.decimals as int),
        flag_cell(mint.is_initialized),
        optional_address_cell(mint.freeze_authority),
    ]
}

/// The addresses of a list of creators, as texts.
pub open spec fn creator_addresses(creators: Seq<borsh_fields::CreatorEntry>) -> Seq<Seq<char>> {
    creators.map_values(|creator: borsh_fields::CreatorEntry| base58::base58(creator.0))
}

/// The cell of a list of creators that may be missing: a JSON array of their addresses.
pub open spec fn creators_cell(creators: Option<Seq<borsh_fields::CreatorEntry>>) -> ValueView {
    match creators {
        Some(list) => ValueView::Text(json::json_array(creator_addresses(list))),
        None => ValueView::Null,
    }
}

/// The cell of an edition nonce, which the extension may lack, as the extension itself may
/// be missing.
pub open spec fn edition_nonce_cell(ext: Option<MetadataExt>) -> ValueView {
    match ext {
        Some(MetadataExt { edition_nonce: Some(n) }) => ValueView::Integer(n as int),
        _ => ValueView::Null,
    }
}

/// Whether the collection is verified, and its key, if the second extension names one.
pub open spec fn collection_of(ext: Option<MetadataExtV1_2View>) -> Option<(bool, Seq<u8>)> {
    match ext {
        Some(e) => e.collection,
        None => None,
    }
}

/// The cell that tells whether the collection is verified.
pub open spec fn collection_verified_cell(collection: Option<(bool, Seq<u8>)>) -> ValueView {
    match collection {
        Some((verified, key)) => flag_cell(verified),
        None => ValueView::Null,
    }
}

/// The cell of the key of the collection.
pub open spec fn collection_key_cell(collection: Option<(bool, Seq<u8>)>) -> ValueView {
    match collection {
        Some((verified, key)) => address_cell(key),
        None => ValueView::Null,
    }
}

/// The row of a mint's metadata, with the extensions that stand behind it.
pub open spec fn token_metadata_row(
    pubkey: Seq<u8>,
    meta_v1: MetadataView,
    meta_v1_1: Option<MetadataExt>,
    meta_v1_2: Option<MetadataExtV1_2View>,
) -> Seq<ValueView> {
    seq![
        address_cell(pubkey),
        address_cell(meta_v1.mint),
        ValueView::Text(meta_v1.data.name),
        address_cell(meta_v1.update_authority),
        creators_cell(meta_v1.data.creators),
        ValueView::Text(meta_v1.data.symbol),
        ValueView::Text(meta_v1.data.uri),
        ValueView::Integer(meta_v1.data.seller_fee_basis_points as int),
        flag_cell(meta_v1.primary_sale_happened),
        flag_cell(meta_v1.is_mutable),
        edition_nonce_cell(meta_v1_1),
        collection_verified_cell(collection_of(meta_v1_2)),
        collection_key_cell(collection_of(meta_v1_2)),
    ]
}

fn address(key: &[u8; 32]) -> (cell: Value)
    ensures
        cell@ == address_cell(key@),
{
    Value::Text(base58::encode_key(key))
}

fn optional_address(key: &Option<[u8; 32]>) -> (cell: Value)
    ensures
        cell@ == optional_address_cell(crate::token::optional_key(*key)),
{
    match key {
        Some(k) => address(k),
        None => Value::Null,
    }
}

fn number(n: u64) -> (cell: Value)
    ensures
        cell@ == number_cell(n),
{
    Value::Integer(bytes::as_i64(n))
}

fn optional_number(n: Option<u64>) -> (cell: Value)
    ensures
        cell@ == optional_number_cell(n),
{
    match n {
        Some(n) => number(n),
        None => Value::Null,
    }
}

fn flag(b: bool) -> (cell: Value)
    ensures
        cell@ == flag_cell(b),
{
    if b {
        Value::Integer(1)
    } else {
        Value::Integer(0)
    }
}

fn creators(list: &Option<Vec<Creator>>) -> (cell: Value)
    ensures
        cell@ == creators_cell(
            (match list {
                Some(v) => Some(crate::mpl_metadata::creators_view(v@)),
                None => None,
            }),
        ),
{
    let list = match list {
        Some(list) => list,
        None => return Value::Null,
    };
    let mut addresses: Vec<String> = Vec::new();
    let mut i: usize = 0;
    while i < list.len()
        invariant
            i <= list.len(),
            addresses@.len() == i,
            forall|j: int|
                0 <= j < i ==> (#[trigger] addresses@[j])@ == base58::base58(list@[j].address@),
        decreases list.len() - i,
    {
        addresses.push(base58::encode_key(&list[i].address));
        i += 1;
    }
    assert(json::texts(addresses@) =~= creator_addresses(
        crate::mpl_metadata::creators_view(list@),
    ));
    Value::Text(json::write_string_array(&addresses).unwrap())
}

/// Makes the row of a token account.
pub fn prepare_token_account_params(
    account: &StoredAccount,
    token_account: &TokenAccount,
) -> (row: Vec<Value>)
    ensures
        value::values_view(row@) == token_account_row(account@.pubkey, token_account@),
{
    let mut row: Vec<Value> = Vec::new();
    row.push(address(&account.pubkey));
    row.push(address(&token_account.mint));
    row.push(address(&token_account.owner));
    row.push(number(token_account.amount));
    row.push(optional_address(&token_account.delegate));
    row.push(Value::Integer(token_account.state as i64));
    row.push(optional_number(token_account.is_native));
    row.push(number(token_account.delegated_amount));
    row.push(optional_address(&token_account.close_authority));
    assert(value::values_view(row@) =~= token_account_row(account@.pubkey, token_account@));
    row
}

/// Makes the row of a mint.
pub fn prepare_token_mint_params(account: &StoredAccount, token_mint: &Mint) -> (row: Vec<Value>)
    ensures
        value::values_view(row@) == token_mint_row(account@.pubkey, token_mint@),
{
    let mut row: Vec<Value> = Vec::new();
    row.push(address(&account.pubkey));
    row.push(optional_address(&token_mint.mint_authority));
    row.push(number(token_mint.supply));
    row.push(Value::Integer(token_mint.decimals as i64));
    row.push(flag(token_mint.is_initialized));
    row.push(optional_address(&token_mint.freeze_authority));
    assert(value::values_view(row@) =~= token_mint_row(account@.pubkey, token_mint@));
    row
}

/// What the second extension holds, if there is one.
pub open spec fn ext_v1_2_view(ext: Option<&MetadataExtV1_2>) -> Option<MetadataExtV1_2View> {
    match ext {
        Some(e) => Some(e@),
        None => None,
    }
}

/// The first extension, if there is one.
pub open spec fn ext_view(ext: Option<&MetadataExt>) -> Option<MetadataExt> {
    match ext {
        Some(e) => Some(*e),
        None => None,
    }
}

/// Makes the row of a mint's metadata.
pub fn prepare_token_metadata_params(
    account: &StoredAccount,
    meta_v1: &Metadata,
    meta_v1_1: Option<&MetadataExt>,
    meta_v1_2: Option<&MetadataExtV1_2>,
) -> (row: Vec<Value>)
    ensures
        value::values_view(row@) == token_metadata_row(
            account@.pubkey,
            meta_v1@,
            ext_view(meta_v1_1),
            ext_v1_2_view(meta_v1_2),
        ),
{
    let edition_nonce = match meta_v1_1 {
        Some(ext) => match ext.edition_nonce {
            Some(n) => Value::Integer(n as i64),
            None => Value::Null,
        },
        None => Value::Null,
    };
    let (collection_verified, collection_key) = match meta_v1_2 {
        Some(ext) => match &ext.collection {
            Some(collection) => (flag(collection.verified), address(&collection.key)),
            None => (Value::Null, Value::Null),
        },
        None => (Value::Null, Value::Null),
    };
    let mut row: Vec<Value> = Vec::new();
    row.push(address(&account.pubkey));
    row.push(address(&meta_v1.mint));
    row.push(Value::Text(meta_v1.data.name.clone()));
    row.push(address(&meta_v1.update_authority));
    row.push(creators(&meta_v1.data.creators));
    row.push(Value::Text(meta_v1.data.symbol.clone()));
    row.push(Value::Text(meta_v1.data.uri.clone()));
    row.push(Value::Integer(meta_v1.data.seller_fee_basis_points as i64));
    row.push(flag(meta_v1.primary_sale_happened));
    row.push(flag(meta_v1.is_mutable));
    row.push(edition_nonce);
    row.push(collection_verified);
    row.push(collection_key);
    assert(value::values_view(row@) =~= token_metadata_row(
        account@.pubkey,
        meta_v1@,
        ext_view(meta_v1_1),
        ext_v1_2_view(meta_v1_2),
    ));
    row
}

} // verus!
