//! How token metadata is written as bytes, and that it is read as what was written.
use vstd::prelude::*;

use crate::borsh_fields;
use crate::borsh_fields::Read;
use crate::mpl_metadata;
use crate::mpl_metadata::{
    AccountKey, Creator, DataView, Metadata, MetadataExt, MetadataExtV1_2,
    MetadataExtV1_2View, MetadataView, TokenStandard, UseMethod,
};
use crate::wire;

verus! {

/// The description of a token as bytes, field by field.
pub open spec fn data_bytes(d: DataView) -> Seq<u8> {
    wire::text_bytes(d.name) + wire::text_bytes(d.symbol) + wire::text_bytes(d.uri)
        + wire::number_bytes(d.seller_fee_basis_points as nat, 2) + wire::creators_bytes(d.creators)
}

/// The metadata of a mint as bytes, field by field.
pub open spec fn metadata_bytes(m: MetadataView) -> Seq<u8> {
    m.update_authority + m.mint + data_bytes(m.data) + wire::flag_bytes(m.primary_sale_happened)
        + wire::flag_bytes(m.is_mutable)
}

/// Whether a description can be written.
pub open spec fn data_can_be_written(d: DataView) -> bool {
    &&& wire::text_fits(d.name)
    &&& wire::text_fits(d.symbol)
    &&& wire::text_fits(d.uri)
    &&& wire::creators_can_be_written(d.creators)
}

/// Whether metadata can be written: with keys of 32 bytes.
pub open spec fn metadata_can_be_written(m: MetadataView) -> bool {
    &&& m.update_authority.len() == 32
    &&& m.mint.len() == 32
    &&& data_can_be_written(m.data)
}

/// It does not matter in which order bytes are put together.
proof fn lemma_regroup(
    a: Seq<u8>,
    b: Seq<u8>,
    c: Seq<u8>,
    d: Seq<u8>,
    e: Seq<u8>,
    tail: Seq<u8>,
)
    ensures
        a + b + c + d + e + tail == a + (b + (c + (d + (e + tail)))),
        a + b + c + d + e == a + (b + (c + (d + e))),
{
    assert(a + b + c + d + e + tail =~= a + (b + (c + (d + (e + tail)))));
    assert(a + b + c + d + e =~= a + (b + (c + (d + e))));
}

/// A description whose fields are read one after the other is read as a whole.
proof fn lemma_data_of(
    d: DataView,
    t0: Seq<u8>,
    t1: Seq<u8>,
    t2: Seq<u8>,
    t3: Seq<u8>,
    t4: Seq<u8>,
    tail: Seq<u8>,
)
    requires
        borsh_fields::string(t0) == Read::<Seq<char>>::Ok((d.name, t1)),
        borsh_fields::string(t1) == Read::<Seq<char>>::Ok((d.symbol, t2)),
        borsh_fields::string(t2) == Read::<Seq<char>>::Ok((d.uri, t3)),
        borsh_fields::short(t3) == Read::<u16>::Ok((d.seller_fee_basis_points, t4)),
        borsh_fields::creators(t4) == Read::<Option<Seq<borsh_fields::CreatorEntry>>>::Ok(
            (d.creators, tail),
        ),
    ensures
        mpl_metadata::data_fields(t0) == Read::<DataView>::Ok((d, tail)),
{
}

/// A description is read from its bytes, whatever stands behind them.
proof fn lemma_data(d: DataView, tail: Seq<u8>)
    requires
        data_can_be_written(d),
    ensures
        mpl_metadata::data_fields(data_bytes(d) + tail) == Read::<DataView>::Ok((d, tail)),
{
    let t4 = wire::creators_bytes(d.creators) + tail;
    let t3 = wire::number_bytes(d.seller_fee_basis_points as nat, 2) + t4;
    let t2 = wire::text_bytes(d.uri) + t3;
    let t1 = wire::text_bytes(d.symbol) + t2;
    lemma_regroup(
        wire::text_bytes(d.name),
        wire::text_bytes(d.symbol),
        wire::text_bytes(d.uri),
        wire::number_bytes(d.seller_fee_basis_points as nat, 2),
        wire::creators_bytes(d.creators),
        tail,
    );
    wire::law_text_round_trip(d.name, t1, 0);
    wire::law_text_round_trip(d.symbol, t2, 0);
    wire::law_text_round_trip(d.uri, t3, 0);
    wire::lemma_short(d.seller_fee_basis_points, t4, 0);
    wire::lemma_creators(d.creators, tail);
    lemma_data_of(d, data_bytes(d) + tail, t1, t2, t3, t4, tail);
}

/// What is wrong with the first field that cannot be read is what is wrong with the
/// description.
pub proof fn law_data_errors(d: DataView, bad: Seq<u8>)
    requires
        data_can_be_written(d),
    ensures
        borsh_fields::string(bad) matches Err(e) ==> {
            &&& mpl_metadata::data_fields(bad) == Read::<DataView>::Err(e)
            &&& mpl_metadata::data_fields(wire::text_bytes(d.name) + bad)
                == Read::<DataView>::Err(e)
            &&& mpl_metadata::data_fields(
                wire::text_bytes(d.name) + (wire::text_bytes(d.symbol) + bad),
            ) == Read::<DataView>::Err(e)
        },
        borsh_fields::short(bad) matches Err(e) ==> mpl_metadata::data_fields(
            wire::text_bytes(d.name) + (wire::text_bytes(d.symbol) + (wire::text_bytes(d.uri)
                + bad)),
        ) == Read::<DataView>::Err(e),
        borsh_fields::creators(bad) matches Err(e) ==> mpl_metadata::data_fields(
            wire::text_bytes(d.name) + (wire::text_bytes(d.symbol) + (wire::text_bytes(d.uri) + (
            wire::number_bytes(d.seller_fee_basis_points as nat, 2) + bad))),
        ) == Read::<DataView>::Err(e),
{
    let symbol = wire::text_bytes(d.symbol);
    let uri = wire::text_bytes(d.uri);
    let fee = wire::number_bytes(d.seller_fee_basis_points as nat, 2);
    if let Err(e) = borsh_fields::string(bad) {
        assert(mpl_metadata::data_fields(wire::text_bytes(d.name) + bad) == Read::<
            DataView,
        >::Err(e)) by {
            wire::law_text_round_trip(d.name, bad, 0);
        }
        assert(mpl_metadata::data_fields(wire::text_bytes(d.name) + (symbol + bad)) == Read::<
            DataView,
        >::Err(e)) by {
            wire::law_text_round_trip(d.name, symbol + bad, 0);
            wire::law_text_round_trip(d.symbol, bad, 0);
        }
    }
    if let Err(e) = borsh_fields::short(bad) {
        wire::law_text_round_trip(d.name, symbol + (uri + bad), 0);
        wire::law_text_round_trip(d.symbol, uri + bad, 0);
        wire::law_text_round_trip(d.uri, bad, 0);
        lemma_error_behind_texts(
            wire::text_bytes(d.name) + (symbol + (uri + bad)),
            symbol + (uri + bad),
            uri + bad,
            bad,
            e,
        );
    }
    if let Err(e) = borsh_fields::creators(bad) {
        wire::law_text_round_trip(d.name, symbol + (uri + (fee + bad)), 0);
        wire::law_text_round_trip(d.symbol, uri + (fee + bad), 0);
        wire::law_text_round_trip(d.uri, fee + bad, 0);
        wire::lemma_short(d.seller_fee_basis_points, bad, 0);
        lemma_error_behind_texts(
            wire::text_bytes(d.name) + (symbol + (uri + (fee + bad))),
            symbol + (uri + (fee + bad)),
            uri + (fee + bad),
            fee + bad,
            e,
        );
    }
}

/// What is wrong behind the texts of a description.
proof fn lemma_error_behind_texts(
    t0: Seq<u8>,
    t1: Seq<u8>,
    t2: Seq<u8>,
    t3: Seq<u8>,
    e: Seq<char>,
)
    requires
        borsh_fields::string(t0) matches Ok((_, rest)) && rest == t1,
        borsh_fields::string(t1) matches Ok((_, rest)) && rest == t2,
        borsh_fields::string(t2) matches Ok((_, rest)) && rest == t3,
        match borsh_fields::short(t3) {
            Err(first) => first == e,
            Ok((_, t4)) => borsh_fields::creators(t4) == Read::<
                Option<Seq<borsh_fields::CreatorEntry>>,
            >::Err(e),
        },
    ensures
        mpl_metadata::data_fields(t0) == Read::<DataView>::Err(e),
{
}

/// Where bytes that are followed by others are cut, one or the other of them is.
proof fn lemma_take(a: Seq<u8>, b: Seq<u8>, k: int)
    requires
        0 <= k <= a.len() + b.len(),
    ensures
        k < a.len() ==> (a + b).take(k) == a.take(k),
        k >= a.len() ==> (a + b).take(k) == a + b.take(k - a.len()),
{
    if k < a.len() {
        assert((a + b).take(k) =~= a.take(k));
    } else {
        assert((a + b).take(k) =~= a + b.take(k - a.len()));
    }
}

/// A description that is cut off ends too early.
proof fn lemma_data_cut(d: DataView, k: int)
    requires
        data_can_be_written(d),
        0 <= k < data_bytes(d).len(),
    ensures
        mpl_metadata::data_fields(data_bytes(d).take(k)) == Read::<DataView>::Err(
            wire::ends_too_early(),
        ),
{
    let name = wire::text_bytes(d.name);
    let symbol = wire::text_bytes(d.symbol);
    let uri = wire::text_bytes(d.uri);
    let fee = wire::number_bytes(d.seller_fee_basis_points as nat, 2);
    let creators = wire::creators_bytes(d.creators);
    let k1 = k - name.len();
    let k2 = k1 - symbol.len();
    let k3 = k2 - uri.len();
    let k4 = k3 - fee.len();
    lemma_regroup(name, symbol, uri, fee, creators, Seq::empty());
    lemma_take(name, symbol + (uri + (fee + creators)), k);
    if k1 < 0 {
        wire::law_text_round_trip(d.name, Seq::empty(), k);
        law_data_errors(d, name.take(k));
    } else {
        lemma_take(symbol, uri + (fee + creators), k1);
        if k2 < 0 {
            wire::law_text_round_trip(d.symbol, Seq::empty(), k1);
            law_data_errors(d, symbol.take(k1));
        } else {
            lemma_take(uri, fee + creators, k2);
            if k3 < 0 {
                wire::law_text_round_trip(d.uri, Seq::empty(), k2);
                law_data_errors(d, uri.take(k2));
            } else {
                lemma_take(fee, creators, k3);
                wire::lemma_short(d.seller_fee_basis_points, Seq::empty(), 0);
                if k4 < 0 {
                    wire::lemma_short(d.seller_fee_basis_points, Seq::empty(), k3);
                    law_data_errors(d, fee.take(k3));
                } else {
                    wire::lemma_cut_creators(d.creators, k4);
                    law_data_errors(d, creators.take(k4));
                }
            }
        }
    }
}

/// A description is read from its own bytes only.
proof fn lemma_data_read(data: Seq<u8>)
    ensures
        mpl_metadata::data_fields(data) matches Ok((d, rest)) ==> data_can_be_written(d) && data
            == data_bytes(d) + rest,
{
    if let Ok((d, rest)) = mpl_metadata::data_fields(data) {
        wire::lemma_text_read(data);
        let t1 = borsh_fields::string(data)->Ok_0.1;
        wire::lemma_text_read(t1);
        let t2 = borsh_fields::string(t1)->Ok_0.1;
        wire::lemma_text_read(t2);
        let t3 = borsh_fields::string(t2)->Ok_0.1;
        wire::lemma_short_read(t3);
        let t4 = borsh_fields::short(t3)->Ok_0.1;
        wire::lemma_creators_read(t4);
        lemma_regroup(
            wire::text_bytes(d.name),
            wire::text_bytes(d.symbol),
            wire::text_bytes(d.uri),
            wire::number_bytes(d.seller_fee_basis_points as nat, 2),
            wire::creators_bytes(d.creators),
            rest,
        );
    }
}

/// A truth value is read from its byte.
proof fn lemma_flag(b: bool, tail: Seq<u8>)
    ensures
        borsh_fields::flag(wire::flag_bytes(b) + tail) == Read::<bool>::Ok((b, tail)),
{
    wire::law_flags(tail, 0);
}

/// Metadata whose fields are read one after the other is read as a whole.
proof fn lemma_metadata_of(
    m: MetadataView,
    t0: Seq<u8>,
    t1: Seq<u8>,
    t2: Seq<u8>,
    t3: Seq<u8>,
    t4: Seq<u8>,
    tail: Seq<u8>,
)
    requires
        borsh_fields::key(t0) == Read::<Seq<u8>>::Ok((m.update_authority, t1)),
        borsh_fields::key(t1) == Read::<Seq<u8>>::Ok((m.mint, t2)),
        mpl_metadata::data_fields(t2) == Read::<DataView>::Ok((m.data, t3)),
        borsh_fields::flag(t3) == Read::<bool>::Ok((m.primary_sale_happened, t4)),
        borsh_fields::flag(t4) == Read::<bool>::Ok((m.is_mutable, tail)),
    ensures
        mpl_metadata::metadata_fields(t0) == Read::<MetadataView>::Ok((m, tail)),
{
}

/// Metadata is read from its bytes, field by field, whatever stands behind them, and what
/// stands behind them is left.
pub proof fn law_metadata_round_trip(m: MetadataView, tail: Seq<u8>)
    requires
        metadata_can_be_written(m),
    ensures
        mpl_metadata::metadata_fields(metadata_bytes(m) + tail) == Read::<MetadataView>::Ok(
            (m, tail),
        ),
{
    let t4 = wire::flag_bytes(m.is_mutable) + tail;
    let t3 = wire::flag_bytes(m.primary_sale_happened) + t4;
    let t2 = data_bytes(m.data) + t3;
    let t1 = m.mint + t2;
    lemma_regroup(
        m.update_authority,
        m.mint,
        data_bytes(m.data),
        wire::flag_bytes(m.primary_sale_happened),
        wire::flag_bytes(m.is_mutable),
        tail,
    );
    wire::lemma_key(m.update_authority, t1, 0);
    wire::lemma_key(m.mint, t2, 0);
    lemma_data(m.data, t3);
    lemma_flag(m.primary_sale_happened, t4);
    lemma_flag(m.is_mutable, tail);
    lemma_metadata_of(m, metadata_bytes(m) + tail, t1, t2, t3, t4, tail);
}

/// Metadata is read from its own bytes only: where there is no error, the data starts with
/// the bytes of what has been read, and the rest is left.
pub proof fn law_metadata_has_one_writing(data: Seq<u8>)
    ensures
        mpl_metadata::metadata_fields(data) matches Ok((m, rest)) ==> metadata_can_be_written(m)
            && data == metadata_bytes(m) + rest,
{
    if let Ok((m, rest)) = mpl_metadata::metadata_fields(data) {
        wire::lemma_key_read(data);
        let t1 = borsh_fields::key(data)->Ok_0.1;
        wire::lemma_key_read(t1);
        let t2 = borsh_fields::key(t1)->Ok_0.1;
        lemma_data_read(t2);
        let t3 = mpl_metadata::data_fields(t2)->Ok_0.1;
        wire::lemma_flag_read(t3);
        let t4 = borsh_fields::flag(t3)->Ok_0.1;
        wire::lemma_flag_read(t4);
        lemma_regroup(
            m.update_authority,
            m.mint,
            data_bytes(m.data),
            wire::flag_bytes(m.primary_sale_happened),
            wire::flag_bytes(m.is_mutable),
            rest,
        );
    }
}

/// What is wrong with the first field that cannot be read is what is wrong with the metadata.
pub proof fn law_metadata_errors(m: MetadataView, bad: Seq<u8>)
    requires
        metadata_can_be_written(m),
    ensures
        borsh_fields::key(bad) matches Err(e) ==> {
            &&& mpl_metadata::metadata_fields(bad) == Read::<MetadataView>::Err(e)
            &&& mpl_metadata::metadata_fields(m.update_authority + bad)
                == Read::<MetadataView>::Err(e)
        },
        mpl_metadata::data_fields(bad) matches Err(e) ==> mpl_metadata::metadata_fields(
            m.update_authority + (m.mint + bad),
        ) == Read::<MetadataView>::Err(e),
        borsh_fields::flag(bad) matches Err(e) ==> {
            &&& mpl_metadata::metadata_fields(
                m.update_authority + (m.mint + (data_bytes(m.data) + bad)),
            ) == Read::<MetadataView>::Err(e)
            &&& mpl_metadata::metadata_fields(
                m.update_authority + (m.mint + (data_bytes(m.data) + (wire::flag_bytes(
                    m.primary_sale_happened,
                ) + bad))),
            ) == Read::<MetadataView>::Err(e)
        },
{
    lemma_key_errors(m, bad);
    lemma_flag_errors(m, bad);
}

proof fn lemma_key_errors(m: MetadataView, bad: Seq<u8>)
    requires
        metadata_can_be_written(m),
    ensures
        borsh_fields::key(bad) matches Err(e) ==> {
            &&& mpl_metadata::metadata_fields(bad) == Read::<MetadataView>::Err(e)
            &&& mpl_metadata::metadata_fields(m.update_authority + bad)
                == Read::<MetadataView>::Err(e)
        },
        mpl_metadata::data_fields(bad) matches Err(e) ==> mpl_metadata::metadata_fields(
            m.update_authority + (m.mint + bad),
        ) == Read::<MetadataView>::Err(e),
{
    wire::lemma_key(m.update_authority, bad, 0);
    wire::lemma_key(m.update_authority, m.mint + bad, 0);
    wire::lemma_key(m.mint, bad, 0);
}

proof fn lemma_flag_errors(m: MetadataView, bad: Seq<u8>)
    requires
        metadata_can_be_written(m),
    ensures
        borsh_fields::flag(bad) matches Err(e) ==> {
            &&& mpl_metadata::metadata_fields(
                m.update_authority + (m.mint + (data_bytes(m.data) + bad)),
            ) == Read::<MetadataView>::Err(e)
            &&& mpl_metadata::metadata_fields(
                m.update_authority + (m.mint + (data_bytes(m.data) + (wire::flag_bytes(
                    m.primary_sale_happened,
                ) + bad))),
            ) == Read::<MetadataView>::Err(e)
        },
{
    if let Err(e) = borsh_fields::flag(bad) {
        let with_flag = wire::flag_bytes(m.primary_sale_happened) + bad;
        let rest = data_bytes(m.data) + bad;
        let rest_with_flag = data_bytes(m.data) + with_flag;
        wire::lemma_key(m.update_authority, m.mint + rest, 0);
        wire::lemma_key(m.mint, rest, 0);
        lemma_data(m.data, bad);
        lemma_error_behind_data(m.update_authority + (m.mint + rest), m.mint + rest, rest, bad, e);
        wire::lemma_key(m.update_authority, m.mint + rest_with_flag, 0);
        wire::lemma_key(m.mint, rest_with_flag, 0);
        lemma_data(m.data, with_flag);
        lemma_flag(m.primary_sale_happened, bad);
        lemma_error_behind_data(
            m.update_authority + (m.mint + rest_with_flag),
            m.mint + rest_with_flag,
            rest_with_flag,
            with_flag,
            e,
        );
    }
}

/// What is wrong with the truth values behind the description.
proof fn lemma_error_behind_data(
    t0: Seq<u8>,
    t1: Seq<u8>,
    t2: Seq<u8>,
    t3: Seq<u8>,
    e: Seq<char>,
)
    requires
        borsh_fields::key(t0) matches Ok((_, rest)) && rest == t1,
        borsh_fields::key(t1) matches Ok((_, rest)) && rest == t2,
        mpl_metadata::data_fields(t2) matches Ok((_, rest)) && rest == t3,
        match borsh_fields::flag(t3) {
            Err(first) => first == e,
            Ok((_, t4)) => borsh_fields::flag(t4) == Read::<bool>::Err(e),
        },
    ensures
        mpl_metadata::metadata_fields(t0) == Read::<MetadataView>::Err(e),
{
}

/// Metadata that is cut off, wherever that is, ends too early.
pub proof fn law_cut_metadata_ends_too_early(m: MetadataView, k: int)
    requires
        metadata_can_be_written(m),
        0 <= k < metadata_bytes(m).len(),
    ensures
        mpl_metadata::metadata_fields(metadata_bytes(m).take(k)) == Read::<MetadataView>::Err(
            wire::ends_too_early(),
        ),
{
    let data = data_bytes(m.data);
    let sale = wire::flag_bytes(m.primary_sale_happened);
    let mutable = wire::flag_bytes(m.is_mutable);
    let k1 = k - 32;
    let k2 = k1 - 32;
    let k3 = k2 - data.len();
    let k4 = k3 - sale.len();
    lemma_regroup(m.update_authority, m.mint, data, sale, mutable, Seq::empty());
    lemma_take(m.update_authority, m.mint + (data + (sale + mutable)), k);
    if k1 < 0 {
        wire::lemma_key(m.update_authority, Seq::empty(), k);
        lemma_key_errors(m, m.update_authority.take(k));
    } else {
        lemma_take(m.mint, data + (sale + mutable), k1);
        if k2 < 0 {
            wire::lemma_key(m.mint, Seq::empty(), k1);
            lemma_key_errors(m, m.mint.take(k1));
        } else {
            lemma_take(data, sale + mutable, k2);
            if k3 < 0 {
                lemma_data_cut(m.data, k2);
                lemma_key_errors(m, data.take(k2));
            } else {
                lemma_take(sale, mutable, k3);
                wire::law_flags(Seq::empty(), 0);
                lemma_flag_errors(m, Seq::empty());
                if k4 < 0 {
                    assert(sale.take(k3) =~= Seq::empty());
                } else {
                    assert(mutable.take(k4) =~= Seq::empty());
                }
            }
        }
    }
}

/// The first extension as bytes.
pub open spec fn ext_bytes(ext: MetadataExt) -> Seq<u8> {
    match ext.edition_nonce {
        None => seq![0u8],
        Some(n) => seq![1u8, n],
    }
}

/// The first extension is read from its bytes, whatever stands behind them, and from no
/// others.
pub proof fn law_ext_round_trip(ext: MetadataExt, tail: Seq<u8>, data: Seq<u8>)
    ensures
        mpl_metadata::metadata_ext(ext_bytes(ext) + tail) == Some((ext, tail)),
        mpl_metadata::metadata_ext(data) matches Some((read, rest)) ==> data == ext_bytes(read)
            + rest,
{
    let written = ext_bytes(ext) + tail;
    assert(written.skip(ext_bytes(ext).len() as int) =~= tail);
    if let Some((read, rest)) = mpl_metadata::metadata_ext(data) {
        assert(data =~= ext_bytes(read) + rest);
    }
}

/// A token standard that may be missing, as bytes.
pub open spec fn token_standard_bytes(standard: Option<TokenStandard>) -> Seq<u8> {
    match standard {
        None => seq![0u8],
        Some(TokenStandard::NonFungible) => seq![1u8, 0u8],
        Some(TokenStandard::FungibleAsset) => seq![1u8, 1u8],
        Some(TokenStandard::Fungible) => seq![1u8, 2u8],
        Some(TokenStandard::NonFungibleEdition) => seq![1u8, 3u8],
    }
}

/// A collection that may be missing, as bytes.
pub open spec fn collection_bytes(collection: Option<(bool, Seq<u8>)>) -> Seq<u8> {
    match collection {
        None => seq![0u8],
        Some((verified, key)) => seq![1u8] + wire::flag_bytes(verified) + key,
    }
}

/// Uses that may be missing, as bytes.
pub open spec fn uses_bytes(uses: Option<mpl_metadata::Uses>) -> Seq<u8> {
    match uses {
        None => seq![0u8],
        Some(u) => (match u.use_method {
            UseMethod::Burn => seq![1u8, 0u8],
            UseMethod::Multiple => seq![1u8, 1u8],
            UseMethod::Single => seq![1u8, 2u8],
        }) + wire::number_bytes(u.remaining as nat, 8) + wire::number_bytes(u.total as nat, 8),
    }
}

/// The second extension as bytes.
pub open spec fn ext_v1_2_bytes(ext: MetadataExtV1_2View) -> Seq<u8> {
    token_standard_bytes(ext.token_standard) + collection_bytes(ext.collection) + uses_bytes(
        ext.uses,
    )
}

/// Whether a second extension can be written: with a key of 32 bytes.
pub open spec fn ext_v1_2_can_be_written(ext: MetadataExtV1_2View) -> bool {
    ext.collection matches Some((_, key)) ==> key.len() == 32
}

proof fn lemma_token_standard(standard: Option<TokenStandard>, tail: Seq<u8>)
    ensures
        mpl_metadata::token_standard_field(token_standard_bytes(standard) + tail) == Some(
            (standard, tail),
        ),
{
    let written = token_standard_bytes(standard);
    assert((written + tail).skip(written.len() as int) =~= tail);
}

proof fn lemma_token_standard_read(data: Seq<u8>)
    ensures
        mpl_metadata::token_standard_field(data) matches Some((standard, rest)) ==> data
            == token_standard_bytes(standard) + rest,
{
    if let Some((standard, rest)) = mpl_metadata::token_standard_field(data) {
        assert(data =~= token_standard_bytes(standard) + rest);
    }
}

proof fn lemma_collection(collection: Option<(bool, Seq<u8>)>, tail: Seq<u8>)
    requires
        collection matches Some((_, key)) ==> key.len() == 32,
    ensures
        borsh_fields::optional_flag_and_key(collection_bytes(collection) + tail) == Some(
            (collection, tail),
        ),
{
    let written = collection_bytes(collection);
    let data = written + tail;
    assert(data.skip(written.len() as int) =~= tail);
    if let Some((verified, key)) = collection {
        assert(data.subrange(2, 34) =~= key);
    }
}

proof fn lemma_collection_read(data: Seq<u8>)
    ensures
        borsh_fields::optional_flag_and_key(data) matches Some((collection, rest)) ==> {
            &&& data == collection_bytes(collection) + rest
            &&& collection matches Some((_, key)) ==> key.len() == 32
        },
{
    if let Some((collection, rest)) = borsh_fields::optional_flag_and_key(data) {
        assert(data =~= collection_bytes(collection) + rest);
    }
}

proof fn lemma_uses(uses: Option<mpl_metadata::Uses>, tail: Seq<u8>)
    ensures
        mpl_metadata::uses_field(uses_bytes(uses) + tail) == Some((uses, tail)),
{
    let written = uses_bytes(uses);
    let data = written + tail;
    if let Some(u) = uses {
        wire::lemma_numbers_in();
        wire::law_number_round_trip(u.remaining as nat, 8);
        wire::law_number_round_trip(u.total as nat, 8);
        assert(written.len() == 18);
        assert(data.subrange(2, 10) =~= wire::number_bytes(u.remaining as nat, 8));
        assert(data.subrange(10, 18) =~= wire::number_bytes(u.total as nat, 8));
    }
    assert(data.skip(written.len() as int) =~= tail);
}

proof fn lemma_uses_read(data: Seq<u8>)
    ensures
        mpl_metadata::uses_field(data) matches Some((uses, rest)) ==> data == uses_bytes(uses)
            + rest,
{
    if let Some((uses, rest)) = mpl_metadata::uses_field(data) {
        if let Some(u) = uses {
            wire::lemma_numbers_in();
            wire::law_number_has_one_writing(data.subrange(2, 10));
            wire::law_number_has_one_writing(data.subrange(10, 18));
        }
        assert(data =~= uses_bytes(uses) + rest);
    }
}

proof fn lemma_regroup_three(a: Seq<u8>, b: Seq<u8>, c: Seq<u8>, tail: Seq<u8>)
    ensures
        a + b + c + tail == a + (b + (c + tail)),
{
    assert(a + b + c + tail =~= a + (b + (c + tail)));
}

/// The second extension is read from its bytes, whatever stands behind them: with each token
/// standard or none, any collection or none, any uses with each use method or none.
pub proof fn law_ext_v1_2_round_trip(ext: MetadataExtV1_2View, tail: Seq<u8>)
    requires
        ext_v1_2_can_be_written(ext),
    ensures
        mpl_metadata::metadata_ext_v1_2(ext_v1_2_bytes(ext) + tail) == Some((ext, tail)),
{
    let t2 = uses_bytes(ext.uses) + tail;
    let t1 = collection_bytes(ext.collection) + t2;
    lemma_regroup_three(
        token_standard_bytes(ext.token_standard),
        collection_bytes(ext.collection),
        uses_bytes(ext.uses),
        tail,
    );
    lemma_token_standard(ext.token_standard, t1);
    lemma_collection(ext.collection, t2);
    lemma_uses(ext.uses, tail);
}

/// The second extension is read from its own bytes only.
pub proof fn law_ext_v1_2_has_one_writing(data: Seq<u8>)
    ensures
        mpl_metadata::metadata_ext_v1_2(data) matches Some((ext, rest)) ==> ext_v1_2_can_be_written(
            ext,
        ) && data == ext_v1_2_bytes(ext) + rest,
{
    if let Some((ext, rest)) = mpl_metadata::metadata_ext_v1_2(data) {
        lemma_token_standard_read(data);
        let t1 = mpl_metadata::token_standard_field(data).unwrap().1;
        lemma_collection_read(t1);
        let t2 = borsh_fields::optional_flag_and_key(t1).unwrap().1;
        lemma_uses_read(t2);
        lemma_regroup_three(
            token_standard_bytes(ext.token_standard),
            collection_bytes(ext.collection),
            uses_bytes(ext.uses),
            rest,
        );
    }
}

/// The byte that tells what an account holds.
pub open spec fn account_key_byte(key: AccountKey) -> u8 {
    match key {
        AccountKey::Uninitialized => 0,
        AccountKey::EditionV1 => 1,
        AccountKey::MasterEditionV1 => 2,
        AccountKey::ReservationListV1 => 3,
        AccountKey::MetadataV1 => 4,
        AccountKey::ReservationListV2 => 5,
        AccountKey::MasterEditionV2 => 6,
        AccountKey::EditionMarker => 7,
        AccountKey::UseAuthorityRecord => 8,
        AccountKey::CollectionAuthorityRecord => 9,
    }
}

/// What an account holds is read from its byte, whatever stands behind it, and from no other
/// byte.
pub proof fn law_account_key_round_trip(key: AccountKey, tail: Seq<u8>, data: Seq<u8>)
    ensures
        mpl_metadata::account_key(seq![account_key_byte(key)] + tail) == Some((key, tail)),
        mpl_metadata::account_key(data) matches Some((read, rest)) ==> data == seq![
            account_key_byte(read),
        ] + rest,
{
    assert((seq![account_key_byte(key)] + tail).skip(1) =~= tail);
    if let Some((read, rest)) = mpl_metadata::account_key(data) {
        assert(data =~= seq![account_key_byte(read)] + rest);
    }
}

/// Metadata is seen with the fields that it has.
pub proof fn law_metadata_is_seen_as_it_is(
    m: Metadata,
    list: Vec<Creator>,
    ext: MetadataExtV1_2,
    i: int,
)
    ensures
        m@.update_authority == m.update_authority@ && m@.update_authority.len() == 32,
        m@.mint == m.mint@ && m@.mint.len() == 32,
        m@.data.name == m.data.name@,
        m@.data.symbol == m.data.symbol@,
        m@.data.uri == m.data.uri@,
        m@.data.seller_fee_basis_points == m.data.seller_fee_basis_points,
        m@.primary_sale_happened == m.primary_sale_happened,
        m@.is_mutable == m.is_mutable,
        m.data.creators is None <==> m@.data.creators is None,
        m.data.creators == Some(list) ==> {
            &&& m@.data.creators.unwrap().len() == list@.len()
            &&& 0 <= i < list@.len() ==> m@.data.creators.unwrap()[i] == (
                list@[i].address@,
                list@[i].verified,
                list@[i].share,
            ) && list@[i].address@.len() == 32
        },
        ext@.token_standard == ext.token_standard,
        ext@.uses == ext.uses,
        ext.collection is None <==> ext@.collection is None,
        ext.collection matches Some(c) ==> ext@.collection == Some((c.verified, c.key@))
            && c.key@.len() == 32,
{
}

} // verus!
