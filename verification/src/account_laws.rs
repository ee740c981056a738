//! Which accounts become rows, told from their bytes.
use vstd::prelude::*;

use crate::account::StoredAccountView;
use crate::error::IndexErrorView;
use crate::index;
use crate::index::Row;
use crate::metadata_wire;
use crate::mpl_metadata;
use crate::mpl_metadata::{AccountKey, MetadataExt, MetadataExtV1_2View, MetadataView};
use crate::rows;
use crate::sql::Table;
use crate::token;
use crate::token::{MintView, TokenAccountView};
use crate::token_wire;

verus! {

/// What becomes of an account: its row, nothing, or an error.
pub type Outcome = Result<Option<Row>, IndexErrorView>;

/// Every mint with a supply of one has a row in the table of mints, whatever its decimals and
/// authorities are, and no other mint has a row.
pub proof fn law_mints_with_a_supply_of_one_have_rows(
    account: StoredAccountView,
    m: MintView,
    filler: Seq<u8>,
    other_filler: Seq<u8>,
)
    requires
        account.owner == token::token_program(),
        account.data_len == 82,
        token_wire::mint_can_be_written(m),
        filler.len() == 32,
        other_filler.len() == 32,
        account.data == token_wire::mint_bytes(m, filler, other_filler),
    ensures
        m.supply == 1 ==> index::account_row(account) == Outcome::Ok(
            Some(
                Row { table: Table::TokenMint, cells: rows::token_mint_row(account.pubkey, m) },
            ),
        ),
        m.supply != 1 ==> index::account_row(account) == Outcome::Ok(None),
{
    token_wire::law_mint_round_trip(m, filler, other_filler);
    token_wire::law_sizes_tell_the_kind(account.data_len);
}

/// A row in the table of mints comes from a mint with a supply of one, and from nothing else:
/// an account of the token program with the size of a mint, whose data is one that has been
/// initialized.
pub proof fn law_mint_rows_come_from_mints(account: StoredAccountView, row: Row)
    requires
        account.data_len <= usize::MAX,
        index::account_row(account) == Outcome::Ok(Some(row)),
        row.table == Table::TokenMint,
    ensures
        account.owner == token::token_program(),
        account.data_len == 82,
        account.data.len() == 82,
        exists|m: MintView|
            #![trigger rows::token_mint_row(account.pubkey, m)]
            token_wire::mint_can_be_written(m) && m.supply == 1 && row.cells
                == rows::token_mint_row(account.pubkey, m) && account.data
                == token_wire::mint_bytes(
                m,
                account.data.subrange(4, 36),
                account.data.subrange(50, 82),
            ),
{
    token_wire::law_mint_has_one_writing(account.data);
    token_wire::law_sizes_tell_the_kind(account.data_len);
    let m = token::mint_of(account.data).unwrap();
    assert(row.cells == rows::token_mint_row(account.pubkey, m));
}

/// Every token account that is initialized or frozen has a row in the table of token
/// accounts, whatever its balance and its other fields are.
pub proof fn law_token_accounts_have_rows(
    account: StoredAccountView,
    a: TokenAccountView,
    filler: Seq<u8>,
    other_filler: Seq<u8>,
    short_filler: Seq<u8>,
)
    requires
        account.owner == token::token_program(),
        account.data_len == 165,
        token_wire::token_account_can_be_written(a),
        filler.len() == 32,
        other_filler.len() == 32,
        short_filler.len() == 8,
        account.data == token_wire::token_account_bytes(a, filler, other_filler, short_filler),
    ensures
        index::account_row(account) == Outcome::Ok(
            Some(
                Row {
                    table: Table::TokenAccount,
                    cells: rows::token_account_row(account.pubkey, a),
                },
            ),
        ),
{
    token_wire::law_token_account_round_trip(a, filler, other_filler, short_filler);
    token_wire::law_sizes_tell_the_kind(account.data_len);
}

/// A row in the table of token accounts comes from a token account, and from nothing else.
pub proof fn law_token_account_rows_come_from_token_accounts(
    account: StoredAccountView,
    row: Row,
)
    requires
        account.data_len <= usize::MAX,
        index::account_row(account) == Outcome::Ok(Some(row)),
        row.table == Table::TokenAccount,
    ensures
        account.owner == token::token_program(),
        account.data_len == 165,
        account.data.len() == 165,
        exists|a: TokenAccountView|
            #![trigger rows::token_account_row(account.pubkey, a)]
            token_wire::token_account_can_be_written(a) && row.cells == rows::token_account_row(
                account.pubkey,
                a,
            ) && account.data == token_wire::token_account_bytes(
                a,
                account.data.subrange(76, 108),
                account.data.subrange(133, 165),
                account.data.subrange(113, 121),
            ),
{
    token_wire::law_token_account_has_one_writing(account.data);
    token_wire::law_sizes_tell_the_kind(account.data_len);
    let a = token::token_account_of(account.data).unwrap();
    assert(row.cells == rows::token_account_row(account.pubkey, a));
}

/// The extensions behind metadata are read where they are whole: both, the first alone, or
/// none. There is no second one without a first, and none is passed over.
pub proof fn law_extensions(
    first: MetadataExt,
    second: MetadataExtV1_2View,
    tail: Seq<u8>,
    data: Seq<u8>,
)
    requires
        metadata_wire::ext_v1_2_can_be_written(second),
    ensures
        index::extensions(
            metadata_wire::ext_bytes(first) + (metadata_wire::ext_v1_2_bytes(second) + tail),
        ) == (Some(first), Some(second)),
        index::extensions(metadata_wire::ext_bytes(first) + tail).0 == Some(first),
        index::extensions(metadata_wire::ext_bytes(first) + data).1 is None ==> data
            != metadata_wire::ext_v1_2_bytes(second) + tail,
        index::extensions(data).0 is None ==> index::extensions(data).1 is None && data
            != metadata_wire::ext_bytes(first) + tail,
        index::extensions(data).0 matches Some(read) ==> metadata_wire::ext_bytes(
            read,
        ).is_prefix_of(data),
        index::extensions(data).1 matches Some(read) ==> {
            &&& metadata_wire::ext_v1_2_can_be_written(read)
            &&& index::extensions(data).0 matches Some(before)
            &&& (metadata_wire::ext_bytes(before) + metadata_wire::ext_v1_2_bytes(
                read,
            )).is_prefix_of(data)
        },
{
    let behind = metadata_wire::ext_v1_2_bytes(second) + tail;
    metadata_wire::law_ext_round_trip(first, behind, data);
    metadata_wire::law_ext_v1_2_round_trip(second, tail);
    metadata_wire::law_ext_round_trip(first, tail, data);
    metadata_wire::law_ext_round_trip(first, data, data);
    lemma_extensions_read(data);
}

proof fn lemma_extensions_read(data: Seq<u8>)
    ensures
        index::extensions(data).0 matches Some(read) ==> metadata_wire::ext_bytes(
            read,
        ).is_prefix_of(data),
        index::extensions(data).1 matches Some(read) ==> {
            &&& metadata_wire::ext_v1_2_can_be_written(read)
            &&& index::extensions(data).0 matches Some(before)
            &&& (metadata_wire::ext_bytes(before) + metadata_wire::ext_v1_2_bytes(
                read,
            )).is_prefix_of(data)
        },
{
    if let Some((first, rest)) = mpl_metadata::metadata_ext(data) {
        metadata_wire::law_ext_round_trip(first, rest, data);
        let written = metadata_wire::ext_bytes(first);
        assert(data =~= written + rest);
        assert(written =~= data.subrange(0, written.len() as int));
        if let Some((second, end)) = mpl_metadata::metadata_ext_v1_2(rest) {
            metadata_wire::law_ext_v1_2_has_one_writing(rest);
            let both = written + metadata_wire::ext_v1_2_bytes(second);
            assert(data =~= both + end);
            assert(both =~= data.subrange(0, both.len() as int));
        }
    }
}

/// Every account of the metadata program that starts with the byte 4 and whole metadata has a
/// row in the table of metadata, whatever stands behind: the extensions that do are in the
/// row, and what is none is passed over.
pub proof fn law_metadata_has_rows(account: StoredAccountView, m: MetadataView, tail: Seq<u8>)
    requires
        account.owner == mpl_metadata::metadata_program(),
        metadata_wire::metadata_can_be_written(m),
        account.data == seq![4u8] + (metadata_wire::metadata_bytes(m) + tail),
    ensures
        index::account_row(account) == Outcome::Ok(
            Some(
                Row {
                    table: Table::TokenMetadata,
                    cells: rows::token_metadata_row(
                        account.pubkey,
                        m,
                        index::extensions(tail).0,
                        index::extensions(tail).1,
                    ),
                },
            ),
        ),
{
    let behind = metadata_wire::metadata_bytes(m) + tail;
    index::lemma_programs_differ();
    metadata_wire::law_account_key_round_trip(AccountKey::MetadataV1, behind, account.data);
    metadata_wire::law_metadata_round_trip(m, tail);
}

/// A row in the table of metadata comes from an account of the metadata program that starts
/// with the byte 4 and whole metadata, and from nothing else.
pub proof fn law_metadata_rows_come_from_metadata(account: StoredAccountView, row: Row)
    requires
        index::account_row(account) == Outcome::Ok(Some(row)),
        row.table == Table::TokenMetadata,
    ensures
        account.owner == mpl_metadata::metadata_program(),
        exists|m: MetadataView, tail: Seq<u8>|
            #![trigger metadata_wire::metadata_bytes(m) + tail]
            metadata_wire::metadata_can_be_written(m) && account.data == seq![4u8] + (
            metadata_wire::metadata_bytes(m) + tail),
{
    lemma_token_rows(account);
    let key = mpl_metadata::account_key(account.data).unwrap();
    metadata_wire::law_account_key_round_trip(key.0, key.1, account.data);
    metadata_wire::law_metadata_has_one_writing(key.1);
    let (m, tail) = mpl_metadata::metadata_fields(key.1)->Ok_0;
    assert(account.data =~= seq![4u8] + (metadata_wire::metadata_bytes(m) + tail));
}

proof fn lemma_token_rows(account: StoredAccountView)
    ensures
        index::token_row(account) matches Some(row) ==> row.table != Table::TokenMetadata,
{
}

/// An account of the metadata program that holds something else, or nothing, is passed over.
/// One that says that it holds metadata, and does not, is an error that names the account and
/// what is wrong with the metadata.
pub proof fn law_other_metadata_accounts(account: StoredAccountView)
    requires
        account.owner == mpl_metadata::metadata_program(),
    ensures
        account.data.len() == 0 || account.data[0] != 4 ==> index::account_row(account)
            == Outcome::Ok(None),
        account.data.len() > 0 && account.data[0] == 4 ==> match mpl_metadata::metadata_fields(
            account.data.skip(1),
        ) {
            Err(cause) => index::account_row(account) == Outcome::Err(
                IndexErrorView::InvalidMetadata { pubkey: account.pubkey, cause },
            ),
            Ok(_) => index::account_row(account) matches Ok(Some(_)),
        },
{
    index::lemma_programs_differ();
    if account.data.len() > 0 {
        let rest = account.data.skip(1);
        assert(account.data =~= seq![account.data[0]] + rest);
        metadata_wire::law_account_key_round_trip(AccountKey::MetadataV1, rest, account.data);
    }
}

/// Accounts of other programs are passed over, and so are accounts of the token program with
/// the size of a multisignature account or an unexpected one. None of them is an error.
pub proof fn law_other_accounts_have_no_rows(account: StoredAccountView)
    ensures
        account.owner != token::token_program() && account.owner
            != mpl_metadata::metadata_program() ==> index::account_row(account) == Outcome::Ok(
            None,
        ),
        account.owner == token::token_program() && account.data_len <= usize::MAX
            && account.data_len != 165 && account.data_len != 82 ==> index::account_row(account)
            == Outcome::Ok(None),
        account.owner == token::token_program() ==> index::account_row(account) is Ok,
{
    if account.data_len <= usize::MAX {
        token_wire::law_sizes_tell_the_kind(account.data_len);
    }
}

/// Token program accounts that do not hold what their size says have no row.
pub proof fn law_invalid_token_accounts_have_no_rows(account: StoredAccountView)
    requires
        account.owner == token::token_program(),
        account.data.len() != account.data_len,
        account.data_len <= usize::MAX,
    ensures
        index::account_row(account) == Outcome::Ok(None),
{
    token_wire::law_sizes_tell_the_kind(account.data_len);
}

} // verus!
