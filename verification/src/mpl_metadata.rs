//! Accounts of the Metaplex token metadata program.
use vstd::prelude::*;

use crate::borsh_fields;

verus! {

/// The address of the token metadata program,
/// `metaqbxxUerdq28cj1RbAWkYQm3ybzjb6a8bt518x1s`.
pub open spec fn metadata_program() -> Seq<u8> {
    seq![
        11, 112, 101, 177, 227, 209, 124, 69, 56, 157, 82, 127, 107, 4, 195, 205,
        88, 184, 108, 115, 26, 160, 253, 181, 73, 182, 209, 188, 3, 248, 41, 70,
    ]
}

/// The address of the token metadata program.
pub fn id() -> (id: [u8; 32])
    ensures
        id@ == metadata_program(),
{
    let id: [u8; 32] = [
        11, 112, 101, 177, 227, 209, 124, 69, 56, 157, 82, 127, 107, 4, 195, 205,
        88, 184, 108, 115, 26, 160, 253, 181, 73, 182, 209, 188, 3, 248, 41, 70,
    ];
    assert(id@ =~= metadata_program());
    id
}

/// What the token metadata program keeps in an account.
#[derive(Clone, Copy, Debug, PartialEq, Eq, Structural)]
pub enum AccountKey {
    Uninitialized,
    EditionV1,
    MasterEditionV1,
    ReservationListV1,
    MetadataV1,
    ReservationListV2,
    MasterEditionV2,
    EditionMarker,
    UseAuthorityRecord,
    CollectionAuthorityRecord,
}

/// What the first byte of an account stands for.
pub open spec fn account_key_of(n: u8) -> Option<AccountKey> {
    match n {
        0 => Some(AccountKey::Uninitialized),
        1 => Some(AccountKey::EditionV1),
        2 => Some(AccountKey::MasterEditionV1),
        3 => Some(AccountKey::ReservationListV1),
        4 => Some(AccountKey::MetadataV1),
        5 => Some(AccountKey::ReservationListV2),
        6 => Some(AccountKey::MasterEditionV2),
        7 => Some(AccountKey::EditionMarker),
        8 => Some(AccountKey::UseAuthorityRecord),
        9 => Some(AccountKey::CollectionAuthorityRecord),
        _ => None,
    }
}

/// The account key in front of `data`, and the bytes behind it.
pub open spec fn account_key(data: Seq<u8>) -> Option<(AccountKey, Seq<u8>)> {
    if data.len() == 0 {
        None
    } else {
        match account_key_of(data[0]) {
            Some(key) => Some((key, data.skip(1))),
            None => None,
        }
    }
}

impl AccountKey {
    /// Reads an account key, where there is one, and says what is left behind it.
    pub fn deserialize(data: &[u8]) -> (r: Option<(AccountKey, &[u8])>)
        ensures
            account_key(data@) == (match r {
                Some((key, rest)) => Some((key, rest@)),
                None => None,
            }),
    {
        let (n, rest) = match borsh_fields::read_byte(data) {
            Ok(read) => read,
            Err(_) => return None,
        };
        let key = match n {
            0 => AccountKey::Uninitialized,
            1 => AccountKey::EditionV1,
            2 => AccountKey::MasterEditionV1,
            3 => AccountKey::ReservationListV1,
            4 => AccountKey::MetadataV1,
            5 => AccountKey::ReservationListV2,
            6 => AccountKey::MasterEditionV2,
            7 => AccountKey::EditionMarker,
            8 => AccountKey::UseAuthorityRecord,
            9 => AccountKey::CollectionAuthorityRecord,
            _ => return None,
        };
        Some((key, rest))
    }
}

/// One of the creators of a token.
#[derive(Debug)]
pub struct Creator {
    pub address: [u8; 32],
    pub verified: bool,
    pub share: u8,
}

/// What a token is called, where it is described, and who made it.
#[derive(Debug)]
pub struct Data {
    pub name: String,
    pub symbol: String,
    pub uri: String,
    pub seller_fee_basis_points: u16,
    pub creators: Option<Vec<Creator>>,
}

/// The metadata of a mint.
#[derive(Debug)]
pub struct Metadata {
    pub update_authority: [u8; 32],
    pub mint: [u8; 32],
    pub data: Data,
    pub primary_sale_happened: bool,
    pub is_mutable: bool,
}

/// What a [`Data`] holds.
pub struct DataView {
    pub name: Seq<char>,
    pub symbol: Seq<char>,
    pub uri: Seq<char>,
    pub seller_fee_basis_points: u16,
    pub creators: Option<Seq<borsh_fields::CreatorEntry>>,
}

/// What a [`Metadata`] holds.
pub struct MetadataView {
    pub update_authority: Seq<u8>,
    pub mint: Seq<u8>,
    pub data: DataView,
    pub primary_sale_happened: bool,
    pub is_mutable: bool,
}

impl View for Creator {
    type V = borsh_fields::CreatorEntry;

    open spec fn view(&self) -> borsh_fields::CreatorEntry {
        (self.address@, self.verified, self.share)
    }
}

/// What the creators of a list hold.
pub open spec fn creators_view(creators: Seq<Creator>) -> Seq<borsh_fields::CreatorEntry> {
    creators.map_values(|creator: Creator| creator@)
}

impl View for Data {
    type V = DataView;

    open spec fn view(&self) -> DataView {
        DataView {
            name: self.name@,
            symbol: self.symbol@,
            uri: self.uri@,
            seller_fee_basis_points: self.seller_fee_basis_points,
            creators: match self.creators {
                Some(list) => Some(creators_view(list@)),
                None => None,
            },
        }
    }
}

impl View for Metadata {
    type V = MetadataView;

    open spec fn view(&self) -> MetadataView {
        MetadataView {
            update_authority: self.update_authority@,
            mint: self.mint@,
            data: self.data@,
            primary_sale_happened: self.primary_sale_happened,
            is_mutable: self.is_mutable,
        }
    }
}

/// The description of a token in front of `bytes`, field by field.
pub open spec fn data_fields(bytes: Seq<u8>) -> borsh_fields::Read<DataView> {
    match borsh_fields::string(bytes) {
        Err(e) => Err(e),
        Ok((name, bytes)) => match borsh_fields::string(bytes) {
            Err(e) => Err(e),
            Ok((symbol, bytes)) => match borsh_fields::string(bytes) {
                Err(e) => Err(e),
                Ok((uri, bytes)) => match borsh_fields::short(bytes) {
                    Err(e) => Err(e),
                    Ok((seller_fee_basis_points, bytes)) => match borsh_fields::creators(bytes) {
                        Err(e) => Err(e),
                        Ok((creators, bytes)) => Ok(
                            (
                                DataView { name, symbol, uri, seller_fee_basis_points, creators },
                                bytes,
                            ),
                        ),
                    },
                },
            },
        },
    }
}

/// The metadata in front of `bytes`, field by field.
pub open spec fn metadata_fields(bytes: Seq<u8>) -> borsh_fields::Read<MetadataView> {
    match borsh_fields::key(bytes) {
        Err(e) => Err(e),
        Ok((update_authority, bytes)) => match borsh_fields::key(bytes) {
            Err(e) => Err(e),
            Ok((mint, bytes)) => match data_fields(bytes) {
                Err(e) => Err(e),
                Ok((data, bytes)) => match borsh_fields::flag(bytes) {
                    Err(e) => Err(e),
                    Ok((primary_sale_happened, bytes)) => match borsh_fields::flag(bytes) {
                        Err(e) => Err(e),
                        Ok((is_mutable, bytes)) => Ok(
                            (
                                MetadataView {
                                    update_authority,
                                    mint,
                                    data,
                                    primary_sale_happened,
                                    is_mutable,
                                },
                                bytes,
                            ),
                        ),
                    },
                },
            },
        },
    }
}

/// Gives the entries of a list of creators their names.
fn name_creators(entries: &Vec<([u8; 32], bool, u8)>) -> (creators: Vec<Creator>)
    ensures
        Some(creators_view(creators@)) == borsh_fields::entries(Some(*entries)),
{
    let mut creators: Vec<Creator> = Vec::new();
    let mut i: usize = 0;
    while i < entries.len()
        invariant
            i <= entries.len(),
            creators@.len() == i,
            forall|j: int|
                0 <= j < i ==> (#[trigger] creators@[j])@ == (
                    entries@[j].0@,
                    entries@[j].1,
                    entries@[j].2,
                ),
        decreases entries.len() - i,
    {
        let (address, verified, share) = entries[i];
        creators.push(Creator { address, verified, share });
        i += 1;
    }
    assert(creators_view(creators@) =~= borsh_fields::entries(Some(*entries)).unwrap());
    creators
}

impl Data {
    /// Reads the description of a token, and says what is left behind it, or what is wrong.
    pub fn deserialize(bytes: &[u8]) -> (r: Result<(Data, &[u8]), String>)
        ensures
            match r {
                Ok((data, rest)) => data_fields(bytes@) == borsh_fields::Read::<DataView>::Ok(
                    (data@, rest@),
                ),
                Err(e) => data_fields(bytes@) == borsh_fields::Read::<DataView>::Err(e@),
            },
    {
        let (name, bytes) = match borsh_fields::read_string(bytes) {
            Ok(read) => read,
            Err(e) => return Err(e),
        };
        let (symbol, bytes) = match borsh_fields::read_string(bytes) {
            Ok(read) => read,
            Err(e) => return Err(e),
        };
        let (uri, bytes) = match borsh_fields::read_string(bytes) {
            Ok(read) => read,
            Err(e) => return Err(e),
        };
        let (seller_fee_basis_points, bytes) = match borsh_fields::read_short(bytes) {
            Ok(read) => read,
            Err(e) => return Err(e),
        };
        let (entries, bytes) = match borsh_fields::read_creators(bytes) {
            Ok(read) => read,
            Err(e) => return Err(e),
        };
        let creators = match &entries {
            Some(list) => Some(name_creators(list)),
            None => None,
        };
        Ok((Data { name, symbol, uri, seller_fee_basis_points, creators }, bytes))
    }
}

impl Metadata {
    /// Reads the metadata of a mint, and says what is left behind it, or what is wrong.
    pub fn deserialize(bytes: &[u8]) -> (r: Result<(Metadata, &[u8]), String>)
        ensures
            match r {
                Ok((metadata, rest)) => metadata_fields(bytes@) == borsh_fields::Read::<
                    MetadataView,
                >::Ok((metadata@, rest@)),
                Err(e) => metadata_fields(bytes@) == borsh_fields::Read::<MetadataView>::Err(e@),
            },
    {
        let (update_authority, bytes) = match borsh_fields::read_key(bytes) {
            Ok(read) => read,
            Err(e) => return Err(e),
        };
        let (mint, bytes) = match borsh_fields::read_key(bytes) {
            Ok(read) => read,
            Err(e) => return Err(e),
        };
        let (data, bytes) = match Data::deserialize(bytes) {
            Ok(read) => read,
            Err(e) => return Err(e),
        };
        let (primary_sale_happened, bytes) = match borsh_fields::read_flag(bytes) {
            Ok(read) => read,
            Err(e) => return Err(e),
        };
        let (is_mutable, bytes) = match borsh_fields::read_flag(bytes) {
            Ok(read) => read,
            Err(e) => return Err(e),
        };
        Ok((Metadata { update_authority, mint, data, primary_sale_happened, is_mutable }, bytes))
    }
}

/// What later versions of the program put behind the metadata.
#[derive(Clone, Copy, Debug, PartialEq, Eq)]
pub struct MetadataExt {
    pub edition_nonce: Option<u8>,
}

/// The extension in front of `bytes`, and the bytes behind it.
pub open spec fn metadata_ext(bytes: Seq<u8>) -> Option<(MetadataExt, Seq<u8>)> {
    match borsh_fields::optional_byte(bytes) {
        Some((edition_nonce, rest)) => Some((MetadataExt { edition_nonce }, rest)),
        None => None,
    }
}

impl MetadataExt {
    /// Reads the extension, where there is one, and says what is left behind it.
    pub fn deserialize(bytes: &[u8]) -> (r: Option<(MetadataExt, &[u8])>)
        ensures
            metadata_ext(bytes@) == (match r {
                Some((ext, rest)) => Some((ext, rest@)),
                None => None,
            }),
    {
        match borsh_fields::read_optional_byte(bytes) {
            Some((edition_nonce, rest)) => Some((MetadataExt { edition_nonce }, rest)),
            None => None,
        }
    }
}

/// How the token of a mint is meant to be used.
#[derive(Clone, Copy, Debug, PartialEq, Eq, Structural)]
pub enum TokenStandard {
    NonFungible,
    FungibleAsset,
    Fungible,
    NonFungibleEdition,
}

/// What using a token does to it.
#[derive(Clone, Copy, Debug, PartialEq, Eq, Structural)]
pub enum UseMethod {
    Burn,
    Multiple,
    Single,
}

/// How often a token can be used.
#[derive(Clone, Copy, Debug)]
pub struct Uses {
    pub use_method: UseMethod,
    pub remaining: u64,
    pub total: u64,
}

/// The collection that a token says it belongs to.
#[derive(Debug)]
pub struct Collection {
    pub verified: bool,
    pub key: [u8; 32],
}

/// What version 1.2 of the program puts behind the first extension.
#[derive(Debug)]
pub struct MetadataExtV1_2 {
    pub token_standard: Option<TokenStandard>,
    pub collection: Option<Collection>,
    pub uses: Option<Uses>,
}

/// What a [`MetadataExtV1_2`] holds.
pub struct MetadataExtV1_2View {
    pub token_standard: Option<TokenStandard>,
    /// Whether the collection is verified, and its key.
    pub collection: Option<(bool, Seq<u8>)>,
    pub uses: Option<Uses>,
}

impl View for Collection {
    type V = (bool, Seq<u8>);

    open spec fn view(&self) -> (bool, Seq<u8>) {
        (self.verified, self.key@)
    }
}

impl View for MetadataExtV1_2 {
    type V = MetadataExtV1_2View;

    open spec fn view(&self) -> MetadataExtV1_2View {
        MetadataExtV1_2View {
            token_standard: self.token_standard,
            collection: match self.collection {
                Some(collection) => Some(collection@),
                None => None,
            },
            uses: self.uses,
        }
    }
}

/// The token standard that a byte stands for.
pub open spec fn token_standard_of(n: u8) -> Option<TokenStandard> {
    match n {
        0 => Some(TokenStandard::NonFungible),
        1 => Some(TokenStandard::FungibleAsset),
        2 => Some(TokenStandard::Fungible),
        3 => Some(TokenStandard::NonFungibleEdition),
        _ => None,
    }
}

/// The use method that a byte stands for.
pub open spec fn use_method_of(n: u8) -> Option<UseMethod> {
    match n {
        0 => Some(UseMethod::Burn),
        1 => Some(UseMethod::Multiple),
        2 => Some(UseMethod::Single),
        _ => None,
    }
}

/// The token standard in front of `bytes`, which may be missing, and the bytes behind it.
pub open spec fn token_standard_field(bytes: Seq<u8>) -> Option<
    (Option<TokenStandard>, Seq<u8>),
> {
    match borsh_fields::optional_byte(bytes) {
        None => None,
        Some((None, rest)) => Some((None, rest)),
        Some((Some(n), rest)) => match token_standard_of(n) {
            Some(standard) => Some((Some(standard), rest)),
            None => None,
        },
    }
}

/// The uses in front of `bytes`, which may be missing, and the bytes behind them.
pub open spec fn uses_field(bytes: Seq<u8>) -> Option<(Option<Uses>, Seq<u8>)> {
    match borsh_fields::optional_byte_and_numbers(bytes) {
        None => None,
        Some((None, rest)) => Some((None, rest)),
        Some((Some((n, remaining, total)), rest)) => match use_method_of(n) {
            Some(use_method) => Some((Some(Uses { use_method, remaining, total }), rest)),
            None => None,
        },
    }
}

/// The second extension in front of `bytes`, and the bytes behind it.
pub open spec fn metadata_ext_v1_2(bytes: Seq<u8>) -> Option<(MetadataExtV1_2View, Seq<u8>)> {
    match token_standard_field(bytes) {
        None => None,
        Some((token_standard, bytes)) => match borsh_fields::optional_flag_and_key(bytes) {
            None => None,
            Some((collection, bytes)) => match uses_field(bytes) {
                None => None,
                Some((uses, bytes)) => Some(
                    (MetadataExtV1_2View { token_standard, collection, uses }, bytes),
                ),
            },
        },
    }
}

impl MetadataExtV1_2 {
    /// Reads the second extension, where there is one, and says what is left behind it.
    pub fn deserialize(bytes: &[u8]) -> (r: Option<(MetadataExtV1_2, &[u8])>)
        ensures
            metadata_ext_v1_2(bytes@) == (match r {
                Some((ext, rest)) => Some((ext@, rest@)),
                None => None,
            }),
    {
        let (standard, bytes) = match borsh_fields::read_optional_byte(bytes) {
            Some(read) => read,
            None => return None,
        };
        let token_standard = match standard {
            None => None,
            Some(0) => Some(TokenStandard::NonFungible),
            Some(1) => Some(TokenStandard::FungibleAsset),
            Some(2) => Some(TokenStandard::Fungible),
            Some(3) => Some(TokenStandard::NonFungibleEdition),
            Some(_) => return None,
        };
        let (pair, bytes) = match borsh_fields::read_optional_flag_and_key(bytes) {
            Some(read) => read,
            None => return None,
        };
        let collection = match pair {
            None => None,
            Some((verified, key)) => Some(Collection { verified, key }),
        };
        let (triple, bytes) = match borsh_fields::read_optional_byte_and_numbers(bytes) {
            Some(read) => read,
            None => return None,
        };
        let uses = match triple {
            None => None,
            Some((method, remaining, total)) => {
                let use_method = match method {
                    0 => UseMethod::Burn,
                    1 => UseMethod::Multiple,
                    2 => UseMethod::Single,
                    _ => return None,
                };
                Some(Uses { use_method, remaining, total })
            },
        };
        Some((MetadataExtV1_2 { token_standard, collection, uses }, bytes))
    }
}

} // verus!
