//! Accounts of the SPL token program.
use solana_sdk::program_pack::Pack;
use vstd::prelude::*;

use crate::bytes;

verus! {

/// The size of a token account, in bytes.
pub const TOKEN_ACCOUNT_LEN: usize = 165;

/// The size of a mint, in bytes.
pub const MINT_LEN: usize = 82;

/// The size of a multisignature account, in bytes.
pub const MULTISIG_LEN: usize = 355;

/// What the token program keeps in an account, as its size tells.
#[derive(Clone, Copy, Debug, PartialEq, Eq, Structural)]
pub enum TokenKind {
    Account,
    Mint,
    Multisig,
    Unexpected,
}

/// The kind of token program account that takes `data_len` bytes.
pub open spec fn kind_of_len(data_len: u64) -> TokenKind {
    let len = data_len as usize;
    if len == TOKEN_ACCOUNT_LEN {
        TokenKind::Account
    } else if len == MINT_LEN {
        TokenKind::Mint
    } else if len == MULTISIG_LEN {
        TokenKind::Multisig
    } else {
        TokenKind::Unexpected
    }
}

impl TokenKind {
    /// Tells the kinds of token program accounts apart by their recorded size.
    pub fn of_len(data_len: u64) -> (kind: TokenKind)
        ensures
            kind == kind_of_len(data_len),
    {
        let len: usize = data_len as usize;
        if len == TOKEN_ACCOUNT_LEN {
            TokenKind::Account
        } else if len == MINT_LEN {
            TokenKind::Mint
        } else if len == MULTISIG_LEN {
            TokenKind::Multisig
        } else {
            TokenKind::Unexpected
        }
    }
}

/// A balance of one owner in one mint.
#[derive(Debug)]
pub struct TokenAccount {
    pub mint: [u8; 32],
    pub owner: [u8; 32],
    pub amount: u64,
    pub delegate: Option<[u8; 32]>,
    pub state: u8,
    pub is_native: Option<u64>,
    pub delegated_amount: u64,
    pub close_authority: Option<[u8; 32]>,
}

/// What a [`TokenAccount`] holds.
pub struct TokenAccountView {
    pub mint: Seq<u8>,
    pub owner: Seq<u8>,
    pub amount: u64,
    pub delegate: Option<Seq<u8>>,
    pub state: u8,
    pub is_native: Option<u64>,
    pub delegated_amount: u64,
    pub close_authority: Option<Seq<u8>>,
}

/// A token, with the authorities that may issue and freeze it.
#[derive(Debug)]
pub struct Mint {
    pub mint_authority: Option<[u8; 32]>,
    pub supply: u64,
    pub decimals: u8,
    pub is_initialized: bool,
    pub freeze_authority: Option<[u8; 32]>,
}

/// What a [`Mint`] holds.
pub struct MintView {
    pub mint_authority: Option<Seq<u8>>,
    pub supply: u64,
    pub decimals: u8,
    pub is_initialized: bool,
    pub freeze_authority: Option<Seq<u8>>,
}

/// The bytes of a key that may be missing.
pub open spec fn optional_key(key: Option<[u8; 32]>) -> Option<Seq<u8>> {
    match key {
        Some(k) => Some(k@),
        None => None,
    }
}

impl View for TokenAccount {
    type V = TokenAccountView;

    open spec fn view(&self) -> TokenAccountView {
        TokenAccountView {
            mint: self.mint@,
            owner: self.owner@,
            amount: self.amount,
            delegate: optional_key(self.delegate),
            state: self.state,
            is_native: self.is_native,
            delegated_amount: self.delegated_amount,
            close_authority: optional_key(self.close_authority),
        }
    }
}

impl View for Mint {
    type V = MintView;

    open spec fn view(&self) -> MintView {
        MintView {
            mint_authority: optional_key(self.mint_authority),
            supply: self.supply,
            decimals: self.decimals,
            is_initialized: self.is_initialized,
            freeze_authority: optional_key(self.freeze_authority),
        }
    }
}

/// The key at offset `at`.
pub open spec fn key_at(data: Seq<u8>, at: int) -> Seq<u8> {
    data.subrange(at, at + 32)
}

/// The 64-bit number at offset `at`.
pub open spec fn number_at(data: Seq<u8>, at: int) -> u64 {
    bytes::little_endian(data.subrange(at, at + 8)) as u64
}

/// The four bytes in front of an optional field: 0 where it is missing, 1 where it is there.
pub open spec fn tag_at(data: Seq<u8>, at: int) -> nat {
    bytes::little_endian(data.subrange(at, at + 4))
}

/// The optional key whose tag lies at offset `at`.
pub open spec fn optional_key_at(data: Seq<u8>, at: int) -> Option<Seq<u8>> {
    if tag_at(data, at) == 1 {
        Some(key_at(data, at + 4))
    } else {
        None
    }
}

/// The optional number whose tag lies at offset `at`.
pub open spec fn optional_number_at(data: Seq<u8>, at: int) -> Option<u64> {
    if tag_at(data, at) == 1 {
        Some(number_at(data, at + 4))
    } else {
        None
    }
}

/// The token account that `data` is, if it is one that has been initialized.
pub open spec fn token_account_of(data: Seq<u8>) -> Option<TokenAccountView> {
    if data.len() == TOKEN_ACCOUNT_LEN && tag_at(data, 72) <= 1 && 1 <= data[108] <= 2 && tag_at(
        data,
        109,
    ) <= 1 && tag_at(data, 129) <= 1 {
        Some(
            TokenAccountView {
                mint: key_at(data, 0),
                owner: key_at(data, 32),
                amount: number_at(data, 64),
                delegate: optional_key_at(data, 72),
                state: data[108],
                is_native: optional_number_at(data, 109),
                delegated_amount: number_at(data, 121),
                close_authority: optional_key_at(data, 129),
            },
        )
    } else {
        None
    }
}

/// The mint that `data` is, if it is one that has been initialized.
pub open spec fn mint_of(data: Seq<u8>) -> Option<MintView> {
    if data.len() == MINT_LEN && tag_at(data, 0) <= 1 && data[45] == 1 && tag_at(data, 46) <= 1 {
        Some(
            MintView {
                mint_authority: optional_key_at(data, 0),
                supply: number_at(data, 36),
                decimals: data[44],
                is_initialized: true,
                freeze_authority: optional_key_at(data, 46),
            },
        )
    } else {
        None
    }
}

/// The view of a token account that may be missing.
pub open spec fn token_account_view(account: Option<TokenAccount>) -> Option<TokenAccountView> {
    match account {
        Some(a) => Some(a@),
        None => None,
    }
}

/// The view of a mint that may be missing.
pub open spec fn mint_view(mint: Option<Mint>) -> Option<MintView> {
    match mint {
        Some(m) => Some(m@),
        None => None,
    }
}

/// Reads a token account with `spl_token::state::Account::unpack`.
///
/// Trusted: it succeeds on exactly the data that [`token_account_of`] describes (the right
/// size, valid tags, a state of initialized or frozen), with the fields at those offsets.
/// Why other data is refused is not kept.
#[verifier::external_body]
pub(crate) fn unpack_token_account(data: &[u8]) -> (account: Option<TokenAccount>)
    ensures
        token_account_view(account) == token_account_of(data@),
{
    match spl_token::state::Account::unpack(data) {
        Ok(a) => Some(TokenAccount {
            mint: a.mint.to_bytes(),
            owner: a.owner.to_bytes(),
            amount: a.amount,
            delegate: a.delegate.map(|key| key.to_bytes()).into(),
            state: a.state as u8,
            is_native: a.is_native.into(),
            delegated_amount: a.delegated_amount,
            close_authority: a.close_authority.map(|key| key.to_bytes()).into(),
        }),
        Err(_) => None,
    }
}

/// Reads a mint with `spl_token::state::Mint::unpack`.
///
/// Trusted: it succeeds on exactly the data that [`mint_of`] describes (the right size,
/// valid tags, marked as initialized), with the fields at those offsets. Why other data is
/// refused is not kept.
#[verifier::external_body]
pub(crate) fn unpack_mint(data: &[u8]) -> (mint: Option<Mint>)
    ensures
        mint_view(mint) == mint_of(data@),
{
    match spl_token::state::Mint::unpack(data) {
        Ok(m) => Some(Mint {
            mint_authority: m.mint_authority.map(|key| key.to_bytes()).into(),
            supply: m.supply,
            decimals: m.decimals,
            is_initialized: m.is_initialized,
            freeze_authority: m.freeze_authority.map(|key| key.to_bytes()).into(),
        }),
        Err(_) => None,
    }
}

/// The address of the token program, `TokenkegQfeZyiNwAJbNbGKPFXCWuBvf9Ss623VQ5DA`.
pub open spec fn token_program() -> Seq<u8> {
    seq![
        6, 221, 246, 225, 215, 101, 161, 147, 217, 203, 225, 70, 206, 235, 121, 172,
        28, 180, 133, 237, 95, 91, 55, 145, 58, 140, 245, 133, 126, 255, 0, 169,
    ]
}

/// Asks `spl_token::id` for the address of the token program.
///
/// Trusted: it is the address that the program was declared with.
#[verifier::external_body]
pub(crate) fn token_program_id() -> (id: [u8; 32])
    ensures
        id@ == token_program(),
{
    spl_token::id().to_bytes()
}

} // verus!
