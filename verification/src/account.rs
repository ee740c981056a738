//! Accounts as a snapshot stores them.
use vstd::prelude::*;

verus! {

/// A stored account: its address, the program that owns it, and its data.
#[derive(Clone, Copy, Debug)]
pub struct StoredAccount<'a> {
    pub pubkey: [u8; 32],
    pub owner: [u8; 32],
    /// The length of the data as the snapshot records it.
    pub data_len: u64,
    pub data: &'a [u8],
}

/// What a [`StoredAccount`] holds.
pub struct StoredAccountView {
    pub pubkey: Seq<u8>,
    pub owner: Seq<u8>,
    pub data_len: u64,
    pub data: Seq<u8>,
}

impl<'a> View for StoredAccount<'a> {
    type V = StoredAccountView;

    open spec fn view(&self) -> StoredAccountView {
        StoredAccountView {
            pubkey: self.pubkey@,
            owner: self.owner@,
            data_len: self.data_len,
            data: self.data@,
        }
    }
}

} // verus!
