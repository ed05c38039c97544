//! What to ask the ledger: the account queries behind a snapshot.
//!
//! A query names a program, a text that has to stand at some offset of an
//! account's data, and the part of the data to hand back. Running a query is
//! the caller's business; this module fixes what the two queries of a
//! snapshot ask.

use crate::address::{account_key, address_text, write_address};
use vstd::prelude::*;

verus! {

/// The size of a token account's data in bytes.
pub const TOKEN_ACCOUNT_BYTES: u64 = 165;

/// Where a token account holds the key of its mint.
pub const TOKEN_ACCOUNT_MINT_OFFSET: usize = 0;

/// Where a token account holds the key of its owner.
pub const TOKEN_ACCOUNT_OWNER_OFFSET: usize = 32;

/// Where a metadata account holds the key of its mint.
pub const METADATA_MINT_OFFSET: usize = 33;

/// The length of a key in bytes.
pub const KEY_BYTES: usize = 32;

/// The ledger programs whose accounts a snapshot reads.
#[derive(Clone, Copy, Debug, PartialEq, Eq, Structural)]
pub enum Program {
    /// The token program, which owns the token accounts.
    Token,
    /// The token metadata program, which owns the metadata accounts.
    TokenMetadata,
}

/// A query for the accounts of one program.
#[derive(Clone, Debug, PartialEq, Eq)]
pub struct AccountQuery {
    /// The program whose accounts are asked for.
    pub program: Program,
    /// Where in an account's data `match_text` has to stand.
    pub match_offset: usize,
    /// The text that has to stand there.
    pub match_text: String,
    /// The size that an account's data has to have, if any is asked for.
    pub data_size: Option<u64>,
    /// Where the part of the data that is handed back begins.
    pub slice_offset: usize,
    /// How many bytes of the data are handed back.
    pub slice_length: usize,
}

/// An [`AccountQuery`] as plain mathematics.
pub struct QueryView {
    pub program: Program,
    pub match_offset: nat,
    pub match_text: Seq<char>,
    pub data_size: Option<nat>,
    pub slice_offset: nat,
    pub slice_length: nat,
}

impl View for AccountQuery {
    type V = QueryView;

    open spec fn view(&self) -> QueryView {
        QueryView {
            program: self.program,
            match_offset: self.match_offset as nat,
            match_text: self.match_text@,
            data_size: match self.data_size {
                Some(size) => Some(size as nat),
                None => None,
            },
            slice_offset: self.slice_offset as nat,
            slice_length: self.slice_length as nat,
        }
    }
}

/// What the query for the assets of a collection asks: the metadata accounts
/// that hold `collection` at `collection_offset`, of each the key of its
/// mint.
pub open spec fn collection_query_view(collection: Seq<char>, collection_offset: nat) -> QueryView {
    QueryView {
        program: Program::TokenMetadata,
        match_offset: collection_offset,
        match_text: collection,
        data_size: None,
        slice_offset: 33,
        slice_length: 32,
    }
}

/// What the query for the holder of an asset asks: the token accounts of
/// the asset's mint, of each the key of its owner.
pub open spec fn holder_query_view(asset: Seq<u8>) -> QueryView {
    QueryView {
        program: Program::Token,
        match_offset: 0,
        match_text: address_text(asset),
        data_size: Some(165nat),
        slice_offset: 32,
        slice_length: 32,
    }
}

/// The query that discovers the assets of a collection.
pub fn collection_query(collection: String, collection_offset: usize) -> (query: AccountQuery)
    ensures
        query@ == collection_query_view(collection@, collection_offset as nat),
{
    AccountQuery {
        program: Program::TokenMetadata,
        match_offset: collection_offset,
        match_text: collection,
        data_size: None,
        slice_offset: METADATA_MINT_OFFSET,
        slice_length: KEY_BYTES,
    }
}

/// The query that resolves the holder of the asset with the mint key
/// `asset`.
pub fn holder_query(asset: &[u8; 32]) -> (query: AccountQuery)
    ensures
        query@ == holder_query_view(asset@),
{
    AccountQuery {
        program: Program::Token,
        match_offset: TOKEN_ACCOUNT_MINT_OFFSET,
        match_text: write_address(asset),
        data_size: Some(TOKEN_ACCOUNT_BYTES),
        slice_offset: TOKEN_ACCOUNT_OWNER_OFFSET,
        slice_length: KEY_BYTES,
    }
}

/// Whether each of the first `n` accounts holds exactly one key.
pub open spec fn all_keys(accounts: Seq<Vec<u8>>, n: int) -> bool {
    forall|i: int| 0 <= i < n ==> (#[trigger] accounts[i])@.len() == 32
}

/// The mint keys of the discovered assets, one for each account that the
/// collection query gave, in their order. There are none where some
/// account's data is not one key.
pub fn asset_keys(accounts: &Vec<Vec<u8>>) -> (keys: Option<Vec<[u8; 32]>>)
    ensures
        keys is Some <==> all_keys(accounts@, accounts@.len() as int),
        match keys {
            Some(k) => k@.len() == accounts@.len() && forall|i: int|
                0 <= i < k@.len() ==> (#[trigger] k@[i])@ == accounts@[i]@,
            None => true,
        },
{
    let mut keys: Vec<[u8; 32]> = Vec::new();
    let mut i: usize = 0;
    while i < accounts.len()
        invariant
            i <= accounts.len(),
            keys@.len() == i,
            all_keys(accounts@, i as int),
            forall|j: int| 0 <= j < i ==> (#[trigger] keys@[j])@ == accounts@[j]@,
        decreases accounts.len() - i,
    {
        match account_key(&accounts[i]) {
            Some(key) => {
                keys.push(key);
            },
            None => {
                assert(accounts@[i as int]@.len() != 32);
                return None;
            },
        }
        i += 1;
    }
    Some(keys)
}

} // verus!
