//! Wallet addresses: 32-byte keys and the text they are written as.
//!
//! Reading and writing an address is left to `solana_sdk`. What it does is
//! known here by name only: [`address_key`] for reading a text and
//! [`address_text`] for writing a key.

use vstd::prelude::*;

verus! {

/// The key that `text` stands for as a wallet address, or `None` where
/// `text` is no address. It is what `Pubkey::from_str` of `solana_sdk` makes
/// of `text`.
pub uninterp spec fn address_key(text: Seq<char>) -> Option<Seq<u8>>;

/// The text under which the 32-byte `key` is written as a wallet address. It
/// is what `Pubkey::to_string` of `solana_sdk` gives for the key.
pub uninterp spec fn address_text(key: Seq<u8>) -> Seq<char>;

/// Reads a wallet address with `Pubkey::from_str` of `solana_sdk`.
///
/// Trusted: the result is the key that [`address_key`] names for the text,
/// and there is none exactly where `from_str` returns an error.
#[verifier::external_body]
pub(crate) fn read_address(text: &String) -> (key: Option<[u8; 32]>)
    ensures
        match key {
            Some(k) => address_key(text@) == Some(k@),
            None => address_key(text@) is None,
        },
{
    match text.parse::<solana_sdk::pubkey::Pubkey>() {
        Ok(key) => Some(key.to_bytes()),
        Err(_) => None,
    }
}

/// Writes a key as a wallet address with `Pubkey::to_string` of
/// `solana_sdk`.
///
/// Trusted: the result is the text that [`address_text`] names for the key.
#[verifier::external_body]
pub(crate) fn write_address(key: &[u8; 32]) -> (text: String)
    ensures
        text@ == address_text(key@),
{
    solana_sdk::pubkey::Pubkey::new_from_array(*key).to_string()
}

/// Draws the public key of a new random key pair with `Keypair::new` of
/// `solana_sdk`.
///
/// Trusted: nothing is claimed of the key that comes back.
#[verifier::external_body]
pub(crate) fn fresh_key() -> (key: [u8; 32]) {
    solana_sdk::signer::Signer::pubkey(&solana_sdk::signer::keypair::Keypair::new()).to_bytes()
}

/// The key held in the data of an account, which has to be exactly 32 bytes
/// long.
pub fn account_key(data: &Vec<u8>) -> (key: Option<[u8; 32]>)
    ensures
        match key {
            Some(k) => data@.len() == 32 && k@ == data@,
            None => data@.len() != 32,
        },
{
    if data.len() != 32 {
        return None;
    }
    let mut key: [u8; 32] = [0u8; 32];
    let mut i: usize = 0;
    while i < 32
        invariant
            i <= 32,
            data@.len() == 32,
            forall|j: int| 0 <= j < i ==> key@[j] == data@[j],
        decreases 32 - i,
    {
        key[i] = data[i];
        i += 1;
    }
    assert(key@ =~= data@);
    Some(key)
}

} // verus!
