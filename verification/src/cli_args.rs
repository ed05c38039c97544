//! What the command line asks for, as plain values.
//!
//! Parsing the command line is the program's business. These are the values
//! that it parses into, and the defaults of the options that may be left
//! out.

use vstd::prelude::*;

verus! {

/// The RPC endpoint that is used when none is named.
pub const DEFAULT_URL: &'static str = "https://api.mainnet-beta.solana.com";

/// The milliseconds to sleep between RPC requests when none are named.
pub const DEFAULT_SLEEP_MS: u64 = 700;

/// The global options and the command of one run.
#[derive(Clone, Debug, PartialEq, Eq)]
pub struct CliArgs {
    /// RPC endpoint.
    pub url: String,
    /// Keypair of the payer in base 58 encoding.
    pub payer_keypair: String,
    /// Time to sleep between RPC requests, in milliseconds.
    pub sleep: u64,
    pub command: Commands,
}

/// The commands.
#[derive(Clone, Debug, PartialEq, Eq)]
pub enum Commands {
    /// Take a snapshot of the holders of a collection.
    MakeSnapshot {
        /// The file to write the holder registry to.
        output_file: String,
        /// The address of the collection.
        collection: String,
        /// Where in a metadata account the collection's address stands.
        collection_offset: usize,
    },
    /// Mint tokens to the holders of a snapshot.
    Airdrop {
        /// The address of the mint.
        mint: String,
        /// The file to read the holder registry from.
        holders_list: String,
        /// Whether every wallet gets one token, however many assets it
        /// holds.
        one_to_wallet: bool,
    },
    /// Make a snapshot of random holders.
    MakeFakeSnapshot {
        /// The number of holders to make up.
        amount_of_holders: u64,
        /// The file to write the holder registry to.
        output_file: String,
    },
}

impl CliArgs {
    /// The arguments of a run of `command` with every option left at its
    /// default: the main network's endpoint, no payer, and 700 milliseconds
    /// between requests.
    pub fn with_defaults(command: Commands) -> (args: CliArgs)
        ensures
            args.url@ == DEFAULT_URL@,
            args.payer_keypair@ == Seq::<char>::empty(),
            args.sleep == 700,
            args.command == command,
    {
        CliArgs {
            url: DEFAULT_URL.to_owned(),
            payer_keypair: String::new(),
            sleep: DEFAULT_SLEEP_MS,
            command,
        }
    }
}

} // verus!
