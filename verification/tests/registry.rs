use airdrop::cli_args::{CliArgs, Commands, DEFAULT_SLEEP_MS, DEFAULT_URL};
use airdrop::holders::Holders;
use airdrop::mint_status::{MintStatus, MintTxInfo};
use airdrop::registry::Registry;

fn text(s: &str) -> String {
    String::from(s)
}

#[test]
fn new_registry_is_empty() {
    let registry: Registry<u8> = Registry::new();
    assert_eq!(registry.len(), 0);
    assert_eq!(registry.get(&text("a")), None);
    assert_eq!(registry.position(&text("a")), None);
}

#[test]
fn registry_insert_appends_new_keys_in_order() {
    let mut registry: Registry<u8> = Registry::new();
    assert_eq!(registry.insert(text("b"), 2), None);
    assert_eq!(registry.insert(text("a"), 1), None);
    assert_eq!(registry.len(), 2);
    assert_eq!(registry.key_at(0), "b");
    assert_eq!(registry.key_at(1), "a");
    assert_eq!(*registry.value_at(0), 2);
    assert_eq!(*registry.value_at(1), 1);
    assert_eq!(registry.position(&text("a")), Some(1));
}

#[test]
fn registry_insert_replaces_in_place() {
    let mut registry: Registry<u8> = Registry::new();
    registry.insert(text("a"), 1);
    registry.insert(text("b"), 2);
    registry.insert(text("c"), 3);
    assert_eq!(registry.insert(text("a"), 9), Some(1));
    assert_eq!(registry.len(), 3);
    assert_eq!(registry.key_at(0), "a");
    assert_eq!(registry.key_at(1), "b");
    assert_eq!(registry.key_at(2), "c");
    assert_eq!(registry.get(&text("a")), Some(&9));
    assert_eq!(registry.get(&text("b")), Some(&2));
    assert_eq!(registry.get(&text("c")), Some(&3));
}

#[test]
fn holders_insert_and_get() {
    let mut holders = Holders::new();
    assert_eq!(holders.len(), 0);
    assert_eq!(holders.insert(text("walletA"), 5), None);
    assert_eq!(holders.insert(text("walletB"), 2), None);
    assert_eq!(holders.len(), 2);
    assert_eq!(holders.get(&text("walletA")), Some(5));
    assert_eq!(holders.get(&text("walletB")), Some(2));
    assert_eq!(holders.get(&text("walletC")), None);
    assert_eq!(holders.wallet_at(0), "walletA");
    assert_eq!(holders.quantity_at(0), 5);
    assert_eq!(holders.wallet_at(1), "walletB");
    assert_eq!(holders.quantity_at(1), 2);
}

#[test]
fn holders_never_hold_a_wallet_twice() {
    let mut holders = Holders::new();
    holders.insert(text("walletA"), 5);
    assert_eq!(holders.insert(text("walletA"), 7), Some(5));
    assert_eq!(holders.len(), 1);
    assert_eq!(holders.get(&text("walletA")), Some(7));
}

#[test]
fn holders_credit_counts_assets() {
    let mut holders = Holders::new();
    holders.credit(text("walletA"));
    holders.credit(text("walletB"));
    holders.credit(text("walletA"));
    holders.credit(text("walletA"));
    assert_eq!(holders.len(), 2);
    assert_eq!(holders.get(&text("walletA")), Some(3));
    assert_eq!(holders.get(&text("walletB")), Some(1));
}

#[test]
fn mint_tx_info_has_two_kinds() {
    let confirmed = MintTxInfo::confirmed(text("sig"));
    assert_eq!(confirmed.signature, Some(text("sig")));
    assert!(confirmed.status);
    let failed = MintTxInfo::failed();
    assert_eq!(failed.signature, None);
    assert!(!failed.status);
}

#[test]
fn mint_status_insert_and_get() {
    let mut statuses = MintStatus::new();
    assert_eq!(statuses.len(), 0);
    assert_eq!(statuses.insert(text("walletA"), MintTxInfo::confirmed(text("s1"))), None);
    assert_eq!(statuses.insert(text("walletB"), MintTxInfo::failed()), None);
    assert_eq!(statuses.len(), 2);
    assert_eq!(statuses.get(&text("walletA")), Some(&MintTxInfo::confirmed(text("s1"))));
    assert_eq!(statuses.get(&text("walletB")), Some(&MintTxInfo::failed()));
    assert_eq!(statuses.get(&text("walletC")), None);
    assert_eq!(statuses.wallet_at(1), "walletB");
    assert_eq!(statuses.info_at(1), &MintTxInfo::failed());
}

#[test]
fn mint_status_later_result_replaces_earlier() {
    let mut statuses = MintStatus::new();
    statuses.insert(text("walletA"), MintTxInfo::failed());
    let previous = statuses.insert(text("walletA"), MintTxInfo::confirmed(text("s2")));
    assert_eq!(previous, Some(MintTxInfo::failed()));
    assert_eq!(statuses.len(), 1);
    assert_eq!(statuses.get(&text("walletA")), Some(&MintTxInfo::confirmed(text("s2"))));
}

#[test]
fn arguments_default_to_the_main_network() {
    let command = Commands::MakeFakeSnapshot { amount_of_holders: 3, output_file: text("out.json") };
    let args = CliArgs::with_defaults(command.clone());
    assert_eq!(args.url, "https://api.mainnet-beta.solana.com");
    assert_eq!(args.url, DEFAULT_URL);
    assert_eq!(args.payer_keypair, "");
    assert_eq!(args.sleep, 700);
    assert_eq!(args.sleep, DEFAULT_SLEEP_MS);
    assert_eq!(args.command, command);
}
