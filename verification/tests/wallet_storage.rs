use veil::chain::{ChainState, TreeState};
use veil::config::{Config, WalletNetwork};
use veil::error::Error;
use veil::keys::{self, IdentityFile, KeyStore};
use veil::storage;
use veil::wallet::{AccountBalance, NewAccount, TransactionRow, Wallet};

const PHRASE: &str = "abandon abandon abandon abandon abandon abandon abandon abandon abandon \
    abandon abandon abandon abandon abandon abandon abandon abandon abandon abandon abandon \
    abandon abandon abandon art";

fn config(data_dir: &str) -> Config {
    Config {
        data_dir: data_dir.into(),
        network: WalletNetwork::Regtest {
            ironwood_activation: 2,
        },
        ..Default::default()
    }
}

fn text(text: &str) -> IdentityFile {
    IdentityFile::Text {
        text: text.to_string(),
    }
}

fn new_store() -> (KeyStore, String) {
    let (store, written) = KeyStore::open(IdentityFile::Missing, true).unwrap();
    (store, written.unwrap())
}

fn initialize(wallet: &Wallet, accounts: usize, phrase: &str) -> Result<NewAccount, Error> {
    wallet.initialize(accounts, phrase, &ChainState::empty(1, [0; 32]))
}

#[test]
fn encrypted_wallet_survives_restart_and_restores_the_same_address() {
    let config = config("original");
    let phrase = keys::generate_mnemonic();
    let seed = keys::seed(&phrase).unwrap();
    let (store, identity) = new_store();
    let wallet = Wallet {
        keys: store,
        config: config.clone(),
    };
    let account = initialize(&wallet, 0, &phrase).unwrap();
    assert_eq!(wallet.seed(&account.encrypted_mnemonic).unwrap(), seed);
    assert!(!account
        .encrypted_mnemonic
        .windows(phrase.len())
        .any(|part| part == phrase.as_bytes()));
    drop(wallet);
    let (store, written) = KeyStore::open(text(&identity), false).unwrap();
    assert!(written.is_none());
    assert!(storage::open(Some(account.network.clone()), config.network).is_ok());
    let reopened = Wallet {
        keys: store,
        config: config.clone(),
    };
    assert!(Wallet::initialized(1));
    assert_eq!(reopened.seed(&account.encrypted_mnemonic).unwrap(), seed);
    assert_eq!(
        initialize(&reopened, 1, &phrase).err(),
        Some(Error::AlreadyInitialized)
    );
    let wrong_network = WalletNetwork::Regtest {
        ironwood_activation: 3,
    };
    assert!(storage::open(Some(account.network.clone()), wrong_network).is_err());
    let restored = Wallet {
        keys: new_store().0,
        config: Config {
            data_dir: "restored".into(),
            ..config
        },
    };
    let restored_address = initialize(&restored, 0, &phrase).unwrap().address;
    assert_eq!(account.address, restored_address);
}

#[test]
fn a_phrase_has_its_known_seed() {
    let seed = keys::seed(PHRASE).unwrap();
    let hex: String = seed.iter().map(|byte| format!("{byte:02x}")).collect();
    assert_eq!(
        hex,
        "408b285c123836004f4b8842c89324c1f01382450c0d439af345ba7fc49acf70\
         5489c6fc77dbd4e3dc1dd8cc6bc9f043db8ada1e243c4a0eafb290d399480840"
    );
}

#[test]
fn a_generated_phrase_has_twenty_four_words() {
    let phrase = keys::generate_mnemonic();
    assert_eq!(phrase.split(' ').count(), 24);
    assert_eq!(keys::seed(&phrase).unwrap().len(), 64);
    assert_ne!(phrase, keys::generate_mnemonic());
}

#[test]
fn other_texts_are_no_phrases() {
    let error = keys::seed("abandon").unwrap_err();
    assert!(matches!(&error, Error::MnemonicInvalid { .. }));
    assert_eq!(
        error.message(),
        "BIP-0039 mnemonic only supports 12/15/18/21/24 words: 1"
    );
}

#[test]
fn identities_are_read_made_or_refused() {
    let (store, identity) = new_store();
    assert!(identity.starts_with("AGE-SECRET-KEY-1"));
    let padded = format!(" {identity}\n");
    let (reread, written) = KeyStore::open(text(&padded), true).unwrap();
    assert!(written.is_none());
    let ciphertext = store.encrypt("some text").unwrap();
    assert_eq!(reread.decrypt(&ciphertext).unwrap(), "some text");
    let error = KeyStore::open(text("nonsense"), true).err().unwrap();
    assert!(matches!(&error, Error::IdentityInvalid { .. }));
    assert_eq!(error.message(), "invalid Bech32 encoding");
    for file in [IdentityFile::Unreadable, IdentityFile::Missing] {
        assert_eq!(
            KeyStore::open(file, false).err(),
            Some(Error::IdentityFile)
        );
    }
    assert_eq!(
        KeyStore::open(IdentityFile::Unreadable, true).err(),
        Some(Error::IdentityFile)
    );
}

#[test]
fn another_identity_does_not_decrypt() {
    let ciphertext = new_store().0.encrypt("").unwrap();
    assert!(matches!(
        new_store().0.decrypt(&ciphertext),
        Err(Error::Decryption { .. })
    ));
    let (store, _) = new_store();
    let ciphertext = store.encrypt("").unwrap();
    assert_eq!(store.decrypt(&ciphertext).unwrap(), "");
}

#[test]
fn the_birthday_is_at_or_after_ironwood() {
    let wallet = Wallet {
        keys: new_store().0,
        config: config("data"),
    };
    assert_eq!(wallet.birthday(0, 0), Err(Error::BirthdayBeforeActivation));
    assert_eq!(wallet.birthday(0, 1), Ok(2));
    assert_eq!(wallet.birthday(1, 1), Err(Error::AlreadyInitialized));
    assert_eq!(wallet.birthday(0, u32::MAX), Ok(u32::MAX));
    let state = ChainState::empty(0, [0; 32]);
    assert_eq!(
        wallet.initialize(0, "abandon", &state).err(),
        Some(Error::BirthdayBeforeActivation)
    );
    assert!(matches!(
        initialize(&wallet, 0, "abandon"),
        Err(Error::MnemonicInvalid { .. })
    ));
}

#[test]
fn an_account_is_made_from_a_tree_state() {
    let wallet = Wallet {
        keys: new_store().0,
        config: config("data"),
    };
    let tree = |hash: &str| TreeState {
        height: 4,
        hash: hash.to_string(),
        sapling_tree: "000000".to_string(),
        orchard_tree: "000000".to_string(),
        ironwood_tree: "000000".to_string(),
    };
    let account = wallet
        .initialize_from_tree(0, PHRASE, &tree(&"00".repeat(32)))
        .unwrap();
    assert_eq!(account.birthday, 5);
    assert_eq!(account.seed, keys::seed(PHRASE).unwrap());
    assert!(account.address.starts_with("uregtest1"));
    assert_eq!(
        account.network,
        "{\"kind\":\"regtest\",\"ironwood_activation\":2}"
    );
    let error = wallet.initialize_from_tree(0, PHRASE, &tree("no")).err().unwrap();
    assert!(matches!(&error, Error::TreeStateInvalid { .. }));
    assert_eq!(
        error.message(),
        "Block hash is not valid hex: InvalidHexCharacter { c: 'n', index: 0 }"
    );
}

#[test]
fn the_address_depends_on_the_network() {
    let main = Wallet {
        keys: new_store().0,
        config: Config::default(),
    };
    let state = ChainState::empty(4_000_000, [0; 32]);
    let address = main.initialize(0, PHRASE, &state).unwrap().address;
    assert!(address.starts_with("u1"));
    let network = zcash_protocol::consensus::Network::MainNetwork;
    match zcash_keys::address::Address::decode(&network, &address) {
        Some(zcash_keys::address::Address::Unified(address)) => {
            assert!(address.has_orchard() && !address.has_sapling());
            assert!(!address.has_transparent());
        }
        _ => panic!("a wallet has a unified address"),
    }
}

#[test]
fn only_one_account_is_made() {
    let wallet = Wallet {
        keys: new_store().0,
        config: config("data"),
    };
    let mut accounts = 0;
    let mut attempts = Vec::new();
    for phrase in ["abandon", PHRASE, PHRASE, &keys::generate_mnemonic()] {
        let attempt = initialize(&wallet, accounts, phrase);
        accounts += usize::from(attempt.is_ok());
        attempts.push(attempt.err());
    }
    assert_eq!(accounts, 1);
    assert!(matches!(attempts[0], Some(Error::MnemonicInvalid { .. })));
    assert_eq!(attempts[1], None);
    assert_eq!(attempts[2], Some(Error::AlreadyInitialized));
    assert_eq!(attempts[3], Some(Error::AlreadyInitialized));
}

#[test]
fn a_database_belongs_to_its_network() {
    let main = WalletNetwork::Mainnet;
    let regtest = WalletNetwork::Regtest {
        ironwood_activation: 10,
    };
    assert_eq!(storage::network_text(main), "{\"kind\":\"mainnet\"}");
    let text = storage::network_text(regtest);
    assert_eq!(text, "{\"kind\":\"regtest\",\"ironwood_activation\":10}");
    assert_eq!(storage::open(None, main), Ok(()));
    assert_eq!(storage::open(Some(text.clone()), regtest), Ok(()));
    assert_eq!(
        storage::open(Some(text), main),
        Err(Error::DifferentNetwork)
    );
}

#[test]
fn the_status_holds_what_the_database_knows() {
    let status = Wallet::status(1, Some(5), Some(9));
    assert!(status.initialized);
    assert_eq!(status.scanned_height, Some(5));
    assert_eq!(status.sync_target, Some(9));
    assert_eq!(status.header_height, None);
    assert!(!status.syncing);
    assert!(!Wallet::status(0, None, None).initialized);
}

#[test]
fn balances_add_up() {
    let account = |total, spendable| AccountBalance { total, spendable };
    let balance = Wallet::balance(None).unwrap();
    assert_eq!((balance.total_zatoshis, balance.spendable_zatoshis), (0, 0));
    let balance = Wallet::balance(Some(&vec![account(5, 3), account(7, 0)])).unwrap();
    assert_eq!((balance.total_zatoshis, balance.spendable_zatoshis), (12, 3));
    for accounts in [
        vec![account(u64::MAX, 0), account(1, 0)],
        vec![account(0, u64::MAX), account(0, 1)],
    ] {
        assert_eq!(
            Wallet::balance(Some(&accounts)).err(),
            Some(Error::BalanceOverflow)
        );
    }
}

#[test]
fn transactions_are_shown_with_reversed_identifiers() {
    let mut txid = vec![0; 32];
    txid[0] = 0x1f;
    txid[31] = 0xa0;
    let row = |txid: Vec<u8>| TransactionRow {
        txid,
        mined_height: Some(3),
        expiry_height: 40,
    };
    let shown = Wallet::transactions(&vec![row(txid)]).unwrap();
    assert_eq!(shown[0].txid, format!("a0{}1f", "00".repeat(30)));
    assert_eq!(shown[0].mined_height, Some(3));
    assert_eq!(shown[0].expiry_height, 40);
    let error = Wallet::transactions(&vec![row(vec![0; 31])]).unwrap_err();
    assert_eq!(error.message(), "Query is not read-only");
}
