use std::path::{Path, PathBuf};

use veil::chain::ChainState;
use veil::config::{Config, IpAddress, SocketAddress, WalletNetwork};
use veil::daemon::{
    cookie, new_cookie, rpc_error, run, serve, CookieAuth, Progress, Rpc, ServeAction, ServeEvent,
};
use veil::error::Error;
use veil::keys::{IdentityFile, KeyStore};
use veil::rpc::{RestoreRequest, SendRequest, WalletStatus};
use veil::send::{check_amount, check_proposal, check_recipient, sent, Pool, Recipient, MAX_MONEY};
use veil::text;
use veil::wallet::Wallet;

#[test]
fn the_default_setup_is_sound() {
    let config = Config::default();
    assert_eq!(config.data_dir, Path::new("data"));
    assert_eq!(config.network, WalletNetwork::Mainnet);
    assert_eq!(config.rpc_listen.port, 18237);
    assert_eq!(
        config.rpc_listen.ip,
        IpAddress::V4 {
            octets: [127, 0, 0, 1]
        }
    );
    assert!(config.peers.is_empty());
    assert_eq!(config.sync_interval_seconds, 10);
    assert_eq!(config.validate(), Ok(()));
}

fn listening(ip: IpAddress) -> Config {
    Config {
        rpc_listen: SocketAddress { ip, port: 1 },
        ..Default::default()
    }
}

#[test]
fn only_loopback_addresses_are_listened_on() {
    let v4 = |octets| listening(IpAddress::V4 { octets }).validate();
    let v6 = |groups| listening(IpAddress::V6 { groups }).validate();
    assert_eq!(v4([127, 255, 0, 9]), Ok(()));
    assert_eq!(v4([128, 0, 0, 1]), Err(Error::NotLoopback));
    assert_eq!(v6([0, 0, 0, 0, 0, 0, 0, 1]), Ok(()));
    assert_eq!(v6([0, 0, 0, 0, 0, 0, 0, 2]), Err(Error::NotLoopback));
    assert_eq!(
        v6([0, 0, 0, 0, 0, 0xffff, 0x7f00, 1]),
        Err(Error::NotLoopback)
    );
}

#[test]
fn faults_are_found_in_order() {
    let mut config = listening(IpAddress::V4 { octets: [0; 4] });
    config.sync_interval_seconds = 0;
    config.network = WalletNetwork::Regtest {
        ironwood_activation: 1,
    };
    assert_eq!(config.validate(), Err(Error::NotLoopback));
    config.rpc_listen = Config::default().rpc_listen;
    assert_eq!(config.validate(), Err(Error::SyncIntervalZero));
    config.sync_interval_seconds = 1;
    assert_eq!(config.validate(), Err(Error::RegtestActivation));
    config.network = WalletNetwork::Regtest {
        ironwood_activation: 2,
    };
    assert_eq!(config.validate(), Ok(()));
}

fn loaded(data_dir: &str, file: &str) -> PathBuf {
    let read = Config {
        data_dir: data_dir.into(),
        ..Default::default()
    };
    Config::load(read, Path::new(file)).unwrap().data_dir
}

#[test]
fn paths_are_relative_to_the_file() {
    let spelled = |data_dir, file| loaded(data_dir, file).into_os_string();
    assert_eq!(spelled("data", "/etc/veil/veil.toml"), "/etc/veil/data");
    assert_eq!(spelled("data", "/veil.toml"), "/data");
    assert_eq!(spelled("data", "veil.toml"), "data");
    assert_eq!(spelled("data", "/"), "./data");
    assert_eq!(spelled("data", ""), "./data");
    assert_eq!(spelled("/var/data", "/etc/veil.toml"), "/var/data");
    assert_eq!(spelled("", "/etc/veil.toml"), "/etc/");
    let unsound = Config {
        sync_interval_seconds: 0,
        ..Default::default()
    };
    assert_eq!(
        Config::load(unsound, Path::new("veil.toml")).err(),
        Some(Error::SyncIntervalZero)
    );
}

#[test]
fn paths_join_as_std_joins_them() {
    for base in ["", "a", "a/", "/", "/a/b"] {
        let config = Config {
            data_dir: base.into(),
            ..Default::default()
        };
        assert_eq!(config.wallet_path(), Path::new(base).join("wallet.db"));
        for data in ["x", "x/y", "/x"] {
            let file = Path::new(base).join("veil.toml");
            let joined = Path::new(base).join(data);
            assert_eq!(loaded(data, file.to_str().unwrap()), joined);
        }
    }
    let config = Config::default();
    for (path, expected) in [
        (config.identity_path(), "data/encryption-identity.txt"),
        (config.cookie_path(), "data/rpc.cookie"),
        (config.lock_path(), "data/daemon.lock"),
        (config.node_state_path(), "data/node/state"),
        (config.node_identity_path(), "data/node/identity"),
        (config.submissions_path(), "data/mock-submissions"),
    ] {
        assert_eq!(path, Path::new(expected));
        assert_eq!(config.clone().data_dir.join(path.strip_prefix("data").unwrap()), path);
    }
    let submission = format!("data/mock-submissions/{}.tx", "ab".repeat(32));
    assert_eq!(config.submission_path(&[0xab; 32]), PathBuf::from(submission));
}

const ID: [u8; 16] = [
    0x00, 0x1f, 0xa0, 0xff, 0x12, 0x34, 0x45, 0x67, 0x89, 0xab, 0xcd, 0xef, 0x01, 0x23, 0x45, 0x67,
];

#[test]
fn cookies_are_two_identifiers_in_hexadecimal() {
    assert_eq!(
        cookie(&ID, &[0xe5; 16]),
        "001fa0ff1234456789abcdef01234567e5e5e5e5e5e5e5e5e5e5e5e5e5e5e5e5"
    );
    let lower_hex = |c: char| c.is_ascii_digit() || ('a'..='f').contains(&c);
    let (first, second) = (new_cookie(), new_cookie());
    for token in [&first, &second] {
        assert_eq!(token.len(), 64);
        assert!(token.chars().all(lower_hex));
        for id in [&token[..32], &token[32..]] {
            assert_eq!(&id[12..13], "4");
            assert!("89ab".contains(&id[16..17]));
        }
    }
    assert_ne!(first, second);
}

#[test]
fn a_cookie_is_written_beside_its_place() {
    let config = Config::default();
    assert_eq!(
        config.cookie_temp_path(&ID),
        Path::new("data/rpc-cookie-001fa0ff-1234-4567-89ab-cdef01234567.tmp")
    );
    let (first, second) = (config.new_cookie_temp_path(), config.new_cookie_temp_path());
    assert_ne!(first, second);
    for path in [&first, &second] {
        assert_eq!(path.parent(), config.cookie_path().parent());
        let name = path.file_name().unwrap().to_str().unwrap();
        let id = name.strip_prefix("rpc-cookie-").unwrap().strip_suffix(".tmp").unwrap();
        assert_eq!(id.len(), 36);
        for (i, c) in id.chars().enumerate() {
            assert_eq!(c == '-', [8, 13, 18, 23].contains(&i));
        }
    }
}

#[test]
fn white_space_is_what_std_says() {
    for code in 0..=char::MAX as u32 {
        if let Some(c) = char::from_u32(code) {
            assert_eq!(text::white(c), c.is_whitespace());
        }
    }
    for sample in ["", " ", " a ", "\t\u{a0}a b\u{3000}\n", "\u{200b}a"] {
        assert_eq!(text::trim(sample), sample.trim());
    }
}

#[test]
fn numbers_are_written_in_decimal() {
    for number in [0, 9, 10, 1_000, u64::MAX] {
        assert_eq!(text::decimal(number), number.to_string());
    }
    for number in [i32::MIN, -1, 0, i32::MAX] {
        assert_eq!(text::signed_decimal(number), number.to_string());
    }
}

#[test]
fn progress_is_merged_into_the_status() {
    let wallet = WalletStatus {
        initialized: true,
        scanned_height: Some(4),
        ..Default::default()
    };
    let status = Rpc::status(wallet.clone(), Progress::started(), Some(9));
    assert!(status.initialized && status.syncing);
    assert_eq!(status.header_height, Some(9));
    assert_eq!(status.scanned_height, Some(4));
    assert_eq!(status.last_error, None);
    let failed = Progress::finished(Some("no".to_string()));
    let status = Rpc::status(wallet, failed, None);
    assert!(!status.syncing);
    assert_eq!(status.last_error, Some("no".to_string()));
    assert!(!Progress::new().syncing);
    let error = rpc_error("no".to_string());
    assert_eq!((error.code, error.message.as_str()), (-32000, "no"));
}

#[test]
fn a_created_wallet_can_be_restored() {
    let created = Rpc::create("words".to_string(), "u1".to_string(), 41);
    assert_eq!(created.birthday, 42);
    assert_eq!(created.mnemonic, "words");
    assert_eq!(created.address, "u1");
    let restore = |birthday| {
        Rpc::restore(&RestoreRequest {
            mnemonic: String::new(),
            birthday,
        })
    };
    assert_eq!(restore(created.birthday), Ok(41));
    assert_eq!(restore(0), Err(Error::BirthdayZero));
}

#[test]
fn only_callers_with_the_cookie_are_let_through() {
    let token = "abcd";
    let auth = CookieAuth::new(token);
    assert_eq!(auth.header(), "Bearer abcd");
    assert!(auth.call(Some("Bearer abcd".to_string())));
    assert!(!auth.call(Some("Bearer abc".to_string())));
    assert!(!auth.call(Some("abcd".to_string())));
    assert!(!auth.call(None));
}

#[test]
fn the_daemon_stops_when_its_node_has() {
    assert!(matches!(
        serve(ServeEvent::Interrupted),
        ServeAction::Stop { result: Ok(()) }
    ));
    assert!(matches!(
        serve(ServeEvent::ListenerStopped),
        ServeAction::Stop { result: Ok(()) }
    ));
    assert!(matches!(
        serve(ServeEvent::Tick {
            node_finished: true
        }),
        ServeAction::Stop {
            result: Err(Error::NodeStopped)
        }
    ));
    assert!(matches!(
        serve(ServeEvent::Tick {
            node_finished: false
        }),
        ServeAction::Sync
    ));
    assert!(matches!(serve(ServeEvent::Synced), ServeAction::Wait));
    assert_eq!(run::<u8>(Err(1), Err(2)), Err(1));
    assert_eq!(run::<u8>(Ok(()), Err(2)), Err(2));
    assert_eq!(run::<u8>(Ok(()), Ok(())), Ok(()));
}

fn wallet(network: WalletNetwork) -> Wallet {
    Wallet {
        keys: KeyStore::open(IdentityFile::Missing, true).unwrap().0,
        config: Config {
            network,
            ..Default::default()
        },
    }
}

const REGTEST: WalletNetwork = WalletNetwork::Regtest {
    ironwood_activation: 2,
};

fn request(address: &str, amount_zatoshis: u64) -> SendRequest {
    SendRequest {
        address: address.to_string(),
        amount_zatoshis,
    }
}

#[test]
fn a_payment_is_requested_from_a_checked_address() {
    let wallet = wallet(REGTEST);
    let phrase = veil::keys::generate_mnemonic();
    let state = ChainState::empty(1, [0; 32]);
    let address = wallet.initialize(0, &phrase, &state).unwrap().address;
    let requested = wallet.send(1, &request(&address, 5)).unwrap();
    let payments = requested.payments();
    assert_eq!(payments.len(), 1);
    assert_eq!(payments[&0].recipient_address().encode(), address);
    assert_eq!(payments[&0].amount().map(u64::from), Some(5));
    let refused = |accounts, address: &str, amount| {
        wallet.send(accounts, &request(address, amount)).err()
    };
    assert_eq!(refused(0, &address, 5), Some(Error::NotInitialized));
    assert_eq!(refused(0, &address, 0), Some(Error::AmountZero));
    assert_eq!(
        refused(0, &address, MAX_MONEY + 1),
        Some(Error::AmountTooLarge)
    );
    assert_eq!(refused(0, "nowhere", 0), Some(Error::RecipientInvalid));
}

#[test]
fn transparent_and_foreign_recipients_are_refused() {
    let transparent = "t1Hsc1LR8yKnbbe3twRp88p6vFfC5t7DLbs";
    let main = wallet(WalletNetwork::Mainnet);
    assert_eq!(
        main.send(1, &request(transparent, 5)).err(),
        Some(Error::RecipientWithoutOrchard)
    );
    assert_eq!(
        wallet(REGTEST).send(1, &request(transparent, 5)).err(),
        Some(Error::RecipientInvalid)
    );
}

#[test]
fn recipients_and_amounts_are_checked() {
    let recipient = |unified, orchard| {
        check_recipient(&Some(Recipient {
            unified,
            orchard,
            address: String::new(),
        }))
    };
    assert_eq!(recipient(true, true), Ok(()));
    assert_eq!(recipient(true, false), Err(Error::RecipientWithoutOrchard));
    assert_eq!(recipient(false, false), Err(Error::RecipientWithoutOrchard));
    assert_eq!(check_recipient(&None), Err(Error::RecipientInvalid));
    assert_eq!(check_amount(MAX_MONEY), Ok(()));
    assert_eq!(check_amount(1), Ok(()));
}

#[test]
fn proposals_pay_into_ironwood_in_one_step() {
    assert_eq!(check_proposal(&vec![vec![Pool::Ironwood]]), Ok(()));
    assert_eq!(check_proposal(&vec![vec![]]), Ok(()));
    assert_eq!(check_proposal(&vec![]), Err(Error::MultipleSteps));
    assert_eq!(
        check_proposal(&vec![vec![], vec![]]),
        Err(Error::MultipleSteps)
    );
    for pool in [Pool::Transparent, Pool::Sapling, Pool::Orchard] {
        assert_eq!(
            check_proposal(&vec![vec![Pool::Ironwood, pool]]),
            Err(Error::NonIronwoodPayment)
        );
    }
}

#[test]
fn a_sent_payment_is_not_submitted() {
    let result = sent(&[0x0c; 32]);
    assert_eq!(result.txid, "0c".repeat(32));
    assert_eq!(result.submission, "mocked");
}
