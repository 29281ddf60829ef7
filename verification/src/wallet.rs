//! The wallet's account: how it is made, and what is told of it.
use vstd::prelude::*;
use vstd::string::*;
use zcash_keys::keys::ReceiverRequirement::{Omit, Require};
use zcash_keys::keys::{
    UnifiedAddressRequest, UnifiedFullViewingKey, UnifiedSpendingKey as Key,
};
use zcash_protocol::consensus::Network;
use zcash_protocol::local_consensus::LocalNetwork;

use crate::bytes::to_hash;
use crate::chain::{spelled_chain_state, ChainState, TreeState};
use crate::config::{Config, NetworkType, Upgrade, WalletNetwork};
use crate::error::Error;
use crate::keys::{decrypted, phrase_seed, seed, wipe_bytes, wipe_text, KeyStore};
use crate::rpc::{Balance, TransactionSummary, WalletStatus};
use crate::storage::{identity_text, network_text};
use crate::text::{hex_text, hex_text_has_two_digits_a_byte, hex_text_is_lower_hex};

verus! {

/// A key that finds what is paid to an account.
#[verifier::external_type_specification]
#[verifier::external_body]
pub struct ExUnifiedFullViewingKey(UnifiedFullViewingKey);

/// The receivers that an address has.
#[derive(Clone, Copy, Debug, PartialEq, Eq, Structural)]
pub struct Receivers {
    pub orchard: bool,
    pub sapling: bool,
    pub transparent: bool,
}

/// The account that the wallet has.
pub const ACCOUNT: u32 = 0;

/// The receivers of the wallet's address: an Orchard receiver alone.
pub open spec fn wallet_receivers() -> Receivers {
    Receivers { orchard: true, sapling: false, transparent: false }
}

/// What a viewing key holds, as bytes.
pub uninterp spec fn viewing_key(key: UnifiedFullViewingKey) -> Seq<u8>;

/// What the viewing key of an account of a seed holds, or why there is none.
pub uninterp spec fn seed_viewing_key(kind: NetworkType, account: u32, seed: Seq<u8>) -> Result<
    Seq<u8>,
    Seq<char>,
>;

/// The first address of a viewing key that has exactly some receivers, or why there is none.
pub uninterp spec fn first_address(
    kind: NetworkType,
    key: Seq<u8>,
    receivers: Receivers,
) -> Result<Seq<char>, Seq<char>>;

/// The wallet's address for a seed, or why there is none.
pub open spec fn seed_address(kind: NetworkType, seed: Seq<u8>) -> Result<Seq<char>, Seq<char>> {
    match seed_viewing_key(kind, ACCOUNT, seed) {
        Err(detail) => Err(detail),
        Ok(key) => first_address(kind, key, wallet_receivers()),
    }
}

/// Calls `zcash_keys::keys::UnifiedSpendingKey::from_seed` and `to_unified_full_viewing_key`. The
/// claim is that the outcome depends on the kind of the network, the account and the seed alone.
/// A seed that is too short or too long, or an account number that is too large, makes the call
/// panic.
#[verifier::external_body]
fn derive_viewing_key(kind: NetworkType, account: u32, seed: &[u8]) -> (key: Result<
    UnifiedFullViewingKey,
    String,
>)
    requires
        32 <= seed@.len() <= 252,
        account < 0x8000_0000,
    ensures
        seed_viewing_key(kind, account, seed@) == (match key {
            Ok(key) => Ok(viewing_key(key)),
            Err(detail) => Err(detail@),
        }),
{
    let account = zip32::AccountId::try_from(account).unwrap();
    let local = LocalNetwork { overwinter: None, sapling: None, blossom: None, heartwood: None,
        canopy: None, nu5: None, nu6: None, nu6_1: None, nu6_2: None, nu6_3: None };
    let key = match kind {
        NetworkType::Main => Key::from_seed(&Network::MainNetwork, seed, account),
        NetworkType::Regtest => Key::from_seed(&local, seed, account),
    };
    Ok(key.map_err(|error| error.to_string())?.to_unified_full_viewing_key())
}

/// Calls `zcash_keys::keys::UnifiedFullViewingKey::default_address`, and spells the address with
/// `to_zcash_address`. The claim is that the outcome depends on the kind of the network, the key
/// and the receivers alone. A request for neither a Sapling nor an Orchard receiver makes the
/// body panic.
#[verifier::external_body]
fn derive_address(kind: NetworkType, key: &UnifiedFullViewingKey, receivers: Receivers) -> (address:
    Result<String, String>)
    requires
        receivers.orchard || receivers.sapling,
    ensures
        first_address(kind, viewing_key(*key), receivers) == (match address {
            Ok(address) => Ok(address@),
            Err(detail) => Err(detail@),
        }),
{
    let asks = |receiver| if receiver { Require } else { Omit };
    let (sapling, transparent) = (asks(receivers.sapling), asks(receivers.transparent));
    let request = UnifiedAddressRequest::custom(asks(receivers.orchard), sapling, transparent);
    let (address, _) = key.default_address(request.unwrap()).map_err(|error| error.to_string())?;
    Ok(address.to_zcash_address(match kind {
        NetworkType::Main => zcash_protocol::consensus::NetworkType::Main,
        NetworkType::Regtest => zcash_protocol::consensus::NetworkType::Regtest,
    }).to_string())
}

/// An account to be stored.
pub struct NewAccount {
    pub seed: Vec<u8>,
    pub birthday: u32,
    pub network: String,
    pub encrypted_mnemonic: Vec<u8>,
    pub address: String,
}

/// The first block that an account has to scan, where its trees are known as of a block.
pub open spec fn birthday_after(height: u32) -> int {
    if height == u32::MAX {
        u32::MAX as int
    } else {
        height + 1
    }
}

/// A row of the wallet's transactions, as the database holds it.
pub struct TransactionRow {
    pub txid: Vec<u8>,
    pub mined_height: Option<u32>,
    pub expiry_height: u32,
}

/// What an account holds in the Ironwood pool.
#[derive(Clone, Copy, Debug, PartialEq, Eq, Structural)]
pub struct AccountBalance {
    pub total: u64,
    pub spendable: u64,
}

/// The sum of the totals.
pub open spec fn sum_total(accounts: Seq<AccountBalance>) -> nat
    decreases accounts.len(),
{
    if accounts.len() == 0 {
        0
    } else {
        sum_total(accounts.drop_last()) + accounts.last().total as nat
    }
}

/// The sum of what can be spent.
pub open spec fn sum_spendable(accounts: Seq<AccountBalance>) -> nat
    decreases accounts.len(),
{
    if accounts.len() == 0 {
        0
    } else {
        sum_spendable(accounts.drop_last()) + accounts.last().spendable as nat
    }
}

proof fn sums_grow(accounts: Seq<AccountBalance>, count: int)
    requires
        0 <= count <= accounts.len(),
    ensures
        sum_total(accounts.take(count)) <= sum_total(accounts),
        sum_spendable(accounts.take(count)) <= sum_spendable(accounts),
    decreases accounts.len(),
{
    if count == accounts.len() {
        assert(accounts.take(count) =~= accounts);
    } else {
        assert(accounts.drop_last().take(count) =~= accounts.take(count));
        sums_grow(accounts.drop_last(), count);
    }
}

/// The text of a transaction identifier: its bytes in reverse, in hexadecimal.
pub open spec fn txid_text(txid: Seq<u8>) -> Seq<char> {
    hex_text(txid.reverse())
}

/// Calls `zcash_primitives::transaction::TxId::from_bytes` and `to_string`. The claim is that
/// the text is that of [`txid_text`].
#[verifier::external_body]
pub(crate) fn show_txid(txid: &[u8; 32]) -> (text: String)
    ensures
        text@ == txid_text(txid@),
{
    zcash_primitives::transaction::TxId::from_bytes(*txid).to_string()
}

/// The wallet beside its database.
pub struct Wallet {
    pub keys: KeyStore,
    pub config: Config,
}

impl Wallet {
    /// Whether the wallet has an account.
    pub fn initialized(accounts: usize) -> (initialized: bool)
        ensures
            initialized == (accounts > 0),
    {
        accounts > 0
    }

    /// The birthday of an account whose trees are known as of a block, where one can be made.
    pub fn birthday(&self, accounts: usize, height: u32) -> (birthday: Result<u32, Error>)
        ensures
            if accounts > 0 {
                birthday == Err::<u32, Error>(Error::AlreadyInitialized)
            } else if birthday_after(height) < self.config.network.heights().nu6_3 {
                birthday == Err::<u32, Error>(Error::BirthdayBeforeActivation)
            } else {
                birthday matches Ok(birthday) && birthday == birthday_after(height)
            },
    {
        if Wallet::initialized(accounts) {
            return Err(Error::AlreadyInitialized);
        }
        let birthday: u32 = height.saturating_add(1);
        match self.config.network.activation_height(Upgrade::Nu6_3) {
            None => Err(Error::IronwoodNotConfigured),
            Some(activation) => if birthday < activation {
                Err(Error::BirthdayBeforeActivation)
            } else {
                Ok(birthday)
            },
        }
    }

    /// Whether an account is the one of a phrase, after a block.
    pub open spec fn makes(
        self,
        accounts: usize,
        mnemonic: Seq<char>,
        height: u32,
        account: Result<NewAccount, Error>,
    ) -> bool {
        if accounts > 0 {
            account matches Err(error) && error is AlreadyInitialized
        } else if birthday_after(height) < self.config.network.heights().nu6_3 {
            account matches Err(error) && error is BirthdayBeforeActivation
        } else {
            match phrase_seed(mnemonic) {
                Err(detail) => account matches Err(Error::MnemonicInvalid { detail: told })
                    && told@ == detail,
                Ok(seed) => match seed_address(self.config.network.kind(), seed) {
                    Err(detail) => account matches Err(Error::AddressDerivation { detail: told })
                        && told@ == detail,
                    Ok(address) => account matches Ok(account) && {
                        &&& account.seed@ == seed
                        &&& account.birthday == birthday_after(height)
                        &&& account.network@ == identity_text(self.config.network)
                        &&& decrypted(self.keys@, account.encrypted_mnemonic@) == Some(mnemonic)
                        &&& account.address@ == address
                    },
                },
            }
        }
    }

    /// Makes an account from a recovery phrase. Its trees are known as of the block before its
    /// birthday, which is at or after the Ironwood activation.
    pub fn initialize(
        &self,
        accounts: usize,
        mnemonic: &str,
        state: &ChainState,
    ) -> (account: Result<NewAccount, Error>)
        requires
            self.keys.wf(),
        ensures
            self.makes(accounts, mnemonic@, state.height, account),
    {
        let birthday: u32 = match self.birthday(accounts, state.height) {
            Ok(birthday) => birthday,
            Err(error) => return Err(error),
        };
        let mut seed = match seed(mnemonic) {
            Ok(seed) => seed,
            Err(error) => return Err(error),
        };
        let stored = match self.keys.encrypt(mnemonic) {
            Ok(encrypted_mnemonic) => match self.address_of(seed.as_slice()) {
                Ok(address) => Ok((encrypted_mnemonic, address)),
                Err(error) => Err(error),
            },
            Err(error) => Err(error),
        };
        match stored {
            Ok((encrypted_mnemonic, address)) => {
                let network = network_text(self.config.network);
                Ok(NewAccount { seed, birthday, network, encrypted_mnemonic, address })
            },
            Err(error) => {
                wipe_bytes(&mut seed);
                Err(error)
            },
        }
    }

    fn address_of(&self, seed: &[u8]) -> (address: Result<String, Error>)
        requires
            seed@.len() == 64,
        ensures
            match seed_address(self.config.network.kind(), seed@) {
                Ok(spelled) => address matches Ok(address) && address@ == spelled,
                Err(detail) => address matches Err(Error::AddressDerivation { detail: told })
                    && told@ == detail,
            },
    {
        let kind = self.config.network.network_type();
        let key = match derive_viewing_key(kind, ACCOUNT, seed) {
            Ok(key) => key,
            Err(detail) => return Err(Error::AddressDerivation { detail }),
        };
        let receivers = Receivers { orchard: true, sapling: false, transparent: false };
        match derive_address(kind, &key, receivers) {
            Ok(address) => Ok(address),
            Err(detail) => Err(Error::AddressDerivation { detail }),
        }
    }

    /// Makes an account from a recovery phrase and a provider's tree state.
    pub fn initialize_from_tree(
        &self,
        accounts: usize,
        mnemonic: &str,
        tree: &TreeState,
    ) -> (account: Result<NewAccount, Error>)
        requires
            self.keys.wf(),
            tree@.is_sound(),
        ensures
            match spelled_chain_state(tree@) {
                Err(detail) => account matches Err(Error::TreeStateInvalid { detail: told })
                    && told@ == detail,
                Ok(state) => self.makes(accounts, mnemonic@, state.height, account),
            },
    {
        match tree.to_chain_state() {
            Ok(state) => self.initialize(accounts, mnemonic, &state),
            Err(error) => Err(error),
        }
    }

    /// The seed of the stored recovery phrase. The phrase itself is wiped.
    pub fn seed(&self, ciphertext: &[u8]) -> (found: Result<Vec<u8>, Error>)
        requires
            self.keys.wf(),
        ensures
            match decrypted(self.keys@, ciphertext@) {
                None => found matches Err(error) && error is Decryption,
                Some(mnemonic) => match phrase_seed(mnemonic) {
                    Err(detail) => found matches Err(Error::MnemonicInvalid { detail: told })
                        && told@ == detail,
                    Ok(seed) => found matches Ok(found) && found@ == seed && seed.len()
                        == 64,
                },
            },
    {
        match self.keys.decrypt(ciphertext) {
            Ok(mnemonic) => {
                let mut mnemonic = mnemonic;
                let found = seed(mnemonic.as_str());
                wipe_text(&mut mnemonic);
                found
            },
            Err(error) => Err(error),
        }
    }

    /// What the database knows of the wallet.
    pub fn status(accounts: usize, scanned: Option<u32>, tip: Option<u32>) -> (status: WalletStatus)
        ensures
            status == (WalletStatus {
                initialized: accounts > 0,
                header_height: None,
                scanned_height: scanned,
                sync_target: tip,
                syncing: false,
                last_error: None,
            }),
    {
        let mut status = WalletStatus::default();
        status.initialized = Wallet::initialized(accounts);
        status.scanned_height = scanned;
        status.sync_target = tip;
        status
    }

    /// What the accounts of the wallet hold together. A wallet that has scanned nothing holds
    /// nothing.
    pub fn balance(summary: Option<&Vec<AccountBalance>>) -> (balance: Result<Balance, Error>)
        ensures
            match summary {
                None => balance == Ok::<Balance, Error>(
                    Balance { total_zatoshis: 0, spendable_zatoshis: 0 },
                ),
                Some(accounts) => if sum_total(accounts@) > u64::MAX || sum_spendable(accounts@)
                    > u64::MAX {
                    balance == Err::<Balance, Error>(Error::BalanceOverflow)
                } else {
                    balance == Ok::<Balance, Error>(
                        Balance {
                            total_zatoshis: sum_total(accounts@) as u64,
                            spendable_zatoshis: sum_spendable(accounts@) as u64,
                        },
                    )
                },
            },
    {
        let mut balance = Balance::default();
        let accounts = match summary {
            Some(accounts) => accounts,
            None => return Ok(balance),
        };
        let mut i: usize = 0;
        assert(accounts@.take(0) =~= seq![]);
        while i < accounts.len()
            invariant
                i <= accounts@.len(),
                summary == Some(accounts),
                balance.total_zatoshis == sum_total(accounts@.take(i as int)),
                balance.spendable_zatoshis == sum_spendable(accounts@.take(i as int)),
            decreases accounts@.len() - i,
        {
            proof {
                assert(accounts@.take(i + 1).drop_last() =~= accounts@.take(i as int));
                sums_grow(accounts@, i + 1);
            }
            balance.total_zatoshis = match balance.total_zatoshis.checked_add(accounts[i].total) {
                Some(total) => total,
                None => return Err(Error::BalanceOverflow),
            };
            balance.spendable_zatoshis = match balance.spendable_zatoshis.checked_add(
                accounts[i].spendable,
            ) {
                Some(spendable) => spendable,
                None => return Err(Error::BalanceOverflow),
            };
            i += 1;
        }
        assert(accounts@.take(i as int) =~= accounts@);
        Ok(balance)
    }

    /// The transactions of the wallet, in the order of their rows.
    pub fn transactions(rows: &Vec<TransactionRow>) -> (summaries: Result<
        Vec<TransactionSummary>,
        Error,
    >)
        ensures
            match summaries {
                Ok(summaries) => {
                    &&& summaries@.len() == rows@.len()
                    &&& forall|i: int|
                        #![trigger summaries@[i]]
                        0 <= i < rows@.len() ==> {
                            &&& rows@[i].txid@.len() == 32
                            &&& summaries@[i].txid@ == txid_text(rows@[i].txid@)
                            &&& summaries@[i].mined_height == rows@[i].mined_height
                            &&& summaries@[i].expiry_height == rows@[i].expiry_height
                        }
                },
                Err(error) => error is TransactionRow && exists|i: int|
                    0 <= i < rows@.len() && (#[trigger] rows@[i]).txid@.len() != 32,
            },
    {
        let mut summaries: Vec<TransactionSummary> = Vec::new();
        let mut i: usize = 0;
        while i < rows.len()
            invariant
                i <= rows@.len(),
                summaries@.len() == i,
                forall|k: int|
                    #![trigger summaries@[k]]
                    0 <= k < i ==> {
                        &&& rows@[k].txid@.len() == 32
                        &&& summaries@[k].txid@ == txid_text(rows@[k].txid@)
                        &&& summaries@[k].mined_height == rows@[k].mined_height
                        &&& summaries@[k].expiry_height == rows@[k].expiry_height
                    },
            decreases rows@.len() - i,
        {
            let row = &rows[i];
            let txid = match to_hash(row.txid.as_slice()) {
                Some(txid) => txid,
                None => return Err(Error::TransactionRow),
            };
            summaries.push(
                TransactionSummary {
                    txid: show_txid(&txid),
                    mined_height: row.mined_height,
                    expiry_height: row.expiry_height,
                },
            );
            i += 1;
        }
        Ok(summaries)
    }
}

/// The stored phrase of an account is the phrase that it was made from: the wallet finds the same
/// seed in it that the account was made with.
pub proof fn a_stored_phrase_gives_the_seed_back(
    wallet: Wallet,
    accounts: usize,
    mnemonic: Seq<char>,
    height: u32,
    account: NewAccount,
)
    requires
        wallet.makes(accounts, mnemonic, height, Ok(account)),
    ensures
        decrypted(wallet.keys@, account.encrypted_mnemonic@) == Some(mnemonic),
        phrase_seed(mnemonic) == Ok::<Seq<u8>, Seq<char>>(account.seed@),
{
}

/// A wallet that is restored from the phrase of another one, on a network of the same kind, gets
/// the same seed and the same address, whatever its key and its birthday are.
pub proof fn a_restored_wallet_has_the_same_address(
    wallet: Wallet,
    other: Wallet,
    mnemonic: Seq<char>,
    accounts: (usize, usize),
    heights: (u32, u32),
    first: NewAccount,
    restored: NewAccount,
)
    requires
        wallet.config.network.kind() == other.config.network.kind(),
        wallet.makes(accounts.0, mnemonic, heights.0, Ok(first)),
        other.makes(accounts.1, mnemonic, heights.1, Ok(restored)),
    ensures
        restored.seed@ == first.seed@,
        restored.address@ == first.address@,
{
}

/// The number of accounts that attempts have made.
pub open spec fn accounts_made(attempts: Seq<Result<NewAccount, Error>>) -> nat
    decreases attempts.len(),
{
    if attempts.len() == 0 {
        0
    } else if attempts.last() is Ok {
        accounts_made(attempts.drop_last()) + 1
    } else {
        accounts_made(attempts.drop_last())
    }
}

/// Whether attempts to make an account were made one after the other, each with a phrase and as of
/// a block, on a wallet that had no account before.
pub open spec fn were_made(
    wallet: Wallet,
    attempts: Seq<Result<NewAccount, Error>>,
    phrases: Seq<Seq<char>>,
    heights: Seq<u32>,
) -> bool {
    forall|i: int|
        0 <= i < attempts.len() ==> wallet.makes(
            accounts_made(attempts.take(i)) as usize,
            phrases[i],
            heights[i],
            #[trigger] attempts[i],
        )
}

/// There is one account at most: however often an account is asked for, and with whatever phrases,
/// only one attempt succeeds, and every later one is refused because of it.
pub proof fn there_is_one_account_at_most(
    wallet: Wallet,
    attempts: Seq<Result<NewAccount, Error>>,
    phrases: Seq<Seq<char>>,
    heights: Seq<u32>,
)
    requires
        were_made(wallet, attempts, phrases, heights),
    ensures
        accounts_made(attempts) <= 1,
        forall|i: int, j: int|
            #![trigger attempts[i], attempts[j]]
            0 <= i < j < attempts.len() && attempts[i] is Ok ==> attempts[j] == Err::<
                NewAccount,
                Error,
            >(Error::AlreadyInitialized),
        forall|i: int|
            0 <= i < attempts.len() && #[trigger] attempts[i] is Ok ==> accounts_made(attempts)
                == 1,
{
    attempts_are_few(wallet, attempts, phrases, heights);
    refused_attempts_make_one_account(attempts);
}

/// An attempt on a wallet with an account is refused, and there are never too many accounts to
/// count.
proof fn attempts_are_few(
    wallet: Wallet,
    attempts: Seq<Result<NewAccount, Error>>,
    phrases: Seq<Seq<char>>,
    heights: Seq<u32>,
)
    requires
        were_made(wallet, attempts, phrases, heights),
    ensures
        accounts_made(attempts) <= 1,
        forall|i: int| 0 <= i < attempts.len() ==> is_refused(attempts, i),
{
    assert forall|i: int| 0 <= i < attempts.len() implies #[trigger] is_turned_down(
        attempts,
        i,
    ) by {
        an_attempt_beside_an_account_is_refused(
            wallet,
            accounts_made(attempts.take(i)) as usize,
            phrases[i],
            heights[i],
            attempts[i],
        );
    }
    refusals_keep_attempts_few(attempts);
}

/// Whether an attempt is refused where the accounts before it, as far as they can be counted, are
/// not none.
spec fn is_turned_down(attempts: Seq<Result<NewAccount, Error>>, i: int) -> bool {
    accounts_made(attempts.take(i)) as usize > 0 ==> attempts[i] == Err::<NewAccount, Error>(
        Error::AlreadyInitialized,
    )
}

proof fn refusals_keep_attempts_few(attempts: Seq<Result<NewAccount, Error>>)
    requires
        forall|i: int| 0 <= i < attempts.len() ==> #[trigger] is_turned_down(attempts, i),
    ensures
        accounts_made(attempts) <= 1,
        forall|i: int| 0 <= i < attempts.len() ==> #[trigger] is_refused(attempts, i),
    decreases attempts.len(),
{
    if attempts.len() > 0 {
        let earlier = attempts.drop_last();
        let last = attempts.len() - 1;
        assert forall|i: int| 0 <= i < earlier.len() implies #[trigger] is_turned_down(
            earlier,
            i,
        ) by {
            assert(is_turned_down(attempts, i));
            assert(earlier.take(i) =~= attempts.take(i));
        }
        refusals_keep_attempts_few(earlier);
        assert(attempts.take(last) =~= earlier);
        assert(is_turned_down(attempts, last));
        assert forall|i: int| 0 <= i < attempts.len() implies #[trigger] is_refused(
            attempts,
            i,
        ) by {
            if i < last {
                assert(is_refused(earlier, i));
                assert(earlier.take(i) =~= attempts.take(i));
            }
        }
    }
}

proof fn an_attempt_beside_an_account_is_refused(
    wallet: Wallet,
    accounts: usize,
    mnemonic: Seq<char>,
    height: u32,
    made: Result<NewAccount, Error>,
)
    requires
        wallet.makes(accounts, mnemonic, height, made),
    ensures
        accounts > 0 ==> made == Err::<NewAccount, Error>(Error::AlreadyInitialized),
{
}

/// Whether an attempt is refused where one before has made an account.
spec fn is_refused(attempts: Seq<Result<NewAccount, Error>>, i: int) -> bool {
    accounts_made(attempts.take(i)) > 0 ==> attempts[i] == Err::<NewAccount, Error>(
        Error::AlreadyInitialized,
    )
}

proof fn refused_attempts_make_one_account(attempts: Seq<Result<NewAccount, Error>>)
    requires
        forall|i: int| 0 <= i < attempts.len() ==> is_refused(attempts, i),
    ensures
        forall|i: int, j: int|
            #![trigger attempts[i], attempts[j]]
            0 <= i < j < attempts.len() && attempts[i] is Ok ==> attempts[j] == Err::<
                NewAccount,
                Error,
            >(Error::AlreadyInitialized),
        forall|i: int|
            0 <= i < attempts.len() && #[trigger] attempts[i] is Ok ==> accounts_made(attempts)
                >= 1,
{
    assert forall|i: int, j: int|
        #![trigger attempts[i], attempts[j]]
        0 <= i < j < attempts.len() && attempts[i] is Ok implies attempts[j] == Err::<
        NewAccount,
        Error,
    >(Error::AlreadyInitialized) by {
        made_accounts_count(attempts, i, j);
        assert(is_refused(attempts, j));
    }
    assert forall|i: int|
        0 <= i < attempts.len() && #[trigger] attempts[i] is Ok implies accounts_made(attempts)
        >= 1 by {
        made_accounts_count(attempts, i, attempts.len() as int);
        assert(attempts.take(attempts.len() as int) =~= attempts);
    }
}

proof fn made_accounts_count(attempts: Seq<Result<NewAccount, Error>>, i: int, count: int)
    requires
        0 <= i < count <= attempts.len(),
        attempts[i] is Ok,
    ensures
        accounts_made(attempts.take(count)) > 0,
    decreases count,
{
    assert(attempts.take(count).drop_last() =~= attempts.take(count - 1));
    assert(attempts.take(count).last() == attempts[count - 1]);
    if i < count - 1 {
        made_accounts_count(attempts, i, count - 1);
    }
}

/// A failed attempt to make an account stands in the way of none: the next one succeeds or fails as
/// if it were the first.
pub proof fn a_failed_attempt_leaves_no_account(
    wallet: Wallet,
    attempts: Seq<Result<NewAccount, Error>>,
    phrases: Seq<Seq<char>>,
    heights: Seq<u32>,
    i: int,
)
    requires
        were_made(wallet, attempts, phrases, heights),
        0 <= i < attempts.len(),
        forall|k: int| 0 <= k < i ==> #[trigger] attempts[k] is Err,
    ensures
        wallet.makes(0, phrases[i], heights[i], attempts[i]),
{
    failures_make_no_account(attempts.take(i));
    assert(wallet.makes(
        accounts_made(attempts.take(i)) as usize,
        phrases[i],
        heights[i],
        attempts[i],
    ));
}

proof fn failures_make_no_account(attempts: Seq<Result<NewAccount, Error>>)
    requires
        forall|k: int| 0 <= k < attempts.len() ==> #[trigger] attempts[k] is Err,
    ensures
        accounts_made(attempts) == 0,
    decreases attempts.len(),
{
    if attempts.len() > 0 {
        failures_make_no_account(attempts.drop_last());
    }
}

/// The address of a made account is the first one of the viewing key of the first account of its
/// seed that has an Orchard receiver and no other, spelled for the network of the wallet.
pub proof fn the_address_is_that_of_the_first_account(
    wallet: Wallet,
    accounts: usize,
    mnemonic: Seq<char>,
    height: u32,
    account: NewAccount,
)
    requires
        wallet.makes(accounts, mnemonic, height, Ok(account)),
    ensures
        ({
            let kind = if wallet.config.network == WalletNetwork::Mainnet {
                NetworkType::Main
            } else {
                NetworkType::Regtest
            };
            let orchard_alone = Receivers { orchard: true, sapling: false, transparent: false };
            &&& phrase_seed(mnemonic) == Ok::<Seq<u8>, Seq<char>>(account.seed@)
            &&& seed_viewing_key(kind, 0, account.seed@) matches Ok(key) && first_address(
                kind,
                key,
                orchard_alone,
            ) == Ok::<Seq<char>, Seq<char>>(account.address@)
        }),
{
}

/// The height of the Ironwood activation on a network.
pub open spec fn ironwood_height(network: WalletNetwork) -> u32 {
    match network {
        WalletNetwork::Mainnet => 3_428_143,
        WalletNetwork::Regtest { ironwood_activation } => ironwood_activation,
    }
}

/// An account is made where the wallet has none, Ironwood is active at its birthday, and its phrase
/// has a seed whose first account has an address, and it is refused for the first of these that
/// does not hold. Its birthday is the block after the one that its trees are known as of.
pub proof fn an_account_is_made_where_it_can_be(
    wallet: Wallet,
    accounts: usize,
    mnemonic: Seq<char>,
    height: u32,
    made: Result<NewAccount, Error>,
)
    requires
        wallet.makes(accounts, mnemonic, height, made),
        height < u32::MAX,
    ensures
        ({
            let kind = if wallet.config.network == WalletNetwork::Mainnet {
                NetworkType::Main
            } else {
                NetworkType::Regtest
            };
            let orchard_alone = Receivers { orchard: true, sapling: false, transparent: false };
            if accounts > 0 {
                made matches Err(error) && error is AlreadyInitialized
            } else if height + 1 < ironwood_height(wallet.config.network) {
                made matches Err(error) && error is BirthdayBeforeActivation
            } else {
                match phrase_seed(mnemonic) {
                    Err(detail) => made matches Err(Error::MnemonicInvalid { detail: told })
                        && told@ == detail,
                    Ok(seed) => match seed_viewing_key(kind, 0, seed) {
                        Err(detail) => made matches Err(Error::AddressDerivation { detail: told })
                            && told@ == detail,
                        Ok(key) => match first_address(kind, key, orchard_alone) {
                            Err(detail) => made matches Err(
                                Error::AddressDerivation { detail: told },
                            ) && told@ == detail,
                            Ok(address) => made matches Ok(account) && account.birthday == height
                                + 1 && account.address@ == address,
                        },
                    },
                }
            }
        }),
{
}

/// Balances are added up over all accounts: that of none is nothing, and those of two lists of
/// accounts together are the sums of those of each.
pub proof fn balances_are_added_up(first: Seq<AccountBalance>, second: Seq<AccountBalance>)
    ensures
        sum_total(seq![]) == 0,
        sum_spendable(seq![]) == 0,
        forall|account: AccountBalance|
            sum_total(#[trigger] seq![account]) == account.total && sum_spendable(seq![account])
                == account.spendable,
        sum_total(first + second) == sum_total(first) + sum_total(second),
        sum_spendable(first + second) == sum_spendable(first) + sum_spendable(second),
    decreases second.len(),
{
    reveal_with_fuel(sum_total, 2);
    reveal_with_fuel(sum_spendable, 2);
    assert forall|account: AccountBalance|
        sum_total(#[trigger] seq![account]) == account.total && sum_spendable(seq![account])
            == account.spendable by {
        assert(seq![account].drop_last() =~= seq![]);
    }
    if second.len() == 0 {
        assert(first + second =~= first);
    } else {
        balances_are_added_up(first, second.drop_last());
        assert((first + second).drop_last() =~= first + second.drop_last());
    }
}

/// The text of a transaction identifier has two lowercase hexadecimal digits for each of its bytes,
/// and the last byte comes first.
pub proof fn identifiers_are_shown_backwards(txid: Seq<u8>, i: int)
    requires
        0 <= i < txid.len(),
    ensures
        txid_text(txid).len() == 2 * txid.len(),
        "0123456789abcdef"@[txid[txid.len() - 1 - i] as int / 16] == txid_text(txid)[2 * i],
        "0123456789abcdef"@[txid[txid.len() - 1 - i] as int % 16] == txid_text(txid)[2 * i + 1],
{
    hex_text_is_lower_hex(txid.reverse());
    hex_text_has_two_digits_a_byte(txid.reverse(), i);
}

/// A birthday is the block after the one that the trees are known as of, or that one where there
/// can be no later one. A made account has its birthday, says the network of the wallet, and keeps
/// its phrase for the key of the wallet.
pub proof fn accounts_keep_what_they_were_made_from(
    wallet: Wallet,
    accounts: usize,
    mnemonic: Seq<char>,
    height: u32,
    account: NewAccount,
)
    requires
        wallet.makes(accounts, mnemonic, height, Ok(account)),
    ensures
        accounts == 0,
        height < u32::MAX ==> account.birthday == height + 1,
        height == u32::MAX ==> account.birthday == u32::MAX,
        account.birthday >= ironwood_height(wallet.config.network),
        account.network@ == identity_text(wallet.config.network),
        decrypted(wallet.keys@, account.encrypted_mnemonic@) == Some(mnemonic),
        birthday_after(height) == account.birthday,
{
}

} // verus!
