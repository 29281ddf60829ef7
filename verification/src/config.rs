//! The wallet's configuration and the networks it runs on.
use std::path::{Path, PathBuf};

use vstd::prelude::*;
use vstd::string::*;
use zcash_protocol::consensus::{Network, Parameters};

use crate::error::Error;

verus! {

/// An internet address, by its octets or by its groups.
#[derive(Clone, Copy, Debug, PartialEq, Eq)]
pub enum IpAddress {
    V4 { octets: [u8; 4] },
    V6 { groups: [u16; 8] },
}

impl IpAddress {
    /// Whether the address is in 127.0.0.0/8 or is ::1.
    pub open spec fn is_local(self) -> bool {
        match self {
            IpAddress::V4 { octets } => octets@[0] == 127,
            IpAddress::V6 { groups } => {
                &&& forall|i: int| 0 <= i < 7 ==> #[trigger] groups@[i] == 0
                &&& groups@[7] == 1
            },
        }
    }

    /// Whether the address is in 127.0.0.0/8 or is ::1.
    pub fn is_loopback(&self) -> (loopback: bool)
        ensures
            loopback == self.is_local(),
    {
        match self {
            IpAddress::V4 { octets } => octets[0] == 127,
            IpAddress::V6 { groups } => {
                let mut i: usize = 0;
                while i < 7
                    invariant
                        i <= 7,
                        *self == (IpAddress::V6 { groups: *groups }),
                        forall|k: int| 0 <= k < i ==> #[trigger] groups@[k] == 0,
                    decreases 7 - i,
                {
                    if groups[i] != 0 {
                        return false;
                    }
                    i += 1;
                }
                groups[7] == 1
            },
        }
    }
}

/// An internet address and a port.
#[derive(Clone, Copy, Debug, PartialEq, Eq)]
pub struct SocketAddress {
    pub ip: IpAddress,
    pub port: u16,
}

/// A path of the platform that the library is built for. By the rules of that platform texts spell
/// paths, and paths are relative, have parents and are joined.
#[verifier::external_type_specification]
#[verifier::external_body]
pub struct ExPathBuf(PathBuf);

/// A borrowed path.
#[verifier::external_type_specification]
#[verifier::external_body]
pub struct ExPath(Path);

/// `std::path::PathBuf::clone`. The claim is that it gives the same path.
pub assume_specification[ <PathBuf as Clone>::clone ](path: &PathBuf) -> (copy: PathBuf)
    ensures
        copy == *path,
;

/// The path that a text spells.
pub uninterp spec fn path_of(text: Seq<char>) -> PathBuf;

/// Whether a path is relative.
pub uninterp spec fn path_is_relative(path: PathBuf) -> bool;

/// A path without its final component, if it has one.
pub uninterp spec fn path_parent(path: &Path) -> Option<PathBuf>;

/// A path adjoined to another one.
pub uninterp spec fn path_joined(base: PathBuf, path: PathBuf) -> PathBuf;

/// A path by its text under another one.
pub open spec fn path_under(base: PathBuf, leaf: Seq<char>) -> PathBuf {
    path_joined(base, path_of(leaf))
}

/// Calls `std::path::PathBuf::from`. The claim is that the path depends on the text alone.
#[verifier::external_body]
fn spell_path(text: &str) -> (path: PathBuf)
    ensures
        path == path_of(text@),
{
    PathBuf::from(text)
}

/// Calls `std::path::Path::is_relative`. The claim is that the outcome depends on the path alone.
#[verifier::external_body]
fn is_relative(path: &PathBuf) -> (relative: bool)
    ensures
        relative == path_is_relative(*path),
{
    path.is_relative()
}

/// Calls `std::path::Path::parent`. The claim is that the outcome depends on the path alone.
#[verifier::external_body]
fn parent_of(path: &Path) -> (parent: Option<PathBuf>)
    ensures
        parent == path_parent(path),
{
    path.parent().map(Path::to_path_buf)
}

/// Calls `std::path::Path::join`. The claim is that the outcome depends on the two paths alone, and
/// that a path that is not relative replaces the other one.
#[verifier::external_body]
fn join(base: &PathBuf, path: &PathBuf) -> (joined: PathBuf)
    ensures
        joined == path_joined(*base, *path),
        !path_is_relative(*path) ==> joined == *path,
{
    base.join(path)
}

pub(crate) fn joined(base: &PathBuf, leaf: &str) -> (joined: PathBuf)
    ensures
        joined == path_under(*base, leaf@),
{
    join(base, &spell_path(leaf))
}

/// How the wallet is set up.
#[derive(Clone, Debug)]
pub struct Config {
    pub data_dir: PathBuf,
    pub network: WalletNetwork,
    pub rpc_listen: SocketAddress,
    pub peers: Vec<String>,
    pub sync_interval_seconds: u64,
}

impl Default for Config {
    fn default() -> (config: Config)
        ensures
            config.data_dir == path_of("data"@),
            config.network == WalletNetwork::Mainnet,
            config.rpc_listen.ip matches IpAddress::V4 { octets } && octets@ == seq![
                127u8,
                0,
                0,
                1,
            ],
            config.rpc_listen.port == 18237,
            config.peers@.len() == 0,
            config.sync_interval_seconds == 10,
    {
        let octets: [u8; 4] = [127, 0, 0, 1];
        assert(octets@ =~= seq![127u8, 0, 0, 1]);
        Config {
            data_dir: spell_path("data"),
            network: WalletNetwork::Mainnet,
            rpc_listen: SocketAddress { ip: IpAddress::V4 { octets }, port: 18237 },
            peers: Vec::new(),
            sync_interval_seconds: 10,
        }
    }
}

impl Config {
    /// What is wrong with the setup, if anything is.
    pub open spec fn fault(self) -> Option<Error> {
        if !self.rpc_listen.ip.is_local() {
            Some(Error::NotLoopback)
        } else if self.sync_interval_seconds == 0 {
            Some(Error::SyncIntervalZero)
        } else if self.network matches WalletNetwork::Regtest { ironwood_activation }
            && ironwood_activation < 2 {
            Some(Error::RegtestActivation)
        } else {
            None
        }
    }

    /// Takes a setup that was read from the file at a path. A relative data directory is one under
    /// the directory of the file.
    pub fn load(read: Config, path: &Path) -> (config: Result<Config, Error>)
        ensures
            match config {
                Ok(config) => {
                    &&& read.fault() is None
                    &&& config.fault() is None
                    &&& config.data_dir == (if path_is_relative(read.data_dir) {
                        path_joined(
                            match path_parent(path) {
                                Some(parent) => parent,
                                None => path_of("."@),
                            },
                            read.data_dir,
                        )
                    } else {
                        read.data_dir
                    })
                    &&& config.network == read.network
                    &&& config.rpc_listen == read.rpc_listen
                    &&& config.peers == read.peers
                    &&& config.sync_interval_seconds == read.sync_interval_seconds
                },
                Err(error) => read.fault() == Some(error),
            },
    {
        let mut config = read;
        if is_relative(&config.data_dir) {
            let parent = match parent_of(path) {
                Some(parent) => parent,
                None => spell_path("."),
            };
            config.data_dir = join(&parent, &config.data_dir);
        }
        match config.validate() {
            Ok(()) => Ok(config),
            Err(error) => Err(error),
        }
    }

    /// Checks the setup.
    pub fn validate(&self) -> (checked: Result<(), Error>)
        ensures
            match self.fault() {
                Some(error) => checked == Err::<(), Error>(error),
                None => checked is Ok,
            },
    {
        if !self.rpc_listen.ip.is_loopback() {
            return Err(Error::NotLoopback);
        }
        if self.sync_interval_seconds == 0 {
            return Err(Error::SyncIntervalZero);
        }
        if let WalletNetwork::Regtest { ironwood_activation } = self.network {
            if ironwood_activation < 2 {
                return Err(Error::RegtestActivation);
            }
        }
        Ok(())
    }

    /// A path under the data directory.
    pub(crate) fn path(&self, leaf: &str) -> (path: PathBuf)
        ensures
            path == path_under(self.data_dir, leaf@),
    {
        joined(&self.data_dir, leaf)
    }

    /// Where the wallet database is.
    pub fn wallet_path(&self) -> (path: PathBuf)
        ensures
            path == path_under(self.data_dir, "wallet.db"@),
    {
        self.path("wallet.db")
    }

    /// Where the encryption identity is.
    pub fn identity_path(&self) -> (path: PathBuf)
        ensures
            path == path_under(self.data_dir, "encryption-identity.txt"@),
    {
        self.path("encryption-identity.txt")
    }

    /// Where the file is that one daemon at a time holds a lock on.
    pub fn lock_path(&self) -> (path: PathBuf)
        ensures
            path == path_under(self.data_dir, "daemon.lock"@),
    {
        self.path("daemon.lock")
    }

    /// Where the header node keeps its state.
    pub fn node_state_path(&self) -> (path: PathBuf)
        ensures
            path == path_under(self.data_dir, "node/state"@),
    {
        self.path("node/state")
    }

    /// Where the header node keeps its network identity.
    pub fn node_identity_path(&self) -> (path: PathBuf)
        ensures
            path == path_under(self.data_dir, "node/identity"@),
    {
        self.path("node/identity")
    }

    /// Where the cookie of the RPC listener is.
    pub fn cookie_path(&self) -> (path: PathBuf)
        ensures
            path == path_under(self.data_dir, "rpc.cookie"@),
    {
        self.path("rpc.cookie")
    }
}

/// A network upgrade that the wallet and its header node both know.
#[derive(Clone, Copy, Debug, PartialEq, Eq, Hash, Structural)]
pub enum Upgrade {
    Overwinter,
    Sapling,
    Blossom,
    Heartwood,
    Canopy,
    Nu5,
    Nu6,
    Nu6_1,
    Nu6_2,
    Nu6_3,
}

/// The kind of a network, which fixes how addresses are written.
#[derive(Clone, Copy, Debug, PartialEq, Eq, Hash, Structural)]
pub enum NetworkType {
    Main,
    Regtest,
}

/// The height at which each upgrade takes effect.
#[derive(Clone, Copy, Debug, PartialEq, Eq, Hash, Structural)]
pub struct UpgradeHeights {
    pub overwinter: u32,
    pub sapling: u32,
    pub blossom: u32,
    pub heartwood: u32,
    pub canopy: u32,
    pub nu5: u32,
    pub nu6: u32,
    pub nu6_1: u32,
    pub nu6_2: u32,
    pub nu6_3: u32,
}

impl UpgradeHeights {
    /// The height of one upgrade.
    pub open spec fn at(self, upgrade: Upgrade) -> u32 {
        match upgrade {
            Upgrade::Overwinter => self.overwinter,
            Upgrade::Sapling => self.sapling,
            Upgrade::Blossom => self.blossom,
            Upgrade::Heartwood => self.heartwood,
            Upgrade::Canopy => self.canopy,
            Upgrade::Nu5 => self.nu5,
            Upgrade::Nu6 => self.nu6,
            Upgrade::Nu6_1 => self.nu6_1,
            Upgrade::Nu6_2 => self.nu6_2,
            Upgrade::Nu6_3 => self.nu6_3,
        }
    }

    /// Whether no upgrade takes effect before an earlier one.
    pub open spec fn in_order(self) -> bool {
        self.overwinter <= self.sapling <= self.blossom <= self.heartwood <= self.canopy
            <= self.nu5 <= self.nu6 <= self.nu6_1 <= self.nu6_2 <= self.nu6_3
    }

    /// The latest upgrade that has taken effect at a height, if any has.
    pub open spec fn active(self, height: u32) -> Option<Upgrade> {
        if height >= self.nu6_3 {
            Some(Upgrade::Nu6_3)
        } else if height >= self.nu6_2 {
            Some(Upgrade::Nu6_2)
        } else if height >= self.nu6_1 {
            Some(Upgrade::Nu6_1)
        } else if height >= self.nu6 {
            Some(Upgrade::Nu6)
        } else if height >= self.nu5 {
            Some(Upgrade::Nu5)
        } else if height >= self.canopy {
            Some(Upgrade::Canopy)
        } else if height >= self.heartwood {
            Some(Upgrade::Heartwood)
        } else if height >= self.blossom {
            Some(Upgrade::Blossom)
        } else if height >= self.sapling {
            Some(Upgrade::Sapling)
        } else if height >= self.overwinter {
            Some(Upgrade::Overwinter)
        } else {
            None
        }
    }

    /// The height of one upgrade.
    pub fn height(&self, upgrade: Upgrade) -> (height: u32)
        ensures
            height == self.at(upgrade),
    {
        match upgrade {
            Upgrade::Overwinter => self.overwinter,
            Upgrade::Sapling => self.sapling,
            Upgrade::Blossom => self.blossom,
            Upgrade::Heartwood => self.heartwood,
            Upgrade::Canopy => self.canopy,
            Upgrade::Nu5 => self.nu5,
            Upgrade::Nu6 => self.nu6,
            Upgrade::Nu6_1 => self.nu6_1,
            Upgrade::Nu6_2 => self.nu6_2,
            Upgrade::Nu6_3 => self.nu6_3,
        }
    }
}

/// The heights at which the upgrades took effect on the main network.
pub open spec fn mainnet_heights() -> UpgradeHeights {
    UpgradeHeights {
        overwinter: 347_500,
        sapling: 419_200,
        blossom: 653_600,
        heartwood: 903_000,
        canopy: 1_046_400,
        nu5: 1_687_104,
        nu6: 2_726_400,
        nu6_1: 3_146_400,
        nu6_2: 3_364_600,
        nu6_3: 3_428_143,
    }
}

/// Calls `zcash_protocol::consensus::Parameters::activation_height` on
/// `Network::MainNetwork`. The claim is that it gives each upgrade the height of
/// [`mainnet_heights`].
#[verifier::external_body]
fn mainnet_activation_height(upgrade: Upgrade) -> (height: Option<u32>)
    ensures
        height == Some(mainnet_heights().at(upgrade)),
{
    let upgrade = match upgrade {
        Upgrade::Overwinter => zcash_protocol::consensus::NetworkUpgrade::Overwinter,
        Upgrade::Sapling => zcash_protocol::consensus::NetworkUpgrade::Sapling,
        Upgrade::Blossom => zcash_protocol::consensus::NetworkUpgrade::Blossom,
        Upgrade::Heartwood => zcash_protocol::consensus::NetworkUpgrade::Heartwood,
        Upgrade::Canopy => zcash_protocol::consensus::NetworkUpgrade::Canopy,
        Upgrade::Nu5 => zcash_protocol::consensus::NetworkUpgrade::Nu5,
        Upgrade::Nu6 => zcash_protocol::consensus::NetworkUpgrade::Nu6,
        Upgrade::Nu6_1 => zcash_protocol::consensus::NetworkUpgrade::Nu6_1,
        Upgrade::Nu6_2 => zcash_protocol::consensus::NetworkUpgrade::Nu6_2,
        Upgrade::Nu6_3 => zcash_protocol::consensus::NetworkUpgrade::Nu6_3,
    };
    Network::MainNetwork.activation_height(upgrade).map(u32::from)
}

/// A network that the wallet can run on.
#[derive(Clone, Copy, Debug, PartialEq, Eq, Hash, Structural)]
pub enum WalletNetwork {
    Mainnet,
    Regtest { ironwood_activation: u32 },
}

impl WalletNetwork {
    /// The upgrade schedule of the network.
    pub open spec fn heights(self) -> UpgradeHeights {
        match self {
            WalletNetwork::Mainnet => mainnet_heights(),
            WalletNetwork::Regtest { ironwood_activation } => UpgradeHeights {
                overwinter: 1,
                sapling: 1,
                blossom: 1,
                heartwood: 1,
                canopy: 1,
                nu5: 1,
                nu6: 1,
                nu6_1: 1,
                nu6_2: 1,
                nu6_3: ironwood_activation,
            },
        }
    }

    /// The kind of the network.
    pub open spec fn kind(self) -> NetworkType {
        match self {
            WalletNetwork::Mainnet => NetworkType::Main,
            WalletNetwork::Regtest { .. } => NetworkType::Regtest,
        }
    }

    /// The schedule of a regression test network.
    pub(crate) fn local(self) -> (heights: UpgradeHeights)
        requires
            self is Regtest,
        ensures
            heights == self.heights(),
    {
        let nu6_3: u32 = match self {
            WalletNetwork::Regtest { ironwood_activation } => ironwood_activation,
            WalletNetwork::Mainnet => 0,
        };
        UpgradeHeights {
            overwinter: 1,
            sapling: 1,
            blossom: 1,
            heartwood: 1,
            canopy: 1,
            nu5: 1,
            nu6: 1,
            nu6_1: 1,
            nu6_2: 1,
            nu6_3,
        }
    }

    /// The kind of the network.
    pub fn network_type(&self) -> (kind: NetworkType)
        ensures
            kind == self.kind(),
    {
        match self {
            WalletNetwork::Mainnet => NetworkType::Main,
            WalletNetwork::Regtest { .. } => NetworkType::Regtest,
        }
    }

    /// The height at which an upgrade takes effect on the network.
    pub fn activation_height(&self, upgrade: Upgrade) -> (height: Option<u32>)
        ensures
            height == Some(self.heights().at(upgrade)),
    {
        match self {
            WalletNetwork::Mainnet => mainnet_activation_height(upgrade),
            WalletNetwork::Regtest { .. } => Some(self.local().height(upgrade)),
        }
    }

    fn is_active(&self, upgrade: Upgrade, height: u32) -> (active: bool)
        ensures
            active == (self.heights().at(upgrade) <= height),
    {
        match self.activation_height(upgrade) {
            Some(activation) => activation <= height,
            None => false,
        }
    }

    /// The latest upgrade that has taken effect at a height, if any has.
    pub fn upgrade_at(&self, height: u32) -> (upgrade: Option<Upgrade>)
        ensures
            upgrade == self.heights().active(height),
    {
        if self.is_active(Upgrade::Nu6_3, height) {
            Some(Upgrade::Nu6_3)
        } else if self.is_active(Upgrade::Nu6_2, height) {
            Some(Upgrade::Nu6_2)
        } else if self.is_active(Upgrade::Nu6_1, height) {
            Some(Upgrade::Nu6_1)
        } else if self.is_active(Upgrade::Nu6, height) {
            Some(Upgrade::Nu6)
        } else if self.is_active(Upgrade::Nu5, height) {
            Some(Upgrade::Nu5)
        } else if self.is_active(Upgrade::Canopy, height) {
            Some(Upgrade::Canopy)
        } else if self.is_active(Upgrade::Heartwood, height) {
            Some(Upgrade::Heartwood)
        } else if self.is_active(Upgrade::Blossom, height) {
            Some(Upgrade::Blossom)
        } else if self.is_active(Upgrade::Sapling, height) {
            Some(Upgrade::Sapling)
        } else if self.is_active(Upgrade::Overwinter, height) {
            Some(Upgrade::Overwinter)
        } else {
            None
        }
    }
}

/// In a sound setup Ironwood takes effect at height 2 or later, and no upgrade before an earlier
/// one.
pub proof fn sound_setups_order_their_upgrades(config: Config)
    requires
        config.fault() is None,
    ensures
        config.network.heights().nu6_3 >= 2,
        config.network.heights().in_order(),
{
}

impl Upgrade {
    /// The place of the upgrade among all, in the order in which they take effect.
    pub open spec fn order(self) -> int {
        match self {
            Upgrade::Overwinter => 1,
            Upgrade::Sapling => 2,
            Upgrade::Blossom => 3,
            Upgrade::Heartwood => 4,
            Upgrade::Canopy => 5,
            Upgrade::Nu5 => 6,
            Upgrade::Nu6 => 7,
            Upgrade::Nu6_1 => 8,
            Upgrade::Nu6_2 => 9,
            Upgrade::Nu6_3 => 10,
        }
    }
}

/// The upgrade whose rules hold at a height has taken effect there, and no later one has. There is
/// none only where no upgrade has taken effect.
pub proof fn the_rules_are_those_of_the_latest_upgrade(
    heights: UpgradeHeights,
    height: u32,
    upgrade: Upgrade,
)
    ensures
        heights.active(height) == Some(upgrade) <==> heights.at(upgrade) <= height && forall|
            later: Upgrade,
        |
            later.order() > upgrade.order() ==> #[trigger] heights.at(later) > height,
        heights.active(height) is None <==> forall|any: Upgrade| #[trigger]
            heights.at(any) > height,
{
    if heights.at(upgrade) <= height && (forall|later: Upgrade|
        later.order() > upgrade.order() ==> #[trigger] heights.at(later) > height) {
        assert(Upgrade::Nu6_3.order() > upgrade.order() ==> heights.at(Upgrade::Nu6_3) > height);
        assert(Upgrade::Nu6_2.order() > upgrade.order() ==> heights.at(Upgrade::Nu6_2) > height);
        assert(Upgrade::Nu6_1.order() > upgrade.order() ==> heights.at(Upgrade::Nu6_1) > height);
        assert(Upgrade::Nu6.order() > upgrade.order() ==> heights.at(Upgrade::Nu6) > height);
        assert(Upgrade::Nu5.order() > upgrade.order() ==> heights.at(Upgrade::Nu5) > height);
        assert(Upgrade::Canopy.order() > upgrade.order() ==> heights.at(Upgrade::Canopy) > height);
        assert(Upgrade::Heartwood.order() > upgrade.order() ==> heights.at(Upgrade::Heartwood)
            > height);
        assert(Upgrade::Blossom.order() > upgrade.order() ==> heights.at(Upgrade::Blossom)
            > height);
        assert(Upgrade::Sapling.order() > upgrade.order() ==> heights.at(Upgrade::Sapling)
            > height);
    }
    if forall|any: Upgrade| #[trigger] heights.at(any) > height {
        assert(heights.at(Upgrade::Nu6_3) > height);
        assert(heights.at(Upgrade::Nu6_2) > height);
        assert(heights.at(Upgrade::Nu6_1) > height);
        assert(heights.at(Upgrade::Nu6) > height);
        assert(heights.at(Upgrade::Nu5) > height);
        assert(heights.at(Upgrade::Canopy) > height);
        assert(heights.at(Upgrade::Heartwood) > height);
        assert(heights.at(Upgrade::Blossom) > height);
        assert(heights.at(Upgrade::Sapling) > height);
        assert(heights.at(Upgrade::Overwinter) > height);
    }
}

/// On a regression test network all upgrades but Ironwood take effect at height 1, and Ironwood
/// where the network says. On the main network each takes effect after the one before it.
pub proof fn networks_have_their_upgrades(activation: u32, upgrade: Upgrade, later: Upgrade)
    ensures
        ({
            let regtest = WalletNetwork::Regtest { ironwood_activation: activation };
            let main = WalletNetwork::Mainnet;
            &&& regtest.kind() == NetworkType::Regtest
            &&& regtest.heights().at(Upgrade::Nu6_3) == activation
            &&& upgrade != Upgrade::Nu6_3 ==> regtest.heights().at(upgrade) == 1
            &&& main.kind() == NetworkType::Main
            &&& main.heights().at(Upgrade::Nu6_3) == 3_428_143
            &&& upgrade.order() < later.order() ==> main.heights().at(upgrade)
                < main.heights().at(later)
        }),
{
}

/// A setup is accepted where it listens on a loopback address, synchronises at some interval, and
/// Ironwood does not take effect before height 2 on a regression test network. It is refused for
/// the first of these that does not hold.
pub proof fn sound_setups_are_accepted(config: Config)
    ensures
        ({
            let loopback = match config.rpc_listen.ip {
                IpAddress::V4 { octets } => octets@[0] == 127,
                IpAddress::V6 { groups } => groups@ == seq![0u16, 0, 0, 0, 0, 0, 0, 1],
            };
            let early = match config.network {
                WalletNetwork::Mainnet => false,
                WalletNetwork::Regtest { ironwood_activation } => ironwood_activation < 2,
            };
            config.fault() == match (loopback, config.sync_interval_seconds > 0, early) {
                (true, true, false) => None,
                (false, _, _) => Some(Error::NotLoopback),
                (true, false, _) => Some(Error::SyncIntervalZero),
                (true, true, true) => Some(Error::RegtestActivation),
            }
        }),
{
    if let IpAddress::V6 { groups } = config.rpc_listen.ip {
        if config.rpc_listen.ip.is_local() {
            assert(groups@ =~= seq![0u16, 0, 0, 0, 0, 0, 0, 1]);
        }
    }
}

} // verus!
