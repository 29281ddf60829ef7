//! The consensus parameters of the embedded header node.
use std::sync::Arc;

use vstd::prelude::*;
use zakura_chain::parameters::testnet::{ConfiguredActivationHeights, Parameters};
use zakura_chain::parameters::{Network, NetworkUpgrade};

use crate::config::{mainnet_heights, Upgrade, UpgradeHeights, WalletNetwork};
use crate::error::Error;

verus! {

/// The header node's description of a network.
#[verifier::external_type_specification]
#[verifier::external_body]
pub struct ExNetwork(Network);

/// The height at which each upgrade takes effect in a network's activation list.
pub uninterp spec fn node_heights(network: Network) -> Map<Upgrade, u32>;

/// A network's activation list: the upgrade at each height that it holds, or none for genesis
/// and for an upgrade that the wallet does not know.
pub uninterp spec fn node_points(network: Network) -> Map<u32, Option<Upgrade>>;

/// The activation list of the header node on a network of the wallet.
pub open spec fn activation_list(network: WalletNetwork) -> Map<u32, Option<Upgrade>> {
    Map::new(
        |height: u32|
            height == 0 || (network is Mainnet && height == 1) || network.heights().latest(
                height,
            ) is Some,
        |height: u32| network.heights().latest(height),
    )
}

/// Why the header node refuses a schedule for a regression test network.
pub uninterp spec fn regtest_refusal(heights: UpgradeHeights) -> Seq<char>;

/// The largest height that the header node counts.
pub const MAX_HEIGHT: u32 = 0x7fff_ffff;

impl UpgradeHeights {
    /// The schedule as a map.
    pub open spec fn map(self) -> Map<Upgrade, u32> {
        Map::total(|upgrade: Upgrade| self.at(upgrade))
    }

    /// The latest upgrade that takes effect at a height, if any does.
    pub open spec fn latest(self, height: u32) -> Option<Upgrade> {
        if height == self.nu6_3 {
            Some(Upgrade::Nu6_3)
        } else if height == self.nu6_2 {
            Some(Upgrade::Nu6_2)
        } else if height == self.nu6_1 {
            Some(Upgrade::Nu6_1)
        } else if height == self.nu6 {
            Some(Upgrade::Nu6)
        } else if height == self.nu5 {
            Some(Upgrade::Nu5)
        } else if height == self.canopy {
            Some(Upgrade::Canopy)
        } else if height == self.heartwood {
            Some(Upgrade::Heartwood)
        } else if height == self.blossom {
            Some(Upgrade::Blossom)
        } else if height == self.sapling {
            Some(Upgrade::Sapling)
        } else if height == self.overwinter {
            Some(Upgrade::Overwinter)
        } else {
            None
        }
    }
}

/// Names `zakura_chain::parameters::Network::Mainnet`. The claim is that its activation
/// list holds genesis at 0, the pre-Overwinter rules at 1, and each upgrade at the height
/// of [`mainnet_heights`].
#[verifier::external_body]
fn mainnet_network() -> (network: Network)
    ensures
        node_heights(network) == mainnet_heights().map(),
        node_points(network) == activation_list(WalletNetwork::Mainnet),
{
    Network::Mainnet
}

/// Calls `zakura_chain::parameters::testnet::Parameters::new_regtest`. The claim is that it
/// accepts a schedule in order between 1 and [`MAX_HEIGHT`], that the activation list then
/// holds genesis and that schedule, that it refuses an Ironwood height out of that range, and
/// that what it says of a schedule that it refuses depends on the schedule alone.
#[verifier::external_body]
fn regtest_network(heights: UpgradeHeights) -> (network: Result<Network, String>)
    ensures
        1 <= heights.overwinter && heights.in_order() && heights.nu6_3 <= MAX_HEIGHT ==> {
            &&& network matches Ok(network)
            &&& node_heights(network) == heights.map()
            &&& node_points(network) == Map::new(
                |height: u32| height == 0 || heights.latest(height) is Some,
                |height: u32| heights.latest(height),
            )
        },
        heights.nu6_3 == 0 || heights.nu6_3 > MAX_HEIGHT ==> network is Err,
        network matches Err(detail) ==> detail@ == regtest_refusal(heights),
{
    let configured = ConfiguredActivationHeights {
        overwinter: Some(heights.overwinter), sapling: Some(heights.sapling),
        blossom: Some(heights.blossom), heartwood: Some(heights.heartwood),
        canopy: Some(heights.canopy), nu5: Some(heights.nu5), nu6: Some(heights.nu6),
        nu6_1: Some(heights.nu6_1), nu6_2: Some(heights.nu6_2), nu6_3: Some(heights.nu6_3),
        ..Default::default()
    };
    let parameters = Parameters::new_regtest(configured.into()).map_err(|e| e.to_string())?;
    Ok(Network::Testnet(Arc::new(parameters)))
}

/// Calls `zakura_chain::parameters::NetworkUpgrade::activation_height`. The claim is that it
/// gives the height that the network's activation list holds for the upgrade, if any.
#[verifier::external_body]
pub(crate) fn node_activation_height(network: &Network, upgrade: Upgrade) -> (height: Option<u32>)
    ensures
        height == (if node_heights(*network).contains_key(upgrade) {
            Some(node_heights(*network)[upgrade])
        } else {
            None
        }),
{
    match upgrade {
        Upgrade::Overwinter => NetworkUpgrade::Overwinter,
        Upgrade::Sapling => NetworkUpgrade::Sapling,
        Upgrade::Blossom => NetworkUpgrade::Blossom,
        Upgrade::Heartwood => NetworkUpgrade::Heartwood,
        Upgrade::Canopy => NetworkUpgrade::Canopy,
        Upgrade::Nu5 => NetworkUpgrade::Nu5,
        Upgrade::Nu6 => NetworkUpgrade::Nu6,
        Upgrade::Nu6_1 => NetworkUpgrade::Nu6_1,
        Upgrade::Nu6_2 => NetworkUpgrade::Nu6_2,
        Upgrade::Nu6_3 => NetworkUpgrade::Nu6_3,
    }.activation_height(network).map(|height| height.0)
}

/// The header node's parameters for the wallet's network.
pub fn network_parameters(network: WalletNetwork) -> (parameters: Result<Network, Error>)
    ensures
        parameters is Ok <==> 1 <= network.heights().nu6_3 <= MAX_HEIGHT,
        parameters matches Ok(node) ==> {
            &&& node_heights(node) == network.heights().map()
            &&& node_points(node) == activation_list(network)
        },
        parameters matches Err(error) ==> error matches Error::RegtestParameters { detail }
            && detail@ == regtest_refusal(network.heights()),
{
    match network {
        WalletNetwork::Mainnet => Ok(mainnet_network()),
        WalletNetwork::Regtest { .. } => match regtest_network(network.local()) {
            Ok(parameters) => Ok(parameters),
            Err(detail) => Err(Error::RegtestParameters { detail }),
        },
    }
}

/// The wallet and its header node agree on the height of every upgrade, on every network for
/// which the header node has parameters.
pub proof fn wallet_and_node_agree(network: WalletNetwork, node: Network, upgrade: Upgrade)
    requires
        node_heights(node) == network.heights().map(),
    ensures
        node_heights(node).contains_key(upgrade),
        node_heights(node)[upgrade] == network.heights().at(upgrade),
{
}

/// What a header node has come to that was not ready in time.
pub enum NodeEnd {
    /// It is running still.
    Running,
    /// It has ended well.
    Ended,
    /// It has failed.
    Failed { detail: String },
}

/// Why a header node could not be started.
pub fn startup_failure(end: NodeEnd) -> (error: Error)
    ensures
        error == (match end {
            NodeEnd::Running => Error::NodeNotReady,
            NodeEnd::Ended => Error::NodeExited,
            NodeEnd::Failed { detail } => Error::NodeFailed { detail },
        }),
{
    match end {
        NodeEnd::Running => Error::NodeNotReady,
        NodeEnd::Ended => Error::NodeExited,
        NodeEnd::Failed { detail } => Error::NodeFailed { detail },
    }
}

/// The activation list of the header node holds genesis, the block after it on the main network,
/// and the heights at which upgrades take effect, and no others. An upgrade stands at its height
/// unless a later one takes effect there too.
pub proof fn the_activation_list_holds_every_upgrade(
    network: WalletNetwork,
    height: u32,
    upgrade: Upgrade,
)
    requires
        network is Regtest ==> network->ironwood_activation >= 1,
    ensures
        activation_list(network).contains_key(0),
        activation_list(network)[0] is None,
        activation_list(network).contains_key(network.heights().at(upgrade)),
        activation_list(network).contains_key(height) ==> height == 0 || height == 1 || exists|
            any: Upgrade,
        | #[trigger] network.heights().at(any) == height,
        network.heights().at(upgrade) == height && (forall|later: Upgrade|
            later.order() > upgrade.order() ==> #[trigger] network.heights().at(later) != height)
            ==> activation_list(network)[height] == Some(upgrade),
{
    let heights = network.heights();
    if activation_list(network).contains_key(height) && height > 1 {
        let latest = heights.latest(height);
        assert(latest is Some);
        assert(heights.at(latest->Some_0) == height);
    }
    if heights.at(upgrade) == height && (forall|later: Upgrade|
        later.order() > upgrade.order() ==> #[trigger] heights.at(later) != height) {
        assert(Upgrade::Nu6_3.order() > upgrade.order() ==> heights.at(Upgrade::Nu6_3) != height);
        assert(Upgrade::Nu6_2.order() > upgrade.order() ==> heights.at(Upgrade::Nu6_2) != height);
        assert(Upgrade::Nu6_1.order() > upgrade.order() ==> heights.at(Upgrade::Nu6_1) != height);
        assert(Upgrade::Nu6.order() > upgrade.order() ==> heights.at(Upgrade::Nu6) != height);
        assert(Upgrade::Nu5.order() > upgrade.order() ==> heights.at(Upgrade::Nu5) != height);
        assert(Upgrade::Canopy.order() > upgrade.order() ==> heights.at(Upgrade::Canopy)
            != height);
        assert(Upgrade::Heartwood.order() > upgrade.order() ==> heights.at(Upgrade::Heartwood)
            != height);
        assert(Upgrade::Blossom.order() > upgrade.order() ==> heights.at(Upgrade::Blossom)
            != height);
        assert(Upgrade::Sapling.order() > upgrade.order() ==> heights.at(Upgrade::Sapling)
            != height);
    }
}

} // verus!
