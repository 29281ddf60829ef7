use veil::config::{Upgrade, WalletNetwork};
use veil::error::Error;
use veil::network::node::{network_parameters, startup_failure, NodeEnd, MAX_HEIGHT};
use zakura_chain::parameters::NetworkUpgrade;

#[test]
fn wallet_and_header_node_agree_on_upgrade_heights() {
    for wallet in [
        WalletNetwork::Mainnet,
        WalletNetwork::Regtest {
            ironwood_activation: 2,
        },
    ] {
        let node = network_parameters(wallet).unwrap();
        for (upgrade, node_upgrade) in [
            (Upgrade::Overwinter, NetworkUpgrade::Overwinter),
            (Upgrade::Sapling, NetworkUpgrade::Sapling),
            (Upgrade::Blossom, NetworkUpgrade::Blossom),
            (Upgrade::Heartwood, NetworkUpgrade::Heartwood),
            (Upgrade::Canopy, NetworkUpgrade::Canopy),
            (Upgrade::Nu5, NetworkUpgrade::Nu5),
            (Upgrade::Nu6, NetworkUpgrade::Nu6),
            (Upgrade::Nu6_1, NetworkUpgrade::Nu6_1),
            (Upgrade::Nu6_2, NetworkUpgrade::Nu6_2),
            (Upgrade::Nu6_3, NetworkUpgrade::Nu6_3),
        ] {
            assert_eq!(
                wallet.activation_height(upgrade),
                node_upgrade.activation_height(&node).map(|height| height.0),
                "{wallet:?}: {upgrade:?}",
            );
        }
    }
}

#[test]
fn mainnet_heights_are_the_known_ones() {
    let heights = [
        (Upgrade::Overwinter, 347_500),
        (Upgrade::Sapling, 419_200),
        (Upgrade::Blossom, 653_600),
        (Upgrade::Heartwood, 903_000),
        (Upgrade::Canopy, 1_046_400),
        (Upgrade::Nu5, 1_687_104),
        (Upgrade::Nu6, 2_726_400),
        (Upgrade::Nu6_1, 3_146_400),
        (Upgrade::Nu6_2, 3_364_600),
        (Upgrade::Nu6_3, 3_428_143),
    ];
    for (upgrade, height) in heights {
        assert_eq!(
            WalletNetwork::Mainnet.activation_height(upgrade),
            Some(height)
        );
    }
}

#[test]
fn the_activation_list_holds_genesis_and_every_upgrade() {
    let mainnet: Vec<u32> = network_parameters(WalletNetwork::Mainnet)
        .unwrap()
        .activation_list()
        .keys()
        .map(|height| height.0)
        .collect();
    assert_eq!(
        mainnet,
        vec![
            0, 1, 347_500, 419_200, 653_600, 903_000, 1_046_400, 1_687_104, 2_726_400, 3_146_400,
            3_364_600, 3_428_143,
        ]
    );
    let regtest = WalletNetwork::Regtest {
        ironwood_activation: 7,
    };
    let list = network_parameters(regtest).unwrap().activation_list();
    let points: Vec<(u32, NetworkUpgrade)> =
        list.into_iter().map(|(height, upgrade)| (height.0, upgrade)).collect();
    assert_eq!(
        points,
        vec![
            (0, NetworkUpgrade::Genesis),
            (1, NetworkUpgrade::Nu6_2),
            (7, NetworkUpgrade::Nu6_3),
        ]
    );
}

#[test]
fn the_header_node_refuses_heights_that_it_cannot_count() {
    for ironwood_activation in [0, MAX_HEIGHT + 1, u32::MAX] {
        let error = network_parameters(WalletNetwork::Regtest {
            ironwood_activation,
        })
        .unwrap_err();
        assert!(matches!(error, Error::RegtestParameters { .. }));
        assert!(error.message().starts_with("invalid regtest parameters: "));
    }
    for ironwood_activation in [1, 2, MAX_HEIGHT] {
        assert!(network_parameters(WalletNetwork::Regtest {
            ironwood_activation
        })
        .is_ok());
    }
}

#[test]
fn the_latest_active_upgrade_is_found() {
    let regtest = WalletNetwork::Regtest {
        ironwood_activation: 5,
    };
    assert_eq!(regtest.upgrade_at(0), None);
    assert_eq!(regtest.upgrade_at(1), Some(Upgrade::Nu6_2));
    assert_eq!(regtest.upgrade_at(4), Some(Upgrade::Nu6_2));
    assert_eq!(regtest.upgrade_at(5), Some(Upgrade::Nu6_3));
    assert_eq!(WalletNetwork::Mainnet.upgrade_at(347_499), None);
    assert_eq!(
        WalletNetwork::Mainnet.upgrade_at(1_000_000),
        Some(Upgrade::Heartwood)
    );
}

#[test]
fn a_node_that_does_not_start_says_why() {
    assert_eq!(
        startup_failure(NodeEnd::Running).message(),
        "embedded node did not become ready"
    );
    assert_eq!(
        startup_failure(NodeEnd::Ended).message(),
        "embedded node exited before becoming ready"
    );
    let failed = NodeEnd::Failed {
        detail: "embedded node: no".to_string(),
    };
    assert_eq!(startup_failure(failed).message(), "embedded node: no");
}
