//! Which network a wallet database belongs to.
use vstd::prelude::*;
use vstd::string::*;

use crate::config::WalletNetwork;
use crate::error::Error;
use crate::text::{
    decimal, decimal_text, decimal_text_is_injective, decimal_texts_spell_their_numbers,
    spelled_number,
};

verus! {

/// The text by which a database says which network it belongs to.
pub open spec fn identity_text(network: WalletNetwork) -> Seq<char> {
    match network {
        WalletNetwork::Mainnet => "{\"kind\":\"mainnet\"}"@,
        WalletNetwork::Regtest { ironwood_activation } => {
            "{\"kind\":\"regtest\",\"ironwood_activation\":"@ + decimal_text(
                ironwood_activation as nat,
            ) + "}"@
        },
    }
}

/// Writes the text by which a database says which network it belongs to.
pub fn network_text(network: WalletNetwork) -> (text: String)
    ensures
        text@ == identity_text(network),
{
    match network {
        WalletNetwork::Mainnet => "{\"kind\":\"mainnet\"}".to_owned(),
        WalletNetwork::Regtest { ironwood_activation } => {
            "{\"kind\":\"regtest\",\"ironwood_activation\":".to_owned().concat(
                decimal(ironwood_activation as u64).as_str(),
            ).concat("}")
        },
    }
}

/// Checks the text that a database holds, if it holds one, against the network that it is opened
/// for.
pub fn open(saved: Option<String>, network: WalletNetwork) -> (checked: Result<(), Error>)
    ensures
        if saved matches Some(saved) && saved@ != identity_text(network) {
            checked == Err::<(), Error>(Error::DifferentNetwork)
        } else {
            checked is Ok
        },
{
    match saved {
        None => Ok(()),
        Some(saved) => if saved == network_text(network) {
            Ok(())
        } else {
            Err(Error::DifferentNetwork)
        },
    }
}

/// Different networks, and different activation heights, have different texts: a database opens
/// only for the network that it was made for.
pub proof fn a_database_belongs_to_one_network(a: WalletNetwork, b: WalletNetwork)
    requires
        identity_text(a) == identity_text(b),
    ensures
        a == b,
{
    let main = "{\"kind\":\"mainnet\"}"@;
    let head = "{\"kind\":\"regtest\",\"ironwood_activation\":"@;
    reveal_strlit("{\"kind\":\"mainnet\"}");
    reveal_strlit("{\"kind\":\"regtest\",\"ironwood_activation\":");
    reveal_strlit("}");
    assert(main[9] == 'm');
    assert(head[9] == 'r');
    match (a, b) {
        (
            WalletNetwork::Regtest { ironwood_activation: x },
            WalletNetwork::Regtest { ironwood_activation: y },
        ) => {
            let p = decimal_text(x as nat);
            let q = decimal_text(y as nat);
            assert(identity_text(a).len() == head.len() + p.len() + 1);
            assert(identity_text(b).len() == head.len() + q.len() + 1);
            let start = head.len() as int;
            assert(identity_text(a).subrange(start, start + p.len()) =~= p);
            assert(identity_text(b).subrange(start, start + q.len()) =~= q);
            decimal_text_is_injective(x as nat, y as nat);
        },
        (WalletNetwork::Regtest { .. }, WalletNetwork::Mainnet) => {
            assert(identity_text(a)[9] == head[9]);
        },
        (WalletNetwork::Mainnet, WalletNetwork::Regtest { .. }) => {
            assert(identity_text(b)[9] == head[9]);
        },
        _ => {},
    }
}

/// The text of a network says its kind, and on a regression test network the height of the Ironwood
/// activation in decimal.
pub proof fn networks_are_spelled_out(activation: u32)
    ensures
        ({
            let regtest = WalletNetwork::Regtest { ironwood_activation: activation };
            let digits = decimal_text(activation as nat);
            &&& identity_text(WalletNetwork::Mainnet) == "{\"kind\":\"mainnet\"}"@
            &&& identity_text(regtest) == "{\"kind\":\"regtest\",\"ironwood_activation\":"@ + digits
                + "}"@
            &&& spelled_number(digits) == activation
        }),
{
    decimal_texts_spell_their_numbers(activation as nat);
}

} // verus!
