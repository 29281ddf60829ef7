//! Payments: what may be asked for, and what a transaction for it may do.
use std::path::PathBuf;

use vstd::prelude::*;
use vstd::string::*;
use zcash_keys::address::Address;
use zcash_protocol::local_consensus::LocalNetwork;
use zip321::{Payment, TransactionRequest};

use crate::config::{joined, path_under, Config, NetworkType};
use crate::error::Error;
use crate::rpc::{SendRequest, SendResult};
use crate::wallet::{identifiers_are_shown_backwards, show_txid, txid_text, Wallet};

verus! {

/// The largest amount of money, in zatoshis.
pub const MAX_MONEY: u64 = 2_100_000_000_000_000;

/// A recipient: whether its address is a unified one and has an Orchard receiver, and the usual
/// spelling of the address.
pub struct Recipient {
    pub unified: bool,
    pub orchard: bool,
    pub address: String,
}

/// A recipient, with its address as text.
pub struct RecipientView {
    pub unified: bool,
    pub orchard: bool,
    pub address: Seq<char>,
}

impl View for Recipient {
    type V = RecipientView;

    open spec fn view(&self) -> RecipientView {
        RecipientView { unified: self.unified, orchard: self.orchard, address: self.address@ }
    }
}

/// The recipient that a text spells on a network of a kind, if it spells one.
pub uninterp spec fn spelled_recipient(kind: NetworkType, text: Seq<char>) -> Option<RecipientView>;

/// Whether a text is the usual spelling of an address: the one that the address is written with.
pub uninterp spec fn is_usual_spelling(address: Seq<char>) -> bool;

/// Calls `zcash_keys::address::Address::decode`, and `encode` on the address. The claim is that
/// the outcome depends on the kind of the network and the text alone, and that `encode` gives
/// the usual spelling.
#[verifier::external_body]
fn decode_recipient(kind: NetworkType, text: &str) -> (recipient: Option<Recipient>)
    ensures
        match recipient {
            Some(recipient) => {
                &&& spelled_recipient(kind, text@) == Some(recipient@)
                &&& is_usual_spelling(recipient.address@)
            },
            None => spelled_recipient(kind, text@) is None,
        },
{
    let main = zcash_protocol::consensus::Network::MainNetwork;
    let local = LocalNetwork { overwinter: None, sapling: None, blossom: None, heartwood: None,
        canopy: None, nu5: None, nu6: None, nu6_1: None, nu6_2: None, nu6_3: None };
    let found = match kind {
        NetworkType::Main => Address::decode(&main, text)?,
        NetworkType::Regtest => Address::decode(&local, text)?,
    };
    let address = match kind {
        NetworkType::Main => found.encode(&main), NetworkType::Regtest => found.encode(&local),
    };
    Some(match found {
        Address::Unified(ua) => Recipient { unified: true, orchard: ua.has_orchard(), address },
        _ => Recipient { unified: false, orchard: false, address },
    })
}

/// A payment that is asked for.
#[verifier::external_type_specification]
#[verifier::external_body]
pub struct ExPayment(Payment);

/// A request for payments.
#[verifier::external_type_specification]
#[verifier::external_body]
pub struct ExTransactionRequest(TransactionRequest);

/// The address of a payment, in its usual spelling, and the amount, if it has these alone.
pub uninterp spec fn payment_terms(payment: Payment) -> Option<(Seq<char>, u64)>;

/// The payments that a request holds, in order.
pub uninterp spec fn payments(request: TransactionRequest) -> Seq<(Seq<char>, u64)>;

/// Calls `zip321::Payment::new`, without a memo, a label or a message. The claim is that it gives
/// the payment of a positive amount to an address. An amount that exceeds the money supply, or a
/// text that is no address, makes the body panic.
#[verifier::external_body]
fn new_payment(address: &str, amount: u64) -> (payment: Result<Payment, String>)
    requires
        is_usual_spelling(address@),
        0 < amount <= MAX_MONEY,
    ensures
        payment matches Ok(payment) && payment_terms(payment) == Some((address@, amount)),
{
    let amount = zcash_protocol::value::Zatoshis::from_u64(amount).unwrap();
    let address = address.parse().unwrap();
    zip321::Payment::new(address, Some(amount), None, None, None, vec![])
        .map_err(|error| error.to_string())
}

/// Calls `zip321::TransactionRequest::new` with one payment. The claim is that it gives the
/// request for that payment alone, since the address and the amount of such a payment are read
/// back as they are written.
#[verifier::external_body]
fn new_request(payment: Payment) -> (request: Result<TransactionRequest, String>)
    requires
        payment_terms(payment) matches Some((address, amount)) && is_usual_spelling(address) && 0
            < amount <= MAX_MONEY,
    ensures
        request matches Ok(request) && payments(request) == seq![payment_terms(payment)->Some_0],
{
    TransactionRequest::new(vec![payment]).map_err(|error| error.to_string())
}

/// Why a recipient cannot be paid, if it cannot.
pub open spec fn recipient_fault(recipient: Option<RecipientView>) -> Option<Error> {
    match recipient {
        None => Some(Error::RecipientInvalid),
        Some(recipient) => if recipient.unified && recipient.orchard {
            None
        } else {
            Some(Error::RecipientWithoutOrchard)
        },
    }
}

/// Why an amount cannot be paid, if it cannot.
pub open spec fn amount_fault(amount: u64) -> Option<Error> {
    if amount > MAX_MONEY {
        Some(Error::AmountTooLarge)
    } else if amount == 0 {
        Some(Error::AmountZero)
    } else {
        None
    }
}

/// Checks a recipient: its address is one of the network, a unified one, and has an Orchard
/// receiver.
pub fn check_recipient(recipient: &Option<Recipient>) -> (checked: Result<(), Error>)
    ensures
        match recipient_fault(
            match *recipient {
                Some(recipient) => Some(recipient@),
                None => None,
            },
        ) {
            Some(error) => checked == Err::<(), Error>(error),
            None => checked is Ok,
        },
{
    match recipient {
        None => Err(Error::RecipientInvalid),
        Some(recipient) => if recipient.unified && recipient.orchard {
            Ok(())
        } else {
            Err(Error::RecipientWithoutOrchard)
        },
    }
}

/// Checks an amount: it is positive and not above the money supply.
pub fn check_amount(amount: u64) -> (checked: Result<(), Error>)
    ensures
        match amount_fault(amount) {
            Some(error) => checked == Err::<(), Error>(error),
            None => checked is Ok,
        },
{
    if amount > MAX_MONEY {
        Err(Error::AmountTooLarge)
    } else if amount == 0 {
        Err(Error::AmountZero)
    } else {
        Ok(())
    }
}

/// A pool that money can be in.
#[derive(Clone, Copy, Debug, PartialEq, Eq, Structural)]
pub enum Pool {
    Transparent,
    Sapling,
    Orchard,
    Ironwood,
}

/// Checks a proposal by the pools that each of its steps pays into: it has one step, which pays
/// into the Ironwood pool alone.
pub fn check_proposal(steps: &Vec<Vec<Pool>>) -> (checked: Result<(), Error>)
    ensures
        if steps@.len() != 1 {
            checked == Err::<(), Error>(Error::MultipleSteps)
        } else if exists|i: int|
            0 <= i < steps@[0]@.len() && #[trigger] steps@[0]@[i] != Pool::Ironwood {
            checked == Err::<(), Error>(Error::NonIronwoodPayment)
        } else {
            checked is Ok
        },
{
    if steps.len() != 1 {
        return Err(Error::MultipleSteps);
    }
    let pools = &steps[0];
    let mut i: usize = 0;
    while i < pools.len()
        invariant
            steps@.len() == 1,
            *pools == steps@[0],
            i <= pools@.len(),
            forall|k: int| 0 <= k < i ==> #[trigger] pools@[k] == Pool::Ironwood,
        decreases pools@.len() - i,
    {
        if pools[i] != Pool::Ironwood {
            assert(steps@[0]@[i as int] != Pool::Ironwood);
            return Err(Error::NonIronwoodPayment);
        }
        i += 1;
    }
    Ok(())
}

impl Wallet {
    /// The request for a payment, where it can be made: the recipient has an Orchard receiver on
    /// the wallet's network, the amount is positive and in range, and the wallet has an account.
    pub fn send(&self, accounts: usize, request: &SendRequest) -> (requested: Result<
        TransactionRequest,
        Error,
    >)
        ensures
            ({
                let kind = self.config.network.kind();
                let recipient = spelled_recipient(kind, request.address@);
                let amount = request.amount_zatoshis;
                match (recipient_fault(recipient), amount_fault(amount)) {
                    (Some(fault), _) => requested matches Err(error) && error == fault,
                    (None, Some(fault)) => requested matches Err(error) && error == fault,
                    (None, None) => if accounts == 0 {
                        requested matches Err(error) && error is NotInitialized
                    } else {
                        requested matches Ok(requested) && payments(requested) == seq![
                            (recipient->Some_0.address, amount),
                        ]
                    },
                }
            }),
    {
        let recipient = decode_recipient(
            self.config.network.network_type(),
            request.address.as_str(),
        );
        match check_recipient(&recipient) {
            Ok(()) => {},
            Err(error) => return Err(error),
        }
        match check_amount(request.amount_zatoshis) {
            Ok(()) => {},
            Err(error) => return Err(error),
        }
        if !Wallet::initialized(accounts) {
            return Err(Error::NotInitialized);
        }
        match recipient {
            None => Err(Error::RecipientInvalid),
            Some(recipient) => match new_payment(
                recipient.address.as_str(),
                request.amount_zatoshis,
            ) {
                Err(detail) => Err(Error::PaymentInvalid { detail }),
                Ok(payment) => match new_request(payment) {
                    Ok(requested) => Ok(requested),
                    Err(detail) => Err(Error::PaymentInvalid { detail }),
                },
            },
        }
    }
}

/// What is told of a payment once its transaction is stored: the transaction is not submitted.
pub fn sent(txid: &[u8; 32]) -> (result: SendResult)
    ensures
        result.txid@ == txid_text(txid@),
        result.submission@ == "mocked"@,
{
    SendResult { txid: show_txid(txid), submission: "mocked".to_owned() }
}

/// The directory that holds the transactions that were not submitted.
pub open spec fn submissions_under(data_dir: PathBuf) -> PathBuf {
    path_under(data_dir, "mock-submissions"@)
}

impl Config {
    /// Where the transactions are that were not submitted.
    pub fn submissions_path(&self) -> (path: PathBuf)
        ensures
            path == submissions_under(self.data_dir),
    {
        self.path("mock-submissions")
    }

    /// Where a transaction is that was not submitted.
    pub fn submission_path(&self, txid: &[u8; 32]) -> (path: PathBuf)
        ensures
            path == path_under(submissions_under(self.data_dir), txid_text(txid@) + ".tx"@),
    {
        joined(&self.submissions_path(), show_txid(txid).concat(".tx").as_str())
    }
}

/// A recipient can be paid where its address is a unified one of the network with an Orchard
/// receiver, and nothing else stands in the way.
pub proof fn recipients_with_orchard_can_be_paid(recipient: Option<RecipientView>)
    ensures
        recipient_fault(recipient) == match recipient {
            None => Some(Error::RecipientInvalid),
            Some(found) => if found.orchard && found.unified {
                None
            } else {
                Some(Error::RecipientWithoutOrchard)
            },
        },
{
}

/// Every amount from one zatoshi to the 21 million coins of a hundred million zatoshis each can be
/// paid, and no other.
pub proof fn amounts_up_to_the_supply_can_be_paid(amount: u64)
    ensures
        amount_fault(amount) is None <==> 1 <= amount <= 21_000_000 * 100_000_000,
        amount == 0 ==> amount_fault(amount) == Some(Error::AmountZero),
        amount > 21_000_000 * 100_000_000 ==> amount_fault(amount) == Some(Error::AmountTooLarge),
{
}

/// The transactions that were not submitted lie in one directory under the data directory, each
/// under the text of its identifier, and those of different identifiers under different names.
pub proof fn submissions_have_their_own_names(first: Seq<u8>, second: Seq<u8>)
    requires
        first.len() == 32,
        second.len() == 32,
        txid_text(first) + ".tx"@ == txid_text(second) + ".tx"@,
    ensures
        first == second,
{
    reveal_strlit("0123456789abcdef");
    assert forall|i: int| 0 <= i < 32 implies #[trigger] first[i] == second[i] by {
        let at = 31 - i;
        identifiers_are_shown_backwards(first, at);
        identifiers_are_shown_backwards(second, at);
        let (a, b) = (txid_text(first) + ".tx"@, txid_text(second) + ".tx"@);
        assert(a[2 * at] == txid_text(first)[2 * at]);
        assert(b[2 * at] == txid_text(second)[2 * at]);
        assert(a[2 * at + 1] == txid_text(first)[2 * at + 1]);
        assert(b[2 * at + 1] == txid_text(second)[2 * at + 1]);
        digits_are_different(first[i] as int / 16, second[i] as int / 16);
        digits_are_different(first[i] as int % 16, second[i] as int % 16);
    }
    assert(first =~= second);
}

proof fn digits_are_different(a: int, b: int)
    requires
        0 <= a < 16,
        0 <= b < 16,
        "0123456789abcdef"@[a] == "0123456789abcdef"@[b],
    ensures
        a == b,
{
    reveal_strlit("0123456789abcdef");
}

} // verus!
