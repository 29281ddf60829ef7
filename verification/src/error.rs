//! Why an operation of the wallet failed.
use vstd::prelude::*;
use vstd::string::*;

use crate::network::compact::ProviderError;
use crate::text::{decimal, decimal_text};

verus! {

/// A failure of the wallet.
#[derive(Clone, Debug, PartialEq, Eq)]
pub enum Error {
    /// The RPC listener is not on a loopback address.
    NotLoopback,
    /// The sync interval is zero.
    SyncIntervalZero,
    /// The regtest Ironwood activation is below 2.
    RegtestActivation,
    /// The header node refuses the regtest schedule.
    RegtestParameters { detail: String },
    /// The database was made for another network.
    DifferentNetwork,
    /// The identity file could not be read.
    IdentityFile,
    /// The identity file holds no identity.
    IdentityInvalid { detail: String },
    /// The mnemonic could not be encrypted.
    Encryption { detail: String },
    /// The stored mnemonic could not be decrypted.
    Decryption { detail: String },
    /// The phrase is not a recovery phrase.
    MnemonicInvalid { detail: String },
    /// The wallet has an account already.
    AlreadyInitialized,
    /// The network has no Ironwood activation.
    IronwoodNotConfigured,
    /// The birthday precedes Ironwood activation.
    BirthdayBeforeActivation,
    /// No address can be derived from the seed.
    AddressDerivation { detail: String },
    /// A balance does not fit its type.
    BalanceOverflow,
    /// A stored transaction identifier is not 32 bytes long.
    TransactionRow,
    /// The recipient is not an address of the network.
    RecipientInvalid,
    /// The recipient has no Orchard receiver.
    RecipientWithoutOrchard,
    /// The amount exceeds the money supply.
    AmountTooLarge,
    /// The amount is zero.
    AmountZero,
    /// The wallet has no account.
    NotInitialized,
    /// The payment cannot be requested.
    PaymentInvalid { detail: String },
    /// The proposal has other than one step.
    MultipleSteps,
    /// The proposal pays into another pool.
    NonIronwoodPayment,
    /// The response limit is out of range.
    ResponseLimit,
    /// The encoded request is too large.
    RequestTooLarge,
    /// A unary request got other than one response.
    ResponseCount,
    /// The message kind is no request.
    RequestKind,
    /// A stream terminator carries a payload.
    StreamTerminator,
    /// A response of another kind arrived.
    ResponseKind { kind: String },
    /// The size of the responses does not fit its type.
    ResponseSizeOverflow,
    /// More was sent than was asked for.
    ResponseBounds,
    /// The header node's network has no Ironwood activation.
    IronwoodNotActivated,
    /// A height below the Ironwood boundary was asked for.
    BirthdayBeforeIronwood,
    /// The selected header chain changed meanwhile.
    BranchChanged,
    /// An inactive pool has a root other than the empty one.
    IronwoodRootNotEmpty { detail: String },
    /// An inactive pool has transactions.
    IronwoodCountNotZero { detail: String },
    /// A successor header does not commit to the history.
    CommitmentRejected { height: u32, detail: String },
    /// A block cannot extend the history.
    HistoryRejected { detail: String },
    /// The height of a tree state does not fit its type.
    TreeHeight,
    /// A tree state cannot be parsed.
    TreeStateInvalid { detail: String },
    /// A tree state is of another block.
    TreeStateHash,
    /// A Sapling frontier has another root.
    SaplingFrontier,
    /// An Orchard frontier has another root.
    OrchardFrontier,
    /// An Ironwood frontier has another root.
    IronwoodFrontier,
    /// There is no header snapshot yet.
    HeaderNodeStarting,
    /// A number does not fit its type.
    IntegerConversion,
    /// The provider sent another tree state.
    TreeStateHeight,
    /// The provider sent another number of blocks.
    IncompleteRange,
    /// A compact block has a malformed identity.
    BlockIdentity,
    /// A compact block is not the selected one.
    BlockNotSelected,
    /// A compact transaction has a malformed identifier.
    TransactionIdentity,
    /// A note commitment is no field element.
    CommitmentInvalid,
    /// A note commitment does not have 32 bytes.
    CommitmentLength,
    /// The Sapling tree has no room.
    SaplingFull,
    /// The Orchard tree has no room.
    OrchardFull,
    /// The Ironwood tree has no room.
    IronwoodFull,
    /// The Sapling commitments give another root.
    SaplingCommitments,
    /// The Orchard commitments give another root.
    OrchardCommitments,
    /// The Ironwood commitments give another root.
    IronwoodCommitments,
    /// The chain source is behind the wallet.
    SourceBehind,
    /// No common ancestor was found.
    ReorgAtGenesis,
    /// The genesis block cannot be scanned.
    ScanGenesis,
    /// The wallet knows no chain height.
    ChainHeightUnknown,
    /// A transaction cannot be parsed.
    TransactionInvalid { detail: String },
    /// The provider sent another transaction.
    TransactionMismatch,
    /// The birthday is zero.
    BirthdayZero,
    /// A response cannot be decoded.
    ResponseInvalid { detail: String },
    /// The header node did not become ready in time.
    NodeNotReady,
    /// The header node ended before it was ready.
    NodeExited,
    /// The header node failed before it was ready.
    NodeFailed { detail: String },
    /// The header node has ended.
    NodeStopped,
    /// The provider answered with an error status.
    Provider { status: ProviderError },
}

impl Error {
    /// The text that is shown for the failure.
    pub open spec fn text(self) -> Seq<char> {
        match self {
            Error::NotLoopback => "veil RPC must bind loopback"@,
            Error::SyncIntervalZero => "sync interval must be positive"@,
            Error::RegtestActivation => "regtest Ironwood activation must be at least 2"@,
            Error::RegtestParameters { detail } => "invalid regtest parameters: "@ + detail@,
            Error::DifferentNetwork => {
                "wallet belongs to a different network or activation schedule"@
            },
            Error::IdentityFile => "read wallet encryption identity"@,
            Error::IdentityInvalid { detail } => detail@,
            Error::Encryption { detail } => detail@,
            Error::Decryption { detail } => detail@,
            Error::MnemonicInvalid { detail } => detail@,
            Error::AlreadyInitialized => {
                "wallet already initialized; restore into a new data directory"@
            },
            Error::IronwoodNotConfigured => "Ironwood is not configured"@,
            Error::BirthdayBeforeActivation => "birthday must be at or after Ironwood activation"@,
            Error::AddressDerivation { detail } => detail@,
            Error::BalanceOverflow => "balance overflow"@,
            Error::TransactionRow => "Query is not read-only"@,
            Error::RecipientInvalid => "invalid address for this network"@,
            Error::RecipientWithoutOrchard => {
                "recipient must have an Orchard receiver for Ironwood"@
            },
            Error::AmountTooLarge => {
                "ZatBalance addition resulted in a value outside the valid range."@
            },
            Error::AmountZero => "amount must be positive"@,
            Error::NotInitialized => "wallet is not initialized"@,
            Error::PaymentInvalid { detail } => detail@,
            Error::MultipleSteps => "veil supports single-step transfers"@,
            Error::NonIronwoodPayment => "proposal contains a non-Ironwood payment"@,
            Error::ResponseLimit => "response limit must be 1..=1000"@,
            Error::RequestTooLarge => "request exceeds protocol limit"@,
            Error::ResponseCount => "expected one ztreamer response"@,
            Error::RequestKind => "invalid request kind"@,
            Error::StreamTerminator => "invalid stream terminator"@,
            Error::ResponseKind { kind } => "unexpected ztreamer response "@ + kind@,
            Error::ResponseSizeOverflow => "response size overflow"@,
            Error::ResponseBounds => "ztreamer response exceeds requested bounds"@,
            Error::IronwoodNotActivated => "Ironwood is not activated on this network"@,
            Error::BirthdayBeforeIronwood => "wallet birthday precedes Ironwood"@,
            Error::BranchChanged => "selected header branch changed; retry sync"@,
            Error::IronwoodRootNotEmpty { detail } => detail@,
            Error::IronwoodCountNotZero { detail } => detail@,
            Error::CommitmentRejected { height, detail } => {
                "header commitment verification failed at "@ + decimal_text(height as nat)
                    + ": "@ + detail@
            },
            Error::HistoryRejected { detail } => detail@,
            Error::TreeHeight => "tree height exceeds u32"@,
            Error::TreeStateInvalid { detail } => detail@,
            Error::TreeStateHash => "tree-state hash differs from the selected header"@,
            Error::SaplingFrontier => "Sapling frontier does not match authenticated root"@,
            Error::OrchardFrontier => "Orchard frontier does not match authenticated root"@,
            Error::IronwoodFrontier => "Ironwood frontier does not match authenticated root"@,
            Error::HeaderNodeStarting => "header node is starting"@,
            Error::IntegerConversion => "out of range integral type conversion attempted"@,
            Error::TreeStateHeight => "provider returned the wrong tree height"@,
            Error::IncompleteRange => "provider returned an incomplete block range"@,
            Error::BlockIdentity => "invalid compact block identity"@,
            Error::BlockNotSelected => "compact block is not on the selected header chain"@,
            Error::TransactionIdentity => "invalid compact transaction ID"@,
            Error::CommitmentInvalid => "invalid commitment: InvalidValue"@,
            Error::CommitmentLength => "invalid commitment: InvalidLength(TryFromSliceError(()))"@,
            Error::SaplingFull => "Sapling tree is full"@,
            Error::OrchardFull => "Orchard tree is full"@,
            Error::IronwoodFull => "Ironwood tree is full"@,
            Error::SaplingCommitments => "compact Sapling commitments do not match the header"@,
            Error::OrchardCommitments => "compact Orchard commitments do not match the header"@,
            Error::IronwoodCommitments => "compact Ironwood commitments do not match the header"@,
            Error::SourceBehind => "waiting for the chain source to catch up"@,
            Error::ReorgAtGenesis => "reorg reached genesis"@,
            Error::ScanGenesis => "cannot scan genesis"@,
            Error::ChainHeightUnknown => "chain height is unknown"@,
            Error::TransactionInvalid { detail } => detail@,
            Error::TransactionMismatch => "provider returned the wrong transaction"@,
            Error::BirthdayZero => "birthday must be positive"@,
            Error::ResponseInvalid { detail } => detail@,
            Error::NodeNotReady => "embedded node did not become ready"@,
            Error::NodeExited => "embedded node exited before becoming ready"@,
            Error::NodeFailed { detail } => detail@,
            Error::NodeStopped => "embedded header node stopped"@,
            Error::Provider { status } => status.text(),
        }
    }

    /// The text that is shown for the failure.
    pub fn message(&self) -> (message: String)
        ensures
            message@ == self.text(),
    {
        match self {
            Error::NotLoopback => "veil RPC must bind loopback".to_owned(),
            Error::SyncIntervalZero => "sync interval must be positive".to_owned(),
            Error::RegtestActivation => "regtest Ironwood activation must be at least 2".to_owned(),
            Error::RegtestParameters { detail } => {
                "invalid regtest parameters: ".to_owned().concat(detail.as_str())
            },
            Error::DifferentNetwork => {
                "wallet belongs to a different network or activation schedule".to_owned()
            },
            Error::IdentityFile => "read wallet encryption identity".to_owned(),
            Error::IdentityInvalid { detail } => detail.clone(),
            Error::Encryption { detail } => detail.clone(),
            Error::Decryption { detail } => detail.clone(),
            Error::MnemonicInvalid { detail } => detail.clone(),
            Error::AlreadyInitialized => {
                "wallet already initialized; restore into a new data directory".to_owned()
            },
            Error::IronwoodNotConfigured => "Ironwood is not configured".to_owned(),
            Error::BirthdayBeforeActivation => {
                "birthday must be at or after Ironwood activation".to_owned()
            },
            Error::AddressDerivation { detail } => detail.clone(),
            Error::BalanceOverflow => "balance overflow".to_owned(),
            Error::TransactionRow => "Query is not read-only".to_owned(),
            Error::RecipientInvalid => "invalid address for this network".to_owned(),
            Error::RecipientWithoutOrchard => {
                "recipient must have an Orchard receiver for Ironwood".to_owned()
            },
            Error::AmountTooLarge => {
                "ZatBalance addition resulted in a value outside the valid range.".to_owned()
            },
            Error::AmountZero => "amount must be positive".to_owned(),
            Error::NotInitialized => "wallet is not initialized".to_owned(),
            Error::PaymentInvalid { detail } => detail.clone(),
            Error::MultipleSteps => "veil supports single-step transfers".to_owned(),
            Error::NonIronwoodPayment => "proposal contains a non-Ironwood payment".to_owned(),
            Error::ResponseLimit => "response limit must be 1..=1000".to_owned(),
            Error::RequestTooLarge => "request exceeds protocol limit".to_owned(),
            Error::ResponseCount => "expected one ztreamer response".to_owned(),
            Error::RequestKind => "invalid request kind".to_owned(),
            Error::StreamTerminator => "invalid stream terminator".to_owned(),
            Error::ResponseKind { kind } => {
                "unexpected ztreamer response ".to_owned().concat(kind.as_str())
            },
            Error::ResponseSizeOverflow => "response size overflow".to_owned(),
            Error::ResponseBounds => "ztreamer response exceeds requested bounds".to_owned(),
            Error::IronwoodNotActivated => "Ironwood is not activated on this network".to_owned(),
            Error::BirthdayBeforeIronwood => "wallet birthday precedes Ironwood".to_owned(),
            Error::BranchChanged => "selected header branch changed; retry sync".to_owned(),
            Error::IronwoodRootNotEmpty { detail } => detail.clone(),
            Error::IronwoodCountNotZero { detail } => detail.clone(),
            Error::CommitmentRejected { height, detail } => {
                "header commitment verification failed at ".to_owned()
                    .concat(decimal(*height as u64).as_str()).concat(": ").concat(detail.as_str())
            },
            Error::HistoryRejected { detail } => detail.clone(),
            Error::TreeHeight => "tree height exceeds u32".to_owned(),
            Error::TreeStateInvalid { detail } => detail.clone(),
            Error::TreeStateHash => "tree-state hash differs from the selected header".to_owned(),
            Error::SaplingFrontier => {
                "Sapling frontier does not match authenticated root".to_owned()
            },
            Error::OrchardFrontier => {
                "Orchard frontier does not match authenticated root".to_owned()
            },
            Error::IronwoodFrontier => {
                "Ironwood frontier does not match authenticated root".to_owned()
            },
            Error::HeaderNodeStarting => "header node is starting".to_owned(),
            Error::IntegerConversion => {
                "out of range integral type conversion attempted".to_owned()
            },
            Error::TreeStateHeight => "provider returned the wrong tree height".to_owned(),
            Error::IncompleteRange => "provider returned an incomplete block range".to_owned(),
            Error::BlockIdentity => "invalid compact block identity".to_owned(),
            Error::BlockNotSelected => {
                "compact block is not on the selected header chain".to_owned()
            },
            Error::TransactionIdentity => "invalid compact transaction ID".to_owned(),
            Error::CommitmentInvalid => "invalid commitment: InvalidValue".to_owned(),
            Error::CommitmentLength => {
                "invalid commitment: InvalidLength(TryFromSliceError(()))".to_owned()
            },
            Error::SaplingFull => "Sapling tree is full".to_owned(),
            Error::OrchardFull => "Orchard tree is full".to_owned(),
            Error::IronwoodFull => "Ironwood tree is full".to_owned(),
            Error::SaplingCommitments => {
                "compact Sapling commitments do not match the header".to_owned()
            },
            Error::OrchardCommitments => {
                "compact Orchard commitments do not match the header".to_owned()
            },
            Error::IronwoodCommitments => {
                "compact Ironwood commitments do not match the header".to_owned()
            },
            Error::SourceBehind => "waiting for the chain source to catch up".to_owned(),
            Error::ReorgAtGenesis => "reorg reached genesis".to_owned(),
            Error::ScanGenesis => "cannot scan genesis".to_owned(),
            Error::ChainHeightUnknown => "chain height is unknown".to_owned(),
            Error::TransactionInvalid { detail } => detail.clone(),
            Error::TransactionMismatch => "provider returned the wrong transaction".to_owned(),
            Error::BirthdayZero => "birthday must be positive".to_owned(),
            Error::ResponseInvalid { detail } => detail.clone(),
            Error::NodeNotReady => "embedded node did not become ready".to_owned(),
            Error::NodeExited => "embedded node exited before becoming ready".to_owned(),
            Error::NodeFailed { detail } => detail.clone(),
            Error::NodeStopped => "embedded header node stopped".to_owned(),
            Error::Provider { status } => status.message(),
        }
    }
}

} // verus!
