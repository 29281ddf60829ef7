//! What the wallet's RPC methods take and return.
use vstd::prelude::*;

verus! {

/// What the wallet has come to.
#[derive(Clone, Debug)]
pub struct WalletStatus {
    pub initialized: bool,
    pub header_height: Option<u32>,
    pub scanned_height: Option<u32>,
    pub sync_target: Option<u32>,
    pub syncing: bool,
    pub last_error: Option<String>,
}

impl Default for WalletStatus {
    fn default() -> (status: WalletStatus)
        ensures
            status == (WalletStatus {
                initialized: false,
                header_height: None,
                scanned_height: None,
                sync_target: None,
                syncing: false,
                last_error: None,
            }),
    {
        WalletStatus {
            initialized: false,
            header_height: None,
            scanned_height: None,
            sync_target: None,
            syncing: false,
            last_error: None,
        }
    }
}

/// What the wallet holds.
#[derive(Clone, Debug)]
pub struct Balance {
    pub total_zatoshis: u64,
    pub spendable_zatoshis: u64,
}

impl Default for Balance {
    fn default() -> (balance: Balance)
        ensures
            balance == (Balance { total_zatoshis: 0, spendable_zatoshis: 0 }),
    {
        Balance { total_zatoshis: 0, spendable_zatoshis: 0 }
    }
}

/// A wallet to be restored. It cannot be printed: a recovery phrase must not be logged.
pub struct RestoreRequest {
    pub mnemonic: String,
    pub birthday: u32,
}

/// A wallet that was made.
#[derive(Clone)]
pub struct CreatedWallet {
    pub mnemonic: String,
    pub address: String,
    pub birthday: u32,
}

/// A payment to be made.
#[derive(Clone, Debug)]
pub struct SendRequest {
    pub address: String,
    pub amount_zatoshis: u64,
}

/// A payment that was made, and what became of its transaction.
#[derive(Clone, Debug)]
pub struct SendResult {
    pub txid: String,
    pub submission: String,
}

/// A transaction of the wallet.
#[derive(Clone, Debug)]
pub struct TransactionSummary {
    pub txid: String,
    pub mined_height: Option<u32>,
    pub expiry_height: u32,
}

} // verus!
