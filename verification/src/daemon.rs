//! What the wallet daemon decides between its calls.
use std::path::PathBuf;

use uuid::Uuid;
use vstd::prelude::*;
use vstd::string::*;

use crate::config::{path_under, Config};
use crate::error::Error;
use crate::rpc::{CreatedWallet, RestoreRequest, WalletStatus};
use crate::text::{
    hex_text, hex_text_has_two_digits_a_byte, hex_text_is_lower_hex, is_lower_hex,
};

verus! {

/// Whether a synchronisation is under way, and why the last one failed, if it did.
pub struct Progress {
    pub syncing: bool,
    pub last_error: Option<String>,
}

impl Progress {
    /// Before the first synchronisation.
    pub fn new() -> (progress: Progress)
        ensures
            progress == (Progress { syncing: false, last_error: None }),
    {
        Progress { syncing: false, last_error: None }
    }

    /// A synchronisation has begun.
    pub fn started() -> (progress: Progress)
        ensures
            progress == (Progress { syncing: true, last_error: None }),
    {
        Progress { syncing: true, last_error: None }
    }

    /// A synchronisation has ended, with an error or without one.
    pub fn finished(error: Option<String>) -> (progress: Progress)
        ensures
            progress == (Progress { syncing: false, last_error: error }),
    {
        Progress { syncing: false, last_error: error }
    }
}

/// An error as a caller of the daemon sees it.
pub struct RpcError {
    pub code: i32,
    pub message: String,
}

/// Reports an error to a caller of the daemon.
pub fn rpc_error(message: String) -> (error: RpcError)
    ensures
        error.code == -32000,
        error.message == message,
{
    RpcError { code: -32000, message }
}

/// The block whose trees a wallet with a birthday is restored with, or why there is none.
pub open spec fn block_before(birthday: u32) -> Result<u32, Error> {
    if birthday == 0 {
        Err(Error::BirthdayZero)
    } else {
        Ok((birthday - 1) as u32)
    }
}

/// The daemon's methods.
pub struct Rpc;

impl Rpc {
    /// What the wallet has come to: what its database knows, with the progress of the
    /// synchronisation and the height of the best header.
    pub fn status(wallet: WalletStatus, progress: Progress, header_height: Option<u32>) -> (status:
        WalletStatus)
        ensures
            status == (WalletStatus {
                syncing: progress.syncing,
                last_error: progress.last_error,
                header_height,
                ..wallet
            }),
    {
        let mut status = wallet;
        status.syncing = progress.syncing;
        status.last_error = progress.last_error;
        status.header_height = header_height;
        status
    }

    /// A wallet that was made with the trees as of a block: its birthday is the next block.
    pub fn create(mnemonic: String, address: String, height: u32) -> (created: CreatedWallet)
        requires
            height < u32::MAX,
        ensures
            created == (CreatedWallet { mnemonic, address, birthday: (height + 1) as u32 }),
    {
        CreatedWallet { mnemonic, address, birthday: height + 1 }
    }

    /// The block whose trees a wallet is to be restored with: the one before its birthday.
    pub fn restore(request: &RestoreRequest) -> (height: Result<u32, Error>)
        ensures
            height == block_before(request.birthday),
    {
        match request.birthday.checked_sub(1) {
            Some(height) => Ok(height),
            None => Err(Error::BirthdayZero),
        }
    }
}

/// Restoring a wallet with the birthday that it was made with takes the trees as of the block
/// that it was made with.
pub proof fn a_wallet_is_restored_from_its_own_block(height: u32)
    requires
        height < u32::MAX,
    ensures
        block_before((height + 1) as u32) == Ok::<u32, Error>(height),
{
}

/// The status of an answer to a caller that does not know the cookie.
pub const UNAUTHORIZED: u16 = 401;

/// Whether bytes are those of a random identifier: of version 4, and of the usual variant.
pub open spec fn is_random_id(id: Seq<u8>) -> bool {
    &&& id.len() == 16
    &&& id[6] / 16 == 4
    &&& id[8] / 64 == 2
}

/// An identifier in hexadecimal, in groups of eight, four, four, four and twelve digits.
pub open spec fn hyphenated(id: Seq<u8>) -> Seq<char> {
    let digits = hex_text(id);
    digits.subrange(0, 8) + "-"@ + digits.subrange(8, 12) + "-"@ + digits.subrange(12, 16) + "-"@
        + digits.subrange(16, 20) + "-"@ + digits.subrange(20, 32)
}

/// Calls `uuid::Uuid::new_v4`. The claim is that the bytes are those of a random identifier; which
/// one rests on chance.
#[verifier::external_body]
fn random_id() -> (id: [u8; 16])
    ensures
        is_random_id(id@),
{
    Uuid::new_v4().into_bytes()
}

/// Shows an identifier through `uuid::Uuid::simple`. The claim is that the text is that of its
/// bytes in lowercase hexadecimal.
#[verifier::external_body]
fn show_simple(id: &[u8; 16]) -> (text: String)
    ensures
        text@ == hex_text(id@),
{
    Uuid::from_bytes(*id).simple().to_string()
}

/// Shows an identifier through `uuid::Uuid::hyphenated`. The claim is that the text is that of its
/// bytes in lowercase hexadecimal, with a hyphen between the groups of digits.
#[verifier::external_body]
fn show_hyphenated(id: &[u8; 16]) -> (text: String)
    ensures
        text@ == hyphenated(id@),
{
    Uuid::from_bytes(*id).hyphenated().to_string()
}

/// Whether a text can be a cookie: it has 64 lowercase hexadecimal digits.
pub open spec fn is_cookie(token: Seq<char>) -> bool {
    token.len() == 64 && is_lower_hex(token)
}

/// The cookie that two identifiers make.
pub open spec fn cookie_of(first: Seq<u8>, second: Seq<u8>) -> Seq<char> {
    hex_text(first) + hex_text(second)
}

/// Two identifiers, whichever they are, make a cookie of 64 lowercase hexadecimal digits.
pub proof fn cookies_are_hexadecimal(first: Seq<u8>, second: Seq<u8>)
    requires
        first.len() == 16,
        second.len() == 16,
    ensures
        is_cookie(cookie_of(first, second)),
{
    hex_text_is_lower_hex(first);
    hex_text_is_lower_hex(second);
}

/// The cookie of the daemon, from two identifiers.
pub fn cookie(first: &[u8; 16], second: &[u8; 16]) -> (token: String)
    ensures
        token@ == cookie_of(first@, second@),
        is_cookie(token@),
{
    proof {
        cookies_are_hexadecimal(first@, second@);
    }
    show_simple(first).concat(show_simple(second).as_str())
}

/// A new cookie, from two random identifiers.
pub fn new_cookie() -> (token: String)
    ensures
        is_cookie(token@),
        exists|first: Seq<u8>, second: Seq<u8>|
            is_random_id(first) && is_random_id(second) && token@ == #[trigger] cookie_of(
                first,
                second,
            ),
{
    cookie(&random_id(), &random_id())
}

/// The name under which a cookie is written before it gets its own.
pub open spec fn cookie_temp_name(id: Seq<u8>) -> Seq<char> {
    "rpc-cookie-"@ + hyphenated(id) + ".tmp"@
}

impl Config {
    /// Where the cookie is written before it gets its name.
    pub fn cookie_temp_path(&self, id: &[u8; 16]) -> (path: PathBuf)
        ensures
            path == path_under(self.data_dir, cookie_temp_name(id@)),
    {
        let id = show_hyphenated(id);
        self.path("rpc-cookie-".to_owned().concat(id.as_str()).concat(".tmp").as_str())
    }

    /// A new place to write the cookie to, by a random identifier.
    pub fn new_cookie_temp_path(&self) -> (path: PathBuf)
        ensures
            exists|id: Seq<u8>|
                is_random_id(id) && path == path_under(
                    self.data_dir,
                    #[trigger] cookie_temp_name(id),
                ),
    {
        self.cookie_temp_path(&random_id())
    }
}

/// The header by which a caller shows that it knows a cookie.
pub open spec fn bearer(token: Seq<char>) -> Seq<char> {
    "Bearer "@ + token
}

/// Lets only callers through that know the cookie.
pub struct CookieAuth {
    auth: String,
}

impl View for CookieAuth {
    type V = Seq<char>;

    closed spec fn view(&self) -> Seq<char> {
        self.auth@
    }
}

impl CookieAuth {
    /// Asks for a cookie.
    pub fn new(token: &str) -> (auth: CookieAuth)
        ensures
            auth@ == bearer(token@),
    {
        CookieAuth { auth: "Bearer ".to_owned().concat(token) }
    }

    /// The header by which a caller shows that it knows the cookie.
    pub fn header(&self) -> (header: String)
        ensures
            header@ == self@,
    {
        self.auth.clone()
    }

    /// Whether a caller with this header is let through.
    pub fn call(&self, header: Option<String>) -> (allowed: bool)
        ensures
            allowed == (header matches Some(header) && header@ == self@),
    {
        match header {
            None => false,
            Some(header) => header == self.auth,
        }
    }
}

/// What happens to the running daemon.
pub enum ServeEvent {
    /// The daemon is asked to stop.
    Interrupted,
    /// The RPC listener has ended.
    ListenerStopped,
    /// It is time for a synchronisation.
    Tick { node_finished: bool },
    /// A synchronisation has ended, well or not.
    Synced,
}

/// What the running daemon does next.
pub enum ServeAction {
    Wait,
    Sync,
    Stop { result: Result<(), Error> },
}

/// Decides what the running daemon does next. A failed synchronisation does not end it; a header
/// node that has ended does.
pub fn serve(event: ServeEvent) -> (action: ServeAction)
    ensures
        match event {
            ServeEvent::Interrupted => action == (ServeAction::Stop { result: Ok(()) }),
            ServeEvent::ListenerStopped => action == (ServeAction::Stop { result: Ok(()) }),
            ServeEvent::Tick { node_finished } => if node_finished {
                action == (ServeAction::Stop { result: Err(Error::NodeStopped) })
            } else {
                action is Sync
            },
            ServeEvent::Synced => action is Wait,
        },
{
    match event {
        ServeEvent::Interrupted => ServeAction::Stop { result: Ok(()) },
        ServeEvent::ListenerStopped => ServeAction::Stop { result: Ok(()) },
        ServeEvent::Tick { node_finished } => if node_finished {
            ServeAction::Stop { result: Err(Error::NodeStopped) }
        } else {
            ServeAction::Sync
        },
        ServeEvent::Synced => ServeAction::Wait,
    }
}

/// How the daemon ended: a header node that could not be stopped is reported first.
pub fn run<E>(stopped: Result<(), E>, served: Result<(), E>) -> (ended: Result<(), E>)
    ensures
        ended == (if stopped is Err {
            stopped
        } else {
            served
        }),
{
    match stopped {
        Err(error) => Err(error),
        Ok(()) => served,
    }
}

/// A restored wallet takes the trees as of the block before its birthday. There is no such block
/// for genesis alone.
pub proof fn restored_wallets_start_before_their_birthday(birthday: u32)
    ensures
        birthday == 0 ==> block_before(birthday) == Err::<u32, Error>(Error::BirthdayZero),
        birthday > 0 ==> (block_before(birthday) matches Ok(height) && height + 1 == birthday),
{
}

/// Callers with the header of one cookie are not let through for another.
pub proof fn cookies_are_told_apart(first: Seq<char>, second: Seq<char>)
    ensures
        bearer(first) == "Bearer "@ + first,
        bearer(first) == bearer(second) ==> first == second,
{
    reveal_strlit("Bearer ");
    if bearer(first) == bearer(second) {
        assert(bearer(first).skip(7) =~= first);
        assert(bearer(second).skip(7) =~= second);
    }
}

/// The digits of a cookie are those of the bytes of its two identifiers, in their order, so that
/// different identifiers make different cookies.
pub proof fn cookies_hold_their_identifiers(first: Seq<u8>, second: Seq<u8>, i: int)
    requires
        first.len() == 16,
        second.len() == 16,
        0 <= i < 16,
    ensures
        cookie_of(first, second).len() == 64,
        cookie_of(first, second)[2 * i] == "0123456789abcdef"@[first[i] as int / 16],
        cookie_of(first, second)[2 * i + 1] == "0123456789abcdef"@[first[i] as int % 16],
        cookie_of(first, second)[32 + 2 * i] == "0123456789abcdef"@[second[i] as int / 16],
        cookie_of(first, second)[32 + 2 * i + 1] == "0123456789abcdef"@[second[i] as int % 16],
{
    hex_text_has_two_digits_a_byte(first, i);
    hex_text_has_two_digits_a_byte(second, i);
}

} // verus!
