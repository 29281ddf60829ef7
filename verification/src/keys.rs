//! The key that the recovery phrase is encrypted with, and the phrase itself.
use std::io::{Read, Write};

use age::secrecy::ExposeSecret;
use age::x25519::Identity;
use bip0039::{Count, English, Mnemonic};
use vstd::prelude::*;
use zeroize::{Zeroize, Zeroizing};

use crate::error::Error;
use crate::text::{a_solid_text_is_trimmed, is_white, trim, trimmed, word_count};

verus! {

/// A key that texts are encrypted for and decrypted with.
#[verifier::external_type_specification]
#[verifier::external_body]
pub struct ExIdentity(Identity);

/// The spelling in which an identity is stored.
pub uninterp spec fn identity_spelling(identity: Identity) -> Seq<char>;

/// The identity that a text spells, in the spelling in which it is stored, or why it spells none.
pub uninterp spec fn spelled_identity(text: Seq<char>) -> Result<Seq<char>, Seq<char>>;

/// The text that an identity decrypts a ciphertext to, if it does.
pub uninterp spec fn decrypted(identity: Seq<char>, ciphertext: Seq<u8>) -> Option<Seq<char>>;

/// The seed of a recovery phrase, or why a text is none.
pub uninterp spec fn phrase_seed(phrase: Seq<char>) -> Result<Seq<u8>, Seq<char>>;

/// Whether a text is an identity in the spelling in which it is stored: it spells itself, and
/// has no white space.
pub open spec fn is_identity(text: Seq<char>) -> bool {
    &&& spelled_identity(text) == Ok::<Seq<char>, Seq<char>>(text)
    &&& forall|i: int| 0 <= i < text.len() ==> !is_white(#[trigger] text[i])
}

/// Calls `zeroize::Zeroize::zeroize` on a text. The claim is that the text is empty then.
#[verifier::external_body]
pub(crate) fn wipe_text(text: &mut String)
    ensures
        final(text)@ == Seq::<char>::empty(),
{
    text.zeroize()
}

/// Calls `zeroize::Zeroize::zeroize` on bytes. The claim is that there are none then.
#[verifier::external_body]
pub(crate) fn wipe_bytes(bytes: &mut Vec<u8>)
    ensures
        final(bytes)@ == Seq::<u8>::empty(),
{
    bytes.zeroize()
}

/// Calls `age::x25519::Identity::from_str`. The claim is that the identity and what is said of
/// another text depend on the text alone, that the spelling of the identity is made of capitals,
/// digits and hyphens, and that it spells the same identity.
#[verifier::external_body]
fn parse_identity(text: &str) -> (identity: Result<Identity, String>)
    ensures
        match identity {
            Ok(identity) => {
                &&& spelled_identity(text@) == Ok::<Seq<char>, Seq<char>>(
                    identity_spelling(identity),
                )
                &&& is_identity(identity_spelling(identity))
            },
            Err(detail) => spelled_identity(text@) == Err::<Seq<char>, Seq<char>>(detail@),
        },
{
    text.parse::<Identity>().map_err(str::to_string)
}

/// Calls `age::x25519::Identity::generate`. The claim is that its spelling is that of an identity;
/// which one rests on chance.
#[verifier::external_body]
fn generate_identity() -> (identity: Identity)
    ensures
        is_identity(identity_spelling(identity)),
{
    Identity::generate()
}

/// Calls `age::x25519::Identity::to_string`. The claim is that it gives the spelling in which the
/// identity is stored.
#[verifier::external_body]
fn spell_identity(identity: &Identity) -> (text: String)
    ensures
        text@ == identity_spelling(*identity),
{
    identity.to_string().expose_secret().to_string()
}

/// Encrypts with `age::Encryptor::with_recipients`, for the recipient of an identity, and
/// `wrap_output`. The claim is that this succeeds when the output is a vector, and that the
/// identity decrypts the ciphertext to the text; the ciphertext itself rests on chance.
#[verifier::external_body]
fn encrypt_text(identity: &Identity, text: &str) -> (ciphertext: Result<Vec<u8>, String>)
    ensures
        ciphertext matches Ok(ciphertext) && decrypted(identity_spelling(*identity), ciphertext@)
            == Some(text@),
{
    let recipient = identity.to_public();
    let recipients = std::iter::once(&recipient as &dyn age::Recipient);
    let encryptor = age::Encryptor::with_recipients(recipients).map_err(|e| e.to_string())?;
    let mut ciphertext = Vec::new();
    let mut writer = encryptor.wrap_output(&mut ciphertext).map_err(|e| e.to_string())?;
    writer.write_all(text.as_bytes()).map_err(|e| e.to_string())?;
    writer.finish().map_err(|e| e.to_string())?;
    Ok(ciphertext)
}

/// Decrypts with `age::Decryptor::new` and `decrypt`, and reads the plaintext as text. The claim
/// is that the outcome depends on the identity and the ciphertext alone. What is said of a
/// ciphertext that is not decrypted is left open: it is in the language that the process has
/// selected.
#[verifier::external_body]
fn decrypt_text(identity: &Identity, ciphertext: &[u8]) -> (text: Result<String, String>)
    ensures
        match text {
            Ok(text) => decrypted(identity_spelling(*identity), ciphertext@) == Some(
                text@,
            ),
            Err(_) => decrypted(identity_spelling(*identity), ciphertext@) is None,
        },
{
    let decryptor = age::Decryptor::new(ciphertext).map_err(|e| e.to_string())?;
    let identities = std::iter::once(identity as &dyn age::Identity);
    let mut reader = decryptor.decrypt(identities).map_err(|e| e.to_string())?;
    let mut text = Zeroizing::new(String::new());
    reader.read_to_string(&mut text).map_err(|e| e.to_string())?;
    Ok(std::mem::take(&mut text))
}

/// Calls `bip0039::Mnemonic::generate` for twenty-four English words. The claim is that the
/// result is a recovery phrase of that many words; which one rests on chance.
#[verifier::external_body]
fn random_phrase() -> (phrase: String)
    ensures
        phrase_seed(phrase@) is Ok,
        word_count(phrase@) == 24,
{
    Mnemonic::<English>::generate(Count::Words24).phrase().to_owned()
}

/// Calls `bip0039::Mnemonic::from_phrase` for English words, and `to_seed` without a passphrase.
/// The claim is that the outcome depends on the phrase alone, and that a seed has 64 bytes.
#[verifier::external_body]
fn seed_of_phrase(phrase: &str) -> (seed: Result<Vec<u8>, String>)
    ensures
        match seed {
            Ok(seed) => {
                &&& phrase_seed(phrase@) == Ok::<Seq<u8>, Seq<char>>(seed@)
                &&& seed@.len() == 64
            },
            Err(detail) => phrase_seed(phrase@) == Err::<Seq<u8>, Seq<char>>(detail@),
        },
{
    let mnemonic = Mnemonic::<English>::from_phrase(phrase).map_err(|e| e.to_string())?;
    Ok(mnemonic.to_seed("").to_vec())
}

/// What came of reading the identity file.
pub enum IdentityFile {
    /// The file was read.
    Text { text: String },
    /// There is no file.
    Missing,
    /// The file could not be read.
    Unreadable,
}

/// Encrypts and decrypts the recovery phrase.
pub struct KeyStore {
    identity: Identity,
}

impl View for KeyStore {
    type V = Seq<char>;

    closed spec fn view(&self) -> Seq<char> {
        identity_spelling(self.identity)
    }
}

impl KeyStore {
    /// Whether the store has an identity.
    pub open spec fn wf(self) -> bool {
        is_identity(self@)
    }

    /// Opens the store with what was read of the identity file, and wipes that. Where there is no
    /// file and one may be made, an identity is made up, and its text is handed out to be written.
    pub fn open(file: IdentityFile, create: bool) -> (opened: Result<
        (KeyStore, Option<String>),
        Error,
    >)
        ensures
            match file {
                IdentityFile::Text { text } => match spelled_identity(trimmed(text@)) {
                    Ok(identity) => opened matches Ok((store, written)) && store.wf() && store@
                        == identity && written is None,
                    Err(detail) => opened matches Err(Error::IdentityInvalid { detail: told })
                        && told@ == detail,
                },
                IdentityFile::Missing => if create {
                    opened matches Ok((store, Some(written))) && store.wf() && written@ == store@
                } else {
                    opened matches Err(error) && error is IdentityFile
                },
                IdentityFile::Unreadable => opened matches Err(error) && error is IdentityFile,
            },
    {
        match file {
            IdentityFile::Text { text } => {
                let mut text = text;
                let mut spelled = trim(text.as_str());
                let parsed = parse_identity(spelled.as_str());
                wipe_text(&mut spelled);
                wipe_text(&mut text);
                match parsed {
                    Ok(identity) => Ok((KeyStore { identity }, None)),
                    Err(detail) => Err(Error::IdentityInvalid { detail }),
                }
            },
            IdentityFile::Missing => {
                if !create {
                    return Err(Error::IdentityFile);
                }
                let identity = generate_identity();
                let written = spell_identity(&identity);
                Ok((KeyStore { identity }, Some(written)))
            },
            IdentityFile::Unreadable => Err(Error::IdentityFile),
        }
    }

    /// Encrypts a recovery phrase, so that the store decrypts it again.
    pub fn encrypt(&self, mnemonic: &str) -> (ciphertext: Result<Vec<u8>, Error>)
        requires
            self.wf(),
        ensures
            ciphertext matches Ok(ciphertext) && decrypted(self@, ciphertext@) == Some(mnemonic@),
    {
        match encrypt_text(&self.identity, mnemonic) {
            Ok(ciphertext) => Ok(ciphertext),
            Err(detail) => Err(Error::Encryption { detail }),
        }
    }

    /// Decrypts a recovery phrase.
    pub fn decrypt(&self, ciphertext: &[u8]) -> (mnemonic: Result<String, Error>)
        requires
            self.wf(),
        ensures
            match decrypted(self@, ciphertext@) {
                Some(text) => mnemonic matches Ok(mnemonic) && mnemonic@ == text,
                None => mnemonic matches Err(error) && error is Decryption,
            },
    {
        match decrypt_text(&self.identity, ciphertext) {
            Ok(mnemonic) => Ok(mnemonic),
            Err(detail) => Err(Error::Decryption { detail }),
        }
    }
}

/// Makes up a recovery phrase of twenty-four words.
pub fn generate_mnemonic() -> (mnemonic: String)
    ensures
        phrase_seed(mnemonic@) is Ok,
        word_count(mnemonic@) == 24,
{
    random_phrase()
}

/// The seed of a recovery phrase.
pub fn seed(mnemonic: &str) -> (seed: Result<Vec<u8>, Error>)
    ensures
        match phrase_seed(mnemonic@) {
            Ok(known) => seed matches Ok(seed) && seed@ == known && known.len() == 64,
            Err(detail) => seed matches Err(Error::MnemonicInvalid { detail: told }) && told@
                == detail,
        },
{
    match seed_of_phrase(mnemonic) {
        Ok(seed) => Ok(seed),
        Err(detail) => Err(Error::MnemonicInvalid { detail }),
    }
}

/// An identity that was written to its file is the one that the store has when it is opened from
/// that file again, even with white space around it.
pub proof fn a_written_identity_is_opened_again(identity: Seq<char>, text: Seq<char>)
    requires
        is_identity(identity),
        trimmed(text) == identity,
    ensures
        spelled_identity(trimmed(text)) == Ok::<Seq<char>, Seq<char>>(identity),
        trimmed(identity) == identity,
{
    a_solid_text_is_trimmed(identity);
}

} // verus!
