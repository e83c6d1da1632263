//! The signing secret: how the encrypted seed phrase is opened, and with
//! which settings a wallet is derived from it for each chain.

use crate::config::Chain;
use orion::errors::UnknownCryptoError;
use std::string::FromUtf8Error;
use vstd::prelude::*;
use vstd::utf8::{decode_utf8, valid_utf8};

verus! {

/// The error of every function of orion. It says nothing of the cause.
#[verifier::external_type_specification]
#[verifier::external_body]
pub struct ExUnknownCryptoError(UnknownCryptoError);

/// The error of `String::from_utf8`.
#[verifier::external_type_specification]
#[verifier::external_body]
pub struct ExFromUtf8Error(FromUtf8Error);

/// The key that Argon2i derives, as `orion::kdf::derive_key` computes it
/// from the bytes of a password and of a salt, the two cost parameters and
/// the length asked for; `None` where orion refuses the inputs.
pub uninterp spec fn argon2i_key(
    password: Seq<u8>,
    salt: Seq<u8>,
    iterations: u32,
    memory: u32,
    length: u32,
) -> Option<Seq<u8>>;

/// The plaintext that `orion::aead::open` recovers with a key from a
/// sealed message (nonce, ciphertext and tag); `None` where the message
/// does not authenticate under the key or orion refuses the inputs.
pub uninterp spec fn aead_opened(key: Seq<u8>, sealed: Seq<u8>) -> Option<Seq<u8>>;

/// `orion::kdf::derive_key`, from bytes to bytes: the password and the
/// salt are handed over as orion's `Password` and `Salt`, and the derived
/// `SecretKey` comes back as its bytes.
///
/// Believed, not proved: the outcome is a function of the arguments alone
/// (Argon2i draws on nothing else); an empty password is refused; a key
/// that is returned has the length asked for. The memory and the length
/// are bounded, as orion allocates both.
#[verifier::external_body]
fn derive_key(password: &[u8], salt: &[u8], iterations: u32, memory: u32, length: u32) -> (r:
    Result<Vec<u8>, UnknownCryptoError>)
    requires
        memory <= KDF_MEMORY,
        length <= KEY_LENGTH,
    ensures
        match r {
            Ok(key) => argon2i_key(password@, salt@, iterations, memory, length) == Some(key@),
            Err(_) => argon2i_key(password@, salt@, iterations, memory, length) is None,
        },
        password@.len() == 0 ==> r is Err,
        r matches Ok(key) ==> key@.len() == length,
{
    let password = orion::kdf::Password::from_slice(password)?;
    let salt = orion::kdf::Salt::from_slice(salt)?;
    let key = orion::kdf::derive_key(&password, &salt, iterations, memory, length)?;
    Ok(key.unprotected_as_bytes().to_vec())
}

/// `orion::aead::open`, from bytes to bytes: the key is handed over as
/// orion's `SecretKey`.
///
/// Believed, not proved: the outcome is a function of the arguments alone;
/// a message of 40 bytes or fewer (a nonce of 24, a tag of 16, and nothing
/// between) is refused; a plaintext that is returned is 40 bytes shorter
/// than the message.
#[verifier::external_body]
fn open(key: &[u8], sealed: &[u8]) -> (r: Result<Vec<u8>, UnknownCryptoError>)
    ensures
        match r {
            Ok(plain) => aead_opened(key@, sealed@) == Some(plain@),
            Err(_) => aead_opened(key@, sealed@) is None,
        },
        sealed@.len() <= SEAL_OVERHEAD ==> r is Err,
        r matches Ok(plain) ==> plain@.len() + SEAL_OVERHEAD == sealed@.len(),
{
    let key = orion::aead::SecretKey::from_slice(key)?;
    orion::aead::open(&key, sealed)
}

/// `String::from_utf8` accepts exactly the byte strings that are valid
/// UTF-8, and the string it makes of one is what the bytes decode to.
pub assume_specification[ String::from_utf8 ](bytes: Vec<u8>) -> (r: Result<String, FromUtf8Error>)
    ensures
        r is Ok <==> valid_utf8(bytes@),
        r matches Ok(s) ==> s@ == decode_utf8(bytes@),
;

/// By how many bytes a sealed message is longer than its plaintext.
pub const SEAL_OVERHEAD: usize = 40;

/// The number of passes of the key derivation.
pub const KDF_ITERATIONS: u32 = 3;

/// The memory of the key derivation, in KiB.
pub const KDF_MEMORY: u32 = 65536;

/// The length of the derived key, in bytes.
pub const KEY_LENGTH: u32 = 32;

/// The length of the salt, in bytes.
pub const SALT_LENGTH: usize = 32;

/// The BIP-44 coin type of the Cosmos chains.
pub const COSMOS_COIN_TYPE: u64 = 118;

/// The gas price of every wallet, a decimal number.
pub const GAS_PRICE: &'static str = "0.0025";

/// The factor by which the estimated gas of a transaction is raised.
pub const GAS_ADJUSTMENT: &'static str = "1.5";

/// Why the seed phrase could not be had.
#[derive(Clone, Copy, Debug, PartialEq, Eq, Structural)]
pub enum WalletError {
    /// No key could be derived from the password.
    KeyDerivation,
    /// The encrypted seed phrase is too short, was altered, or was sealed
    /// with another password.
    Authentication,
    /// What was decrypted is not text.
    NotText,
}

/// The salt of the key derivation: zeros.
pub open spec fn fixed_salt() -> Seq<u8> {
    Seq::new(SALT_LENGTH as nat, |i: int| 0u8)
}

/// What decrypting `mnemonic` with `password` gives: the key is derived
/// from the password with the fixed salt and costs, and opens the sealed
/// seed phrase.
pub open spec fn decrypted(mnemonic: Seq<u8>, password: Seq<u8>) -> Result<Seq<u8>, WalletError> {
    match argon2i_key(password, fixed_salt(), KDF_ITERATIONS, KDF_MEMORY, KEY_LENGTH) {
        None => Err(WalletError::KeyDerivation),
        Some(key) => opened_with(key, mnemonic),
    }
}

/// What opening `mnemonic` with a derived key gives.
pub open spec fn opened_with(key: Seq<u8>, mnemonic: Seq<u8>) -> Result<Seq<u8>, WalletError> {
    match aead_opened(key, mnemonic) {
        None => Err(WalletError::Authentication),
        Some(plain) => Ok(plain),
    }
}

/// The seed phrase that decrypted bytes spell.
pub open spec fn phrase_of(plain: Seq<u8>) -> Result<Seq<char>, WalletError> {
    if valid_utf8(plain) {
        Ok(decode_utf8(plain))
    } else {
        Err(WalletError::NotText)
    }
}

/// Decrypts the encrypted seed phrase with the key that the password
/// gives.
pub fn decrypt_mnemonic(mnemonic: &[u8], password: &[u8]) -> (r: Result<Vec<u8>, WalletError>)
    ensures
        match r {
            Ok(plain) => decrypted(mnemonic@, password@) == Ok::<Seq<u8>, WalletError>(plain@),
            Err(e) => decrypted(mnemonic@, password@) == Err::<Seq<u8>, WalletError>(e),
        },
        password@.len() == 0 ==> r == Err::<Vec<u8>, WalletError>(WalletError::KeyDerivation),
        mnemonic@.len() <= SEAL_OVERHEAD ==> r is Err,
        r matches Ok(plain) ==> plain@.len() + SEAL_OVERHEAD == mnemonic@.len(),
{
    let mut salt: Vec<u8> = Vec::new();
    while salt.len() < SALT_LENGTH
        invariant
            salt@.len() <= SALT_LENGTH,
            forall|i: int| 0 <= i < salt@.len() ==> salt@[i] == 0u8,
        decreases SALT_LENGTH - salt@.len(),
    {
        salt.push(0u8);
    }
    assert(salt@ =~= fixed_salt());
    match derive_key(password, salt.as_slice(), KDF_ITERATIONS, KDF_MEMORY, KEY_LENGTH) {
        Err(_) => Err(WalletError::KeyDerivation),
        Ok(key) => open_with_key(key.as_slice(), mnemonic),
    }
}

/// Opens the encrypted seed phrase with a key that was derived before.
pub fn open_with_key(key: &[u8], mnemonic: &[u8]) -> (r: Result<Vec<u8>, WalletError>)
    ensures
        match r {
            Ok(plain) => opened_with(key@, mnemonic@) == Ok::<Seq<u8>, WalletError>(plain@),
            Err(e) => opened_with(key@, mnemonic@) == Err::<Seq<u8>, WalletError>(e),
        },
        mnemonic@.len() <= SEAL_OVERHEAD ==> r is Err,
        r matches Ok(plain) ==> plain@.len() + SEAL_OVERHEAD == mnemonic@.len(),
{
    match open(key, mnemonic) {
        Err(_) => Err(WalletError::Authentication),
        Ok(plain) => Ok(plain),
    }
}

/// Reads decrypted bytes as the seed phrase: they must be UTF-8.
pub fn seed_phrase(plain: Vec<u8>) -> (r: Result<String, WalletError>)
    ensures
        match r {
            Ok(phrase) => phrase_of(plain@) == Ok::<Seq<char>, WalletError>(phrase@),
            Err(e) => phrase_of(plain@) == Err::<Seq<char>, WalletError>(e),
        },
{
    match String::from_utf8(plain) {
        Ok(phrase) => Ok(phrase),
        Err(_) => Err(WalletError::NotText),
    }
}

/// The settings of the wallet of one chain.
pub struct WalletSettings {
    /// The prefix of the chain's addresses.
    pub chain_prefix: String,
    pub coin_type: u64,
    /// Which account of the seed phrase signs.
    pub account_index: u64,
    pub gas_price: &'static str,
    pub gas_adjustment: &'static str,
    /// The denom in which fees are paid.
    pub gas_denom: String,
}

impl Chain {
    /// The settings of this chain's wallet. Every chain uses the first
    /// account of the one seed phrase; only the address prefix and the fee
    /// denom are the chain's own.
    pub fn wallet_settings(&self) -> (r: WalletSettings)
        ensures
            r.chain_prefix@ == self.chain_prefix@,
            r.gas_denom@ == self.base_denom@,
            r.coin_type == COSMOS_COIN_TYPE,
            r.account_index == 0,
            r.gas_price@ == GAS_PRICE@,
            r.gas_adjustment@ == GAS_ADJUSTMENT@,
    {
        WalletSettings {
            chain_prefix: self.chain_prefix.clone(),
            coin_type: COSMOS_COIN_TYPE,
            account_index: 0,
            gas_price: GAS_PRICE,
            gas_adjustment: GAS_ADJUSTMENT,
            gas_denom: self.base_denom.clone(),
        }
    }
}

} // verus!
