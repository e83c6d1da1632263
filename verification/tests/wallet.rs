use ticker_bot::config::Chain;
use ticker_bot::wallet::{
    decrypt_mnemonic, open_with_key, seed_phrase, WalletError, COSMOS_COIN_TYPE, GAS_ADJUSTMENT,
    GAS_PRICE, KDF_ITERATIONS, KDF_MEMORY, KEY_LENGTH, SALT_LENGTH, SEAL_OVERHEAD,
};

const PHRASE: &[u8] = b"abandon ability able about above absent absorb abstract";

/// The key that the bot derives from a password, computed apart from it.
fn key_of(password: &[u8]) -> orion::aead::SecretKey {
    let salt = orion::kdf::Salt::from_slice(&[0u8; 32]).unwrap();
    let password = orion::kdf::Password::from_slice(password).unwrap();
    orion::kdf::derive_key(&password, &salt, 3, 1 << 16, 32).unwrap()
}

#[test]
fn the_costs_of_the_key_derivation_are_fixed() {
    assert_eq!(KDF_ITERATIONS, 3);
    assert_eq!(KDF_MEMORY, 1 << 16);
    assert_eq!(KEY_LENGTH, 32);
    assert_eq!(SALT_LENGTH, 32);
    assert_eq!(SEAL_OVERHEAD, 40);
}

#[test]
fn a_sealed_phrase_is_opened_with_its_password() {
    let sealed = orion::aead::seal(&key_of(b"correct horse"), PHRASE).unwrap();
    assert_eq!(sealed.len(), PHRASE.len() + SEAL_OVERHEAD);
    let plain = decrypt_mnemonic(&sealed, b"correct horse").unwrap();
    assert_eq!(plain, PHRASE.to_vec());
    assert_ne!(plain, sealed);
    assert_eq!(seed_phrase(plain).unwrap().as_bytes(), PHRASE);
}

#[test]
fn another_password_opens_nothing() {
    let sealed = orion::aead::seal(&key_of(b"correct horse"), PHRASE).unwrap();
    assert_eq!(decrypt_mnemonic(&sealed, b"wrong horse"), Err(WalletError::Authentication));
}

#[test]
fn an_altered_phrase_is_refused() {
    let key = key_of(b"correct horse");
    let mut sealed = orion::aead::seal(&key, PHRASE).unwrap();
    let last = sealed.len() - 1;
    sealed[last] ^= 1;
    assert_eq!(
        open_with_key(key.unprotected_as_bytes(), &sealed),
        Err(WalletError::Authentication)
    );
    sealed[last] ^= 1;
    assert_eq!(open_with_key(key.unprotected_as_bytes(), &sealed), Ok(PHRASE.to_vec()));
}

#[test]
fn an_empty_password_derives_no_key() {
    assert_eq!(decrypt_mnemonic(&[0u8; 64], b""), Err(WalletError::KeyDerivation));
}

#[test]
fn a_message_without_content_is_refused() {
    let key = key_of(b"correct horse");
    let key = key.unprotected_as_bytes();
    assert_eq!(open_with_key(key, &[]), Err(WalletError::Authentication));
    assert_eq!(open_with_key(key, &[0u8; 40]), Err(WalletError::Authentication));
    let shortest = orion::aead::seal(&key_of(b"correct horse"), b"x").unwrap();
    assert_eq!(shortest.len(), 41);
    assert_eq!(open_with_key(key, &shortest), Ok(b"x".to_vec()));
}

#[test]
fn a_key_of_another_length_opens_nothing() {
    let sealed = orion::aead::seal(&key_of(b"correct horse"), PHRASE).unwrap();
    assert_eq!(open_with_key(&[7u8; 16], &sealed), Err(WalletError::Authentication));
    assert_eq!(open_with_key(&[], &sealed), Err(WalletError::Authentication));
}

#[test]
fn the_seed_phrase_must_be_text() {
    assert_eq!(seed_phrase(b"zoo wrong".to_vec()), Ok("zoo wrong".to_string()));
    assert_eq!(seed_phrase("h\u{e9}llo \u{4e16}".as_bytes().to_vec()), Ok("h\u{e9}llo \u{4e16}".to_string()));
    assert_eq!(seed_phrase(vec![]), Ok(String::new()));
    assert_eq!(seed_phrase(vec![0x66, 0xff, 0x6f]), Err(WalletError::NotText));
    assert_eq!(seed_phrase(vec![0xc3]), Err(WalletError::NotText));
    assert_eq!(seed_phrase(vec![0xed, 0xa0, 0x80]), Err(WalletError::NotText));
}

#[test]
fn a_wallet_takes_prefix_and_fee_denom_from_its_chain() {
    let chain = Chain {
        chain_prefix: "neutron".to_string(),
        base_denom: "untrn".to_string(),
        endpoint: "http://localhost:9090".to_string(),
    };
    let settings = chain.wallet_settings();
    assert_eq!(settings.chain_prefix, "neutron");
    assert_eq!(settings.gas_denom, "untrn");
    assert_eq!(settings.coin_type, 118);
    assert_eq!(settings.coin_type, COSMOS_COIN_TYPE);
    assert_eq!(settings.account_index, 0);
    assert_eq!(settings.gas_price, "0.0025");
    assert_eq!(settings.gas_adjustment, "1.5");
    assert_eq!(GAS_PRICE, "0.0025");
    assert_eq!(GAS_ADJUSTMENT, "1.5");
}
