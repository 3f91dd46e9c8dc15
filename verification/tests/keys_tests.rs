use lenda_wallet_core::provider::{BoardingStore, HdProvider, LegacyProvider, UnifiedKeyProvider};
use lenda_wallet_core::keys::{
    derive_master_xpriv, derive_keypair_at_path, derive_xpriv_at_path, generate_mnemonic,
    get_derivation_path, parse_derivation_path, parse_mnemonic, sign_message, verify_signature,
    KeyAuthority, ARK_BASE_DERIVATION_PATH, LENDASAT_DERIVATION_PATH, NOSTR_DERIVATION_PATH,
};

const TEST_MNEMONIC: &str = "abandon abandon abandon abandon abandon abandon abandon abandon abandon abandon abandon about";

#[test]
fn test_generate_and_parse_mnemonic() {
    let mnemonic = generate_mnemonic().unwrap();
    let words = mnemonic.to_string();
    let parsed = parse_mnemonic(&words).unwrap();
    assert_eq!(mnemonic.to_string(), parsed.to_string());
}

#[test]
fn test_derive_master_xpriv() {
    let mnemonic = parse_mnemonic(TEST_MNEMONIC).unwrap();
    let xpriv = derive_master_xpriv(&mnemonic, true).unwrap();
    assert!(xpriv.starts_with("xprv"));
}

#[test]
fn test_derive_xpriv_at_path() {
    let mnemonic = parse_mnemonic(TEST_MNEMONIC).unwrap();
    let path = parse_derivation_path(NOSTR_DERIVATION_PATH).unwrap();
    let xpriv = derive_xpriv_at_path(&mnemonic, &path, true).unwrap();
    assert!(xpriv.starts_with("xprv"));
}

#[test]
fn test_sign_and_verify() {
    let secp = bitcoin::secp256k1::Secp256k1::new();
    let keypair = bitcoin::key::Keypair::new(&secp, &mut bitcoin::secp256k1::rand::rngs::OsRng);

    let message = "test-challenge-12345";

    let secret = keypair.secret_bytes().to_vec();
    let sig_hex = sign_message(message, &secret).unwrap();

    let pubkey_hex = hex::encode(keypair.public_key().serialize());
    let result = verify_signature(&pubkey_hex, message, &sig_hex).unwrap();
    assert!(result);
}

#[test]
fn test_invalid_signature() {
    let secp = bitcoin::secp256k1::Secp256k1::new();
    let keypair1 = bitcoin::key::Keypair::new(&secp, &mut bitcoin::secp256k1::rand::rngs::OsRng);
    let keypair2 = bitcoin::key::Keypair::new(&secp, &mut bitcoin::secp256k1::rand::rngs::OsRng);

    let message = "test-challenge-12345";

    let secret1 = keypair1.secret_bytes().to_vec();
    let sig_hex = sign_message(message, &secret1).unwrap();

    let pubkey2_hex = hex::encode(keypair2.public_key().serialize());
    let result = verify_signature(&pubkey2_hex, message, &sig_hex).unwrap();
    assert!(!result);
}

#[test]
fn derivation_path_parser_reads_the_subsystem_paths() {
    let ark = parse_derivation_path(ARK_BASE_DERIVATION_PATH).unwrap();
    assert_eq!(ark.components, vec![83696968 + 0x8000_0000u32, 11811 + 0x8000_0000, 0]);

    let lendasat = parse_derivation_path(LENDASAT_DERIVATION_PATH).unwrap();
    assert_eq!(lendasat.components, vec![10101 + 0x8000_0000u32, 0x8000_0000]);

    let nostr = parse_derivation_path(NOSTR_DERIVATION_PATH).unwrap();
    assert_eq!(
        nostr.components,
        vec![44 + 0x8000_0000u32, 1237 + 0x8000_0000, 0x8000_0000, 0, 0]
    );

    assert!(parse_derivation_path("m/").is_err());
    assert!(parse_derivation_path("44'/0").is_err());
    assert!(parse_derivation_path("m/2147483648").is_err());
    assert!(parse_derivation_path("m/12x").is_err());
    assert!(parse_derivation_path("m/44h/0").is_ok());
}

#[test]
fn lendasat_auth_path_is_fixed() {
    assert_eq!(get_derivation_path(), "m/10101'/0'/0");
}

#[test]
fn derivation_is_deterministic_and_paths_are_isolated() {
    let words = parse_mnemonic(TEST_MNEMONIC).unwrap();
    let ark_identity = {
        let base = parse_derivation_path(ARK_BASE_DERIVATION_PATH).unwrap();
        base.child(0)
    };
    let auth = parse_derivation_path(&get_derivation_path()).unwrap();

    let k1 = derive_keypair_at_path(&words, &ark_identity, true).unwrap();
    let k2 = derive_keypair_at_path(&words, &ark_identity, true).unwrap();
    assert_eq!(k1.secret_key, k2.secret_key);
    assert_eq!(k1.public_key, k2.public_key);

    let k3 = derive_keypair_at_path(&words, &auth, true).unwrap();
    assert_ne!(k1.secret_key, k3.secret_key);
    assert_ne!(k1.public_key, k3.public_key);
}

#[test]
fn authority_cache_is_emptied_on_reset() {
    let words = parse_mnemonic(TEST_MNEMONIC).unwrap();
    let mut authority = KeyAuthority::new(words, true).unwrap();
    assert_eq!(authority.cached_count(), 0);

    let path = parse_derivation_path(&get_derivation_path()).unwrap();
    let first = authority.derive(&path).unwrap();
    assert_eq!(authority.cached_count(), 1);
    let second = authority.derive(&path).unwrap();
    assert_eq!(authority.cached_count(), 1);
    assert_eq!(first.public_key, second.public_key);

    let other = generate_mnemonic().unwrap();
    authority.reset(other, true).unwrap();
    assert_eq!(authority.cached_count(), 0);

    assert!(KeyAuthority::new("not a mnemonic".to_string(), true).is_err());
}

#[test]
fn provider_pools_grow_and_answer_by_public_key() {
    let words = parse_mnemonic(TEST_MNEMONIC).unwrap();
    let base = parse_derivation_path(ARK_BASE_DERIVATION_PATH).unwrap();
    let hd = HdProvider::new(words.clone(), true, base).unwrap();
    let mut provider = UnifiedKeyProvider::Hd(hd);
    assert!(provider.supports_discovery());

    let k0 = provider.get_next_keypair().unwrap();
    let k1 = provider.get_next_keypair().unwrap();
    assert_ne!(k0.public_key, k1.public_key);

    // Lookups go by the x-only key, the form a received output's locking
    // key arrives in.
    let found = provider.get_keypair_for_pk(&k0.x_only_public_key()).unwrap();
    assert_eq!(found.secret_key, k0.secret_key);
    assert!(provider.get_keypair_for_pk(&k0.public_key).is_err());
    assert_eq!(provider.get_cached_pks().len(), 2);
    assert!(provider.mark_as_used(&k1.x_only_public_key()).is_ok());
    assert!(provider.mark_as_used(&vec![9u8; 32]).is_err());

    let fixed = derive_keypair_at_path(
        &words,
        &parse_derivation_path(NOSTR_DERIVATION_PATH).unwrap(),
        true,
    )
    .unwrap();
    let pk = fixed.public_key.clone();
    let xonly = fixed.x_only_public_key();
    let mut legacy = UnifiedKeyProvider::Legacy(LegacyProvider::new(fixed));
    assert!(!legacy.supports_discovery());
    assert!(legacy.get_keypair_for_pk(&xonly).is_ok());
    let got = legacy.get_next_keypair().unwrap();
    assert_eq!(got.public_key, pk);
    assert!(legacy.get_next_keypair().is_err());
    assert!(legacy.derive_at_discovery_index(1).unwrap().is_none());
}

#[test]
fn boarding_store_finds_keys_by_owner() {
    let mut store = BoardingStore::new();
    store.save_boarding_output(vec![1, 2, 3], vec![9, 9]);
    store.save_boarding_output(vec![4, 5, 6], vec![8, 8]);
    assert_eq!(store.load_boarding_outputs(), vec![vec![1, 2, 3], vec![4, 5, 6]]);
    assert_eq!(store.sk_for_pk(&vec![4, 5, 6]), Some(vec![8, 8]));
    assert_eq!(store.sk_for_pk(&vec![7, 7, 7]), None);
}
