use lenda_wallet_core::calldata::build_claim_calldata;
use lenda_wallet_core::wallet::{sort_tx_history, OffchainBalance, Transaction};
use lenda_wallet_core::collateral::{
    confirmed_outpoints, is_eligible, outpoints_of, select_vtxos_for_amount,
    settle_boarding_outpoints, BoardingUtxo, Outpoint, Vtxo, MIN_EXPIRY_GAP_SECONDS,
};
use lenda_wallet_core::errors::WalletError;
use lenda_wallet_core::hexutil::{from_hex, to_hex};
use lenda_wallet_core::lendasat::{
    classify_verify_response, is_fully_repaid, next_installment_index, CollateralAsset,
    ContractStatus, InstallmentStatus, LoanAsset, RepaymentPlan, StoredAuth, VerifyClassification,
};
use lenda_wallet_core::market::{FiatCurrency, TimeRange};
use bitcoin::hashes::Hash as _;
use lenda_wallet_core::keys::{parse_derivation_path, parse_mnemonic, ARK_BASE_DERIVATION_PATH};
use lenda_wallet_core::provider::{HdProvider, UnifiedKeyProvider};
use lenda_wallet_core::psbt::{
    lendasat_finalize_psbt, lendasat_psbt_base64_to_hex, lendasat_psbt_hex_to_base64,
    sign_psbt_with_ark_identity,
};
use lenda_wallet_core::uri::{
    choose_send_rail, decode_bip21, is_ark_address, is_bip21, is_btc_address, parse_btc_amount,
    SendRail,
};

fn vtxo(txid: &str, amount_sats: u64, expires_at: i64) -> Vtxo {
    Vtxo {
        outpoint: Outpoint { txid: txid.to_string(), vout: 0 },
        amount_sats,
        expires_at,
    }
}

const DAY: i64 = 24 * 60 * 60;

#[test]
fn eligibility_is_exactly_the_expiry_gap() {
    let now = 1_700_000_000i64;
    assert!(!is_eligible(&vtxo("a", 1, now + MIN_EXPIRY_GAP_SECONDS), now));
    assert!(!is_eligible(&vtxo("a", 1, now + MIN_EXPIRY_GAP_SECONDS - 1), now));
    assert!(is_eligible(&vtxo("a", 1, now + MIN_EXPIRY_GAP_SECONDS + 1), now));
    assert!(!is_eligible(&vtxo("a", 1, i64::MAX), i64::MAX - 100));
}

#[test]
fn selection_prefers_soonest_expiry_and_takes_no_more_than_needed() {
    let now = 1_700_000_000i64;
    let vtxos = vec![
        vtxo("v8", 8, now + 90 * DAY),
        vtxo("v3", 3, now + 31 * DAY),
        vtxo("v5", 5, now + 40 * DAY),
    ];
    let sel = select_vtxos_for_amount(&vtxos, 6, now).unwrap();
    let picked: Vec<(String, u64)> = sel
        .iter()
        .map(|v| (v.outpoint.txid.clone(), v.amount_sats))
        .collect();
    assert_eq!(picked, vec![("v3".to_string(), 3), ("v5".to_string(), 5)]);
    let outs = outpoints_of(&sel);
    assert_eq!(outs.len(), 2);
    assert_eq!(outs[0].txid, "v3");
}

#[test]
fn selection_distinguishes_not_yet_eligible_from_insufficient() {
    let now = 1_700_000_000i64;
    let stale = vec![vtxo("s", 10, now + DAY)];
    match select_vtxos_for_amount(&stale, 6, now) {
        Err(WalletError::FundsNotYetEligible { needed_sats, eligible_sats, total_sats }) => {
            assert_eq!((needed_sats, eligible_sats, total_sats), (6, 0, 10));
        }
        other => panic!("unexpected result: {:?}", other),
    }
    match select_vtxos_for_amount(&stale, 60, now) {
        Err(WalletError::InsufficientFunds { needed_sats, available_sats }) => {
            assert_eq!((needed_sats, available_sats), (60, 10));
        }
        other => panic!("unexpected result: {:?}", other),
    }
    assert_eq!(select_vtxos_for_amount(&stale, 0, now).unwrap().len(), 0);
}

#[test]
fn boarding_settlement_takes_only_confirmed_outputs() {
    let utxos = vec![
        BoardingUtxo { txid: "t1".to_string(), vout: 0, amount_sats: 5, is_confirmed: true },
        BoardingUtxo { txid: "t2".to_string(), vout: 1, amount_sats: 6, is_confirmed: false },
        BoardingUtxo { txid: "t3".to_string(), vout: 2, amount_sats: 7, is_confirmed: true },
    ];
    let outs = confirmed_outpoints(&utxos);
    assert_eq!(outs.len(), 2);
    assert_eq!(outs[0].txid, "t1");
    assert_eq!(outs[1].txid, "t3");
    assert!(settle_boarding_outpoints(&utxos).is_ok());
    assert!(matches!(
        settle_boarding_outpoints(&Vec::new()),
        Err(WalletError::StateConflict)
    ));
}

#[test]
fn claim_calldata_has_the_selector_and_both_words() {
    let swap_id: Vec<u8> = vec![0x12u8; 16];
    let preimage: Vec<u8> = vec![0x34u8; 32];
    let data = build_claim_calldata(&swap_id, &preimage).unwrap();
    assert_eq!(data.len(), 2 + 8 + 64 + 64);
    assert!(data.starts_with("0x1818a9fa"));
    let expected = format!(
        "0x1818a9fa{}{}{}",
        "00".repeat(16),
        "12".repeat(16),
        "34".repeat(32)
    );
    assert_eq!(data, expected);
    assert!(build_claim_calldata(&vec![0u8; 33], &preimage).is_err());
    assert!(build_claim_calldata(&swap_id, &vec![0u8; 31]).is_err());
}

#[test]
fn hex_encoding_round_trips_and_rejects_bad_text() {
    let bytes = vec![0u8, 10, 171, 255];
    let encoded = to_hex(bytes.as_slice());
    assert_eq!(encoded, "000aabff");
    assert_eq!(from_hex(&encoded).unwrap(), bytes);
    assert_eq!(from_hex("0aFF").unwrap(), vec![10u8, 255]);
    assert!(from_hex("123").is_err());
    assert!(from_hex("zz").is_err());
}

#[test]
fn btc_amounts_parse_to_exact_satoshis() {
    assert_eq!(parse_btc_amount("0.00001234"), Some(1234));
    assert_eq!(parse_btc_amount("1"), Some(100_000_000));
    assert_eq!(parse_btc_amount("0.5"), Some(50_000_000));
    assert_eq!(parse_btc_amount("21000000"), Some(2_100_000_000_000_000));
    assert_eq!(parse_btc_amount("0.000000001"), None);
    assert_eq!(parse_btc_amount("1."), None);
    assert_eq!(parse_btc_amount(".5"), None);
    assert_eq!(parse_btc_amount("abc"), None);
    assert_eq!(parse_btc_amount(""), None);
    assert_eq!(parse_btc_amount("1e5"), None);
}

#[test]
fn bip21_uris_decode_to_both_addresses_and_the_amount() {
    let uri = "bitcoin:tb1qw508d6qejxtdg4y5r3zarvary0c5xw7kxpjzsx?ark=tark1q0sl5k2aa&amount=0.00001234";
    assert!(is_bip21(uri));
    let decoded = decode_bip21(uri).unwrap();
    assert_eq!(
        decoded.btc_address.as_deref(),
        Some("tb1qw508d6qejxtdg4y5r3zarvary0c5xw7kxpjzsx")
    );
    assert_eq!(decoded.ark_address.as_deref(), Some("tark1q0sl5k2aa"));
    assert_eq!(decoded.amount_sats, Some(1234));

    let ark_only = decode_bip21("ark:tark1q0sl5k2aa").unwrap();
    assert_eq!(ark_only.ark_address.as_deref(), Some("tark1q0sl5k2aa"));
    assert_eq!(ark_only.btc_address, None);
    assert_eq!(ark_only.amount_sats, None);

    // Unused query parameters may hold anything, raw UTF-8 included.
    let labelled = decode_bip21(
        "bitcoin:tb1qw508d6qejxtdg4y5r3zarvary0c5xw7kxpjzsx?amount=0.00001234&label=caf\u{e9}",
    )
    .unwrap();
    assert_eq!(labelled.amount_sats, Some(1234));
    assert_eq!(labelled.ark_address, None);

    assert!(decode_bip21("http://example.test").is_err());
    assert!(decode_bip21("bitcoin:notanaddress").is_err());
    // 'b' is not a bech32 data character, and a short body cannot carry a
    // checksum.
    assert!(decode_bip21("ark:tark1qdeadbeef").is_err());
    assert!(decode_bip21("ark:ark1q0sl5").is_err());
    assert!(decode_bip21(
        "bitcoin:tb1qw508d6qejxtdg4y5r3zarvary0c5xw7kxpjzsx?amount=nonsense"
    )
    .is_err());
}

#[test]
fn address_forms_are_told_apart() {
    assert!(is_ark_address("ark1abc"));
    assert!(is_ark_address("tark1abc"));
    assert!(!is_ark_address("bc1abc"));
    assert!(is_btc_address("bc1abc"));
    assert!(is_btc_address("tb1abc"));
    assert!(is_btc_address("bcrt1abc"));
    assert!(!is_btc_address("ark1abc"));
}

#[test]
fn psbt_text_forms_round_trip() {
    let tx = bitcoin::Transaction {
        version: bitcoin::transaction::Version::TWO,
        lock_time: bitcoin::absolute::LockTime::ZERO,
        input: vec![],
        output: vec![bitcoin::TxOut {
            value: bitcoin::Amount::ZERO,
            script_pubkey: bitcoin::ScriptBuf::new(),
        }],
    };
    let psbt = bitcoin::psbt::Psbt::from_unsigned_tx(tx).unwrap();
    let psbt_hex = hex::encode(psbt.serialize());

    let base64 = lendasat_psbt_hex_to_base64(&psbt_hex).unwrap();
    let hex_again = lendasat_psbt_base64_to_hex(&base64).unwrap();
    assert_eq!(hex_again, psbt_hex);

    assert!(lendasat_psbt_hex_to_base64("zz").is_err());
    assert!(lendasat_psbt_hex_to_base64("00").is_err());
    assert!(lendasat_psbt_base64_to_hex("!!!").is_err());
    assert!(lendasat_finalize_psbt("zz").is_err());

    let raw = lendasat_finalize_psbt(&psbt_hex).unwrap();
    assert!(!raw.is_empty());
}

#[test]
fn lending_enums_answer_their_predicates() {
    assert!(LoanAsset::Usd.is_fiat());
    assert!(!LoanAsset::UsdcPol.is_fiat());
    assert!(LoanAsset::UsdtLiquid.is_stablecoin());
    assert_eq!(LoanAsset::UsdcEth.display_name(), "USDC on Ethereum");
    assert_eq!(CollateralAsset::ArkadeBtc.display_name(), "Arkade");
    assert_eq!(RepaymentPlan::Bullet.display_name(), "Bullet (Full at end)");

    assert!(ContractStatus::PrincipalGiven.is_active());
    assert!(!ContractStatus::Requested.is_active());
    assert!(ContractStatus::RepaymentConfirmed.can_claim());
    assert!(!ContractStatus::PrincipalGiven.can_claim());
    assert!(ContractStatus::CollateralRecoverable.can_recover());
    assert!(ContractStatus::Cancelled.is_closed());
    assert!(!ContractStatus::PrincipalGiven.is_closed());
    assert_eq!(ContractStatus::ClosedByRecovery.display_name(), "Closed (Recovery)");
}

#[test]
fn stored_auth_soft_expires_after_a_day() {
    let auth = StoredAuth {
        jwt_token: "token".to_string(),
        user_id: "u".to_string(),
        user_name: "n".to_string(),
        user_email: None,
        pubkey: "02aa".to_string(),
        created_at: 1_000_000,
        expires_at: None,
    };
    assert!(!auth.is_expired_at(1_000_000 + 24 * 60 * 60 - 1));
    assert!(auth.is_expired_at(1_000_000 + 24 * 60 * 60));
    let with_expiry = StoredAuth { expires_at: Some(2_000_000), ..auth };
    assert!(!with_expiry.is_expired_at(1_999_999));
    assert!(with_expiry.is_expired_at(2_000_000));
}

#[test]
fn verify_responses_classify_by_status_and_body() {
    assert_eq!(classify_verify_response(200, ""), VerifyClassification::Accepted);
    assert_eq!(classify_verify_response(299, "x"), VerifyClassification::Accepted);
    assert_eq!(
        classify_verify_response(401, "whatever"),
        VerifyClassification::NeedsRegistration
    );
    assert_eq!(
        classify_verify_response(404, "user not found"),
        VerifyClassification::NeedsRegistration
    );
    assert_eq!(
        classify_verify_response(403, "pubkey not registered"),
        VerifyClassification::NeedsRegistration
    );
    assert_eq!(classify_verify_response(500, "boom"), VerifyClassification::Failed);
}

#[test]
fn market_enums_render_and_parse() {
    assert_eq!(FiatCurrency::USD.code(), "USD");
    assert_eq!(FiatCurrency::all().len(), 12);
    assert_eq!(TimeRange::OneWeek.to_query_param(), "1W");
    assert_eq!(TimeRange::from_string("1d"), Some(TimeRange::OneDay));
    assert_eq!(TimeRange::from_string("max"), Some(TimeRange::Max));
    assert_eq!(TimeRange::from_string("2D"), None);
}

#[test]
fn balance_totals_and_history_order() {
    let balance = OffchainBalance::new(250, 1000);
    assert_eq!(balance.total_sats, 1250);

    let history = vec![
        Transaction::Round { txid: "r".to_string(), amount_sats: 5, created_at: 10 },
        Transaction::Boarding { txid: "b".to_string(), amount_sats: 7, confirmed_at: Some(30) },
        Transaction::Offboard { txid: "o".to_string(), amount_sats: -3, confirmed_at: None },
        Transaction::Redeem {
            txid: "x".to_string(),
            amount_sats: 2,
            is_settled: true,
            created_at: 20,
        },
    ];
    let sorted = sort_tx_history(history);
    let times: Vec<i64> = sorted
        .iter()
        .map(|t| match t {
            Transaction::Boarding { confirmed_at, .. } => confirmed_at.unwrap_or(0),
            Transaction::Round { created_at, .. } => *created_at,
            Transaction::Redeem { created_at, .. } => *created_at,
            Transaction::Offboard { confirmed_at, .. } => confirmed_at.unwrap_or(0),
        })
        .collect();
    assert_eq!(times, vec![30, 20, 10, 0]);
}

#[test]
fn installment_schedules_answer_their_queries() {
    let schedule = vec![
        InstallmentStatus::Confirmed,
        InstallmentStatus::Late,
        InstallmentStatus::Pending,
    ];
    assert_eq!(next_installment_index(&schedule), Some(1));
    assert!(!is_fully_repaid(&schedule));

    let done = vec![InstallmentStatus::Confirmed, InstallmentStatus::Cancelled];
    assert_eq!(next_installment_index(&done), None);
    assert!(is_fully_repaid(&done));
    assert!(is_fully_repaid(&Vec::new()));
}

#[test]
fn send_destinations_dispatch_to_their_rail() {
    let uri = "bitcoin:tb1qw508d6qejxtdg4y5r3zarvary0c5xw7kxpjzsx?amount=0.00001234";
    match choose_send_rail(uri, 999).unwrap() {
        SendRail::OnChain { address, amount_sats } => {
            assert_eq!(address, "tb1qw508d6qejxtdg4y5r3zarvary0c5xw7kxpjzsx");
            assert_eq!(amount_sats, 1234);
        }
        _ => panic!("expected the on-chain rail"),
    }
    match choose_send_rail("ark:tark1q0sl5k2aa", 999).unwrap() {
        SendRail::OffChain { address, amount_sats } => {
            assert_eq!(address, "tark1q0sl5k2aa");
            assert_eq!(amount_sats, 999);
        }
        _ => panic!("expected the off-chain rail"),
    }
    match choose_send_rail("tark1q0sl5k2aa", 7).unwrap() {
        SendRail::OffChain { amount_sats, .. } => assert_eq!(amount_sats, 7),
        _ => panic!("expected the off-chain rail"),
    }
    match choose_send_rail("tb1qw508d6qejxtdg4y5r3zarvary0c5xw7kxpjzsx", 7).unwrap() {
        SendRail::OnChain { amount_sats, .. } => assert_eq!(amount_sats, 7),
        _ => panic!("expected the on-chain rail"),
    }
    assert!(choose_send_rail("tb1notvalid", 7).is_err());
    assert!(choose_send_rail("something else", 7).is_err());
}

#[test]
fn taproot_inputs_sign_with_a_derived_key() {
    let words = parse_mnemonic(
        "abandon abandon abandon abandon abandon abandon abandon abandon abandon abandon abandon about",
    )
    .unwrap();
    let base = parse_derivation_path(ARK_BASE_DERIVATION_PATH).unwrap();
    let mut provider =
        UnifiedKeyProvider::Hd(HdProvider::new(words, true, base).unwrap());
    let key = provider.get_next_keypair().unwrap();
    let xonly =
        bitcoin::key::XOnlyPublicKey::from_slice(&key.x_only_public_key()).unwrap();

    let tx = bitcoin::Transaction {
        version: bitcoin::transaction::Version::TWO,
        lock_time: bitcoin::absolute::LockTime::ZERO,
        input: vec![bitcoin::TxIn {
            previous_output: bitcoin::OutPoint {
                txid: bitcoin::Txid::from_byte_array([7u8; 32]),
                vout: 0,
            },
            script_sig: bitcoin::ScriptBuf::new(),
            sequence: bitcoin::Sequence::MAX,
            witness: bitcoin::Witness::new(),
        }],
        output: vec![bitcoin::TxOut {
            value: bitcoin::Amount::from_sat(900),
            script_pubkey: bitcoin::ScriptBuf::new(),
        }],
    };
    let mut psbt = bitcoin::psbt::Psbt::from_unsigned_tx(tx).unwrap();
    psbt.inputs[0].tap_internal_key = Some(xonly);
    psbt.inputs[0].witness_utxo = Some(bitcoin::TxOut {
        value: bitcoin::Amount::from_sat(1000),
        script_pubkey: bitcoin::ScriptBuf::new_p2tr(
            &bitcoin::secp256k1::Secp256k1::new(),
            xonly,
            None,
        ),
    });
    let psbt_hex = hex::encode(psbt.serialize());

    let report = sign_psbt_with_ark_identity(&psbt_hex, &provider).unwrap();
    assert_eq!((report.total, report.signed, report.failed), (1, 1, 0));

    let signed: bitcoin::psbt::Psbt =
        bitcoin::psbt::Psbt::deserialize(&hex::decode(&report.psbt_hex).unwrap()).unwrap();
    assert!(signed.inputs[0].tap_key_sig.is_some());

    // A transaction locked to a foreign key signs nothing and fails.
    let other = bitcoin::key::Keypair::new(
        &bitcoin::secp256k1::Secp256k1::new(),
        &mut bitcoin::secp256k1::rand::rngs::OsRng,
    );
    let mut foreign = signed.clone();
    foreign.inputs[0].tap_internal_key = Some(other.x_only_public_key().0);
    foreign.inputs[0].tap_key_sig = None;
    let foreign_hex = hex::encode(foreign.serialize());
    assert!(matches!(
        sign_psbt_with_ark_identity(&foreign_hex, &provider),
        Err(WalletError::SigningFailure)
    ));
}
