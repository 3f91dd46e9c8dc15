use lenda_wallet_core::swap_status::{
    parse_swap_status, parse_vtxo_swap_status, SwapStatus, SwapStatusSimple, VtxoSwapStatus,
};
use lenda_wallet_core::swap_store::{
    encode_swap_params, parse_swap_params, parse_vtxo_swap_row, SwapParams, SwapRecord, SwapStore,
    SwapType, VtxoSwapRow,
};

fn all_statuses() -> Vec<SwapStatus> {
    vec![
        SwapStatus::Pending,
        SwapStatus::ClientFundingSeen,
        SwapStatus::ClientFunded,
        SwapStatus::ServerFunded,
        SwapStatus::ClientRedeeming,
        SwapStatus::ClientRedeemed,
        SwapStatus::ServerRedeemed,
        SwapStatus::Expired,
        SwapStatus::ClientRefunded,
        SwapStatus::ClientFundedServerRefunded,
        SwapStatus::ClientRefundedServerFunded,
        SwapStatus::ClientRefundedServerRefunded,
        SwapStatus::ClientInvalidFunded,
        SwapStatus::ClientFundedTooLate,
        SwapStatus::ClientRedeemedAndClientRefunded,
    ]
}

#[test]
fn claim_only_when_server_funded_refund_only_in_the_three_states() {
    for status in all_statuses() {
        assert_eq!(status.can_claim(), status == SwapStatus::ServerFunded);
        let refundable = status == SwapStatus::ClientRefundedServerFunded
            || status == SwapStatus::ClientInvalidFunded
            || status == SwapStatus::ClientFundedTooLate;
        assert_eq!(status.can_refund(), refundable);
        assert!(!(status.can_claim() && status.can_refund()));
        if status.is_terminal() {
            assert!(!status.can_claim() && !status.can_refund());
        }
    }
}

#[test]
fn status_names_parse_back() {
    for status in all_statuses() {
        assert_eq!(parse_swap_status(status.name()).unwrap(), status);
    }
    assert!(parse_swap_status("SomethingElse").is_err());
    assert!(parse_swap_status("").is_err());
    assert_eq!(
        parse_vtxo_swap_status("ClientFundedServerRefunded").unwrap(),
        VtxoSwapStatus::ClientFundedServerRefunded
    );
    assert!(parse_vtxo_swap_status("ClientFundingSeen").is_err());
}

#[test]
fn simplified_status_mapping_is_exhaustive() {
    assert_eq!(
        SwapStatusSimple::from_status(SwapStatus::Pending),
        SwapStatusSimple::WaitingForDeposit
    );
    assert_eq!(
        SwapStatusSimple::from_status(SwapStatus::ServerRedeemed),
        SwapStatusSimple::Completed
    );
    assert_eq!(
        SwapStatusSimple::from_status(SwapStatus::ClientInvalidFunded),
        SwapStatusSimple::Refundable
    );
    assert_eq!(
        SwapStatusSimple::from_status(SwapStatus::ClientRefundedServerRefunded),
        SwapStatusSimple::Refunded
    );
    assert_eq!(
        SwapStatusSimple::from_status(SwapStatus::ClientRedeemedAndClientRefunded),
        SwapStatusSimple::Failed
    );
    for status in all_statuses() {
        let _ = SwapStatusSimple::from_status(status);
    }
}

fn sample_params() -> SwapParams {
    SwapParams {
        secret_key: vec![7u8; 32],
        public_key: vec![2u8; 33],
        preimage: vec![1u8; 32],
        preimage_hash: vec![3u8; 32],
        user_id: vec![2u8; 33],
        key_index: 4,
    }
}

fn sample_record(id: &str, swap_type: SwapType, with_txids: bool) -> SwapRecord {
    SwapRecord {
        id: id.to_string(),
        swap_type,
        status: SwapStatus::Pending,
        hash_lock: "a1".to_string(),
        sender_pk: "02aa".to_string(),
        receiver_pk: "02bb".to_string(),
        server_pk: "02cc".to_string(),
        evm_refund_locktime: 100,
        vhtlc_refund_locktime: 200,
        fee_sats: 21,
        network: "signet".to_string(),
        created_at: "2024-05-01T00:00:00Z".to_string(),
        bitcoin_htlc_fund_txid: if with_txids { Some("f1".to_string()) } else { None },
        bitcoin_htlc_claim_txid: if with_txids { Some("c1".to_string()) } else { None },
        evm_htlc_fund_txid: if with_txids { Some("f2".to_string()) } else { None },
        evm_htlc_claim_txid: if with_txids { Some("c2".to_string()) } else { None },
        params: sample_params(),
    }
}

#[test]
fn store_then_get_returns_the_record_for_every_direction() {
    let mut store = SwapStore::new();
    let a = sample_record("id-a", SwapType::BtcToEvm, true);
    let b = sample_record("id-b", SwapType::EvmToBtc, false);
    let c = sample_record("id-c", SwapType::BtcToArkade, true);
    store.store(a.clone());
    store.store(b.clone());
    store.store(c.clone());

    assert_eq!(*store.get("id-a").unwrap(), a);
    assert_eq!(*store.get("id-b").unwrap(), b);
    assert_eq!(*store.get("id-c").unwrap(), c);
    assert!(store.get("id-d").is_none());
    assert_eq!(store.list().len(), 3);
    assert_eq!(store.get_all().len(), 3);
}

#[test]
fn storing_twice_keeps_one_row_with_the_latest_values() {
    let mut store = SwapStore::new();
    let first = sample_record("id-x", SwapType::EvmToBtc, false);
    let mut second = sample_record("id-x", SwapType::EvmToBtc, true);
    second.status = SwapStatus::ServerFunded;
    store.store(first);
    store.store(second.clone());

    assert_eq!(store.list(), vec!["id-x".to_string()]);
    assert_eq!(store.get_all().len(), 1);
    assert_eq!(*store.get("id-x").unwrap(), second);

    store.delete("id-x");
    assert!(store.get("id-x").is_none());
    assert_eq!(store.list().len(), 0);
    store.delete("id-x");
    assert_eq!(store.list().len(), 0);
}

#[test]
fn a_swap_that_changes_direction_moves_tables_without_a_stale_row() {
    let mut store = SwapStore::new();
    store.store(sample_record("id-m", SwapType::BtcToEvm, false));
    let moved = sample_record("id-m", SwapType::BtcToArkade, true);
    store.store(moved.clone());
    assert_eq!(store.list().len(), 1);
    assert_eq!(store.get_all().len(), 1);
    assert_eq!(*store.get("id-m").unwrap(), moved);
}

#[test]
fn per_direction_claim_flags_follow_status_and_direction() {
    let mut sell = sample_record("id-s", SwapType::BtcToEvm, false);
    sell.status = SwapStatus::ServerFunded;
    assert!(sell.can_claim_gelato());
    assert!(!sell.can_claim_vhtlc());
    assert!(!sell.can_refund());

    let mut buy = sample_record("id-b", SwapType::EvmToBtc, false);
    buy.status = SwapStatus::ServerFunded;
    assert!(buy.can_claim_vhtlc());
    assert!(!buy.can_claim_gelato());

    buy.status = SwapStatus::ClientInvalidFunded;
    assert!(!buy.can_claim_vhtlc());
    assert!(buy.can_refund());
}

#[test]
fn swap_type_names_parse_back() {
    assert_eq!(SwapType::BtcToEvm.as_str(), "BtcToEvm");
    assert_eq!(SwapType::from_str("EvmToBtc"), Some(SwapType::EvmToBtc));
    assert_eq!(SwapType::from_str("BtcToArkade"), Some(SwapType::BtcToArkade));
    assert_eq!(SwapType::from_str("Sideways"), None);
}

#[test]
fn swap_params_survive_their_hex_columns() {
    let secp = bitcoin::secp256k1::Secp256k1::new();
    let keypair = bitcoin::key::Keypair::new(&secp, &mut bitcoin::secp256k1::rand::rngs::OsRng);
    let params = SwapParams {
        secret_key: keypair.secret_bytes().to_vec(),
        public_key: keypair.public_key().serialize().to_vec(),
        preimage: vec![0xaa; 32],
        preimage_hash: vec![0xbb; 32],
        user_id: keypair.public_key().serialize().to_vec(),
        key_index: 7,
    };
    let row = encode_swap_params(&params);
    assert_eq!(row.secret_key, hex::encode(&params.secret_key));
    let back = parse_swap_params(
        &row.secret_key,
        &row.public_key,
        &row.preimage,
        &row.preimage_hash,
        &row.user_id,
        row.key_index,
    )
    .unwrap();
    assert_eq!(back, params);

    assert!(parse_swap_params("zz", &row.public_key, &row.preimage, &row.preimage_hash, &row.user_id, 0).is_err());
    assert!(parse_swap_params(&row.secret_key, &row.public_key, "aabb", &row.preimage_hash, &row.user_id, 0).is_err());
    assert!(parse_swap_params(&row.secret_key, &row.public_key, &row.preimage, &row.preimage_hash, &row.user_id, -1).is_err());
}

#[test]
fn vtxo_swap_rows_parse_back_exactly() {
    let secp = bitcoin::secp256k1::Secp256k1::new();
    let keypair = bitcoin::key::Keypair::new(&secp, &mut bitcoin::secp256k1::rand::rngs::OsRng);
    let row = VtxoSwapRow {
        swap_id: "4eb2ce13-7b6d-4f28-a1c2-00aa55ee77dd".to_string(),
        status: "ServerFunded".to_string(),
        created_at: "2024-05-01T00:00:00Z".to_string(),
        client_vhtlc_address: "tark1q0sl5k2aa".to_string(),
        client_fund_amount_sats: 5000,
        client_pk: "02aa".to_string(),
        client_locktime: 100,
        client_unilateral_claim_delay: 1,
        client_unilateral_refund_delay: 2,
        client_unilateral_refund_without_receiver_delay: 3,
        server_vhtlc_address: "tark1qqqqqqqq".to_string(),
        server_fund_amount_sats: 4000,
        server_pk: "02bb".to_string(),
        server_locktime: 200,
        server_unilateral_claim_delay: 4,
        server_unilateral_refund_delay: 5,
        server_unilateral_refund_without_receiver_delay: 6,
        arkade_server_pk: "02cc".to_string(),
        preimage_hash_response: "dd".to_string(),
        fee_sats: 21,
        network: "signet".to_string(),
        secret_key: hex::encode(keypair.secret_bytes()),
        public_key: hex::encode(keypair.public_key().serialize()),
        preimage: hex::encode([0xaau8; 32]),
        preimage_hash_params: hex::encode([0xbbu8; 32]),
        user_id: hex::encode(keypair.public_key().serialize()),
        key_index: 7,
    };
    let rec = parse_vtxo_swap_row(&row).unwrap();
    assert_eq!(rec.id, "4eb2ce13-7b6d-4f28-a1c2-00aa55ee77dd");
    assert_eq!(rec.status, VtxoSwapStatus::ServerFunded);
    assert_eq!(rec.client_locktime, 100);
    assert_eq!(rec.server_fund_amount_sats, 4000);
    assert_eq!(rec.params.key_index, 7);

    let mut bad = VtxoSwapRow { status: "ClientFundingSeen".to_string(), ..row };
    assert!(parse_vtxo_swap_row(&bad).is_err());
    bad.status = "ServerFunded".to_string();
    bad.client_locktime = -1;
    assert!(parse_vtxo_swap_row(&bad).is_err());
    bad.client_locktime = 100;
    bad.swap_id = "not-a-uuid".to_string();
    assert!(parse_vtxo_swap_row(&bad).is_err());
    bad.swap_id = "4eb2ce13-7b6d-4f28-a1c2-00aa55ee77dd".to_string();
    bad.created_at = "yesterday".to_string();
    assert!(parse_vtxo_swap_row(&bad).is_err());
    bad.created_at = "2024-05-01T00:00:00.123+02:00".to_string();
    assert!(parse_vtxo_swap_row(&bad).is_ok());
}
