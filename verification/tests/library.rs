use scapi::bytes::Endianness;
use scapi::client::{classify_response, request_url, QubicClientConfig, ResponseClass};
use scapi::decoder::hex_text;
use scapi::qubic_transactions::{
    ByteEncodingError, RawTransaction, TransactionBuilder, TransactionData, TransactionWithData,
};
use scapi::qubic_types::{QubicError, QubicId, QubicWallet, Signature};
use scapi::reader::{BinaryReader, DecodeError, GetFeesOutput};
use scapi::relay::{
    approval_result, begin_connect, check_config, finish_connect, simulate_answer, ClientState, connection_endpoints, handle_relay_message, pairing_uri,
    proposal_expiry, simulated_session, topic_to_poll, with_derived_topic,
    with_session_established, ApprovalOutcome, RelayAction, RelayMessage, RelayState, TopicKind,
};
use scapi::rpc::{
    build_query_request, decode_query_response, join_url, query_smart_contract_url,
    resolve_rpc_base_url, QueryResponsePossible, DEFAULT_QUBIC_RPC_QUERY,
};
use scapi::sc_api::{PayloadBuilder, RequestDataBuilder};
use scapi::session::Session;
use scapi::transaction::{build_unsigned_transaction, transaction_bytes, TransactionError, TransactionParams};
use scapi::wallet_connect::{
    build_relay_endpoints, QubicEvent, QubicMethod, QubicNamespace, WalletConnectConfig,
    WalletConnectError, WalletConnectEvent,
};

const ZERO_IDENTITY: &str = "AAAAAAAAAAAAAAAAAAAAAAAAAAAAAAAAAAAAAAAAAAAAAAAAAAAAAAAAFXIB";

#[test]
fn join_url_normalizes_slashes() {
    assert_eq!(
        join_url("https://rpc.qubic.org/live/v1/", "tick-info"),
        "https://rpc.qubic.org/live/v1/tick-info"
    );
    assert_eq!(
        join_url("https://rpc.qubic.org/live/v1", "/tick-info"),
        "https://rpc.qubic.org/live/v1/tick-info"
    );
    assert_eq!(
        join_url("https://rpc.qubic.org/live/v1/", "/tick-info"),
        "https://rpc.qubic.org/live/v1/tick-info"
    );
}

#[test]
fn join_url_collapses_repeated_slashes() {
    assert_eq!(join_url("https://a.org///", "///x"), "https://a.org/x");
    assert_eq!(join_url("", ""), "/");
}

#[test]
fn zero_key_has_the_burn_identity() {
    let id = QubicId([0u8; 32]);
    assert_eq!(id.get_identity(), ZERO_IDENTITY);
}

#[test]
fn identity_text_parses_back_to_the_key() {
    assert_eq!(QubicId::from_str(ZERO_IDENTITY).unwrap(), QubicId([0u8; 32]));
    let mut key = [0u8; 32];
    for (i, b) in key.iter_mut().enumerate() {
        *b = (i as u8).wrapping_mul(37).wrapping_add(11);
    }
    let id = QubicId(key);
    let text = id.get_identity();
    assert_eq!(text.len(), 60);
    assert!(text.chars().all(|c| c.is_ascii_uppercase()));
    assert_eq!(QubicId::from_str(&text).unwrap(), id);
}

#[test]
fn identity_from_str_errors() {
    assert_eq!(
        QubicId::from_str("aaaa"),
        Err(QubicError::InvalidIdFormatError { ident: "ID" })
    );
    assert_eq!(
        QubicId::from_str("ABC"),
        Err(QubicError::InvalidIdLengthError { ident: "ID", expected: 60, found: 3 })
    );
}

#[test]
fn contract_ids_are_little_endian_words() {
    let id = QubicId::from_contract_id(0x0102_0304);
    let mut expected = [0u8; 32];
    expected[0] = 4;
    expected[1] = 3;
    expected[2] = 2;
    expected[3] = 1;
    assert_eq!(id, QubicId(expected));
    let id = QubicId::from_le_u64([1, 2, 3, 4]);
    assert_eq!(id.0[0], 1);
    assert_eq!(id.0[8], 2);
    assert_eq!(id.0[16], 3);
    assert_eq!(id.0[24], 4);
}

#[test]
fn seed_errors_and_subseed() {
    assert_eq!(
        QubicWallet::get_subseed("ABC"),
        Err(QubicError::InvalidIdFormatError { ident: "SEED" })
    );
    assert_eq!(
        QubicWallet::get_subseed("abc"),
        Err(QubicError::InvalidIdLengthError { ident: "SEED", expected: 55, found: 3 })
    );
    let seed = "a".repeat(55);
    let s1 = QubicWallet::get_subseed(&seed).unwrap();
    let s2 = QubicWallet::get_subseed(&"b".repeat(55)).unwrap();
    assert_ne!(s1, s2);
    assert_ne!(QubicWallet::get_private_key(&s1), s1);
}

fn sample_tx(payload: Vec<u8>) -> TransactionWithData {
    let params = TransactionParams::new(QubicId([1u8; 32]), QubicId([2u8; 32]), 1000)
        .with_tick(77)
        .with_input_type(3)
        .with_payload(payload);
    build_unsigned_transaction(&params).unwrap()
}

#[test]
fn transaction_bytes_round_trip() {
    let tx = sample_tx(vec![9, 8, 7]);
    let bytes = transaction_bytes(&tx);
    assert_eq!(bytes.len(), 80 + 3 + 64);
    assert_eq!(&bytes[0..32], &[1u8; 32]);
    assert_eq!(&bytes[32..64], &[2u8; 32]);
    assert_eq!(&bytes[64..72], &1000u64.to_le_bytes());
    assert_eq!(&bytes[72..76], &77u32.to_le_bytes());
    assert_eq!(&bytes[76..78], &3u16.to_le_bytes());
    assert_eq!(&bytes[78..80], &3u16.to_le_bytes());
    assert_eq!(&bytes[80..83], &[9, 8, 7]);
    let back = TransactionWithData::from_bytes(&bytes).unwrap();
    assert_eq!(back, tx);
    assert_eq!(back.to_bytes(), bytes);
    assert_eq!(back.get_signer(), &QubicId([1u8; 32]));
}

#[test]
fn transaction_without_payload_round_trip() {
    let tx = TransactionBuilder::new()
        .with_from_id(QubicId([5u8; 32]))
        .with_to_id(QubicId([6u8; 32]))
        .with_amount(1)
        .with_tick(2)
        .build();
    let bytes = tx.to_bytes();
    assert_eq!(bytes.len(), 144);
    let back = TransactionWithData::from_bytes(&bytes).unwrap();
    assert_eq!(back.data, TransactionData::Empty);
    assert_eq!(back.raw_transaction, tx.raw_transaction);
}

#[test]
fn transaction_from_short_bytes_fails() {
    assert_eq!(
        TransactionWithData::from_bytes(&[0u8; 100]),
        Err(ByteEncodingError::InvalidMinimumDataLength { expected_min: 144, found: 100 })
    );
}

#[test]
fn transaction_digest_is_32_bytes_and_depends_on_content() {
    let a: [u8; 32] = sample_tx(vec![1]).into();
    let b: [u8; 32] = sample_tx(vec![2]).into();
    assert_ne!(a, b);
}

#[test]
fn oversized_payload_is_refused() {
    let params = TransactionParams::new(QubicId([1u8; 32]), QubicId([2u8; 32]), 1)
        .with_payload(vec![0u8; 65536]);
    match build_unsigned_transaction(&params) {
        Err(TransactionError::PayloadTooLarge { max, found }) => {
            assert_eq!(max, 65535);
            assert_eq!(found, 65536);
        }
        other => panic!("unexpected {:?}", other),
    }
    let params = TransactionParams::new(QubicId([1u8; 32]), QubicId([2u8; 32]), 1)
        .with_payload(vec![0u8; 65535]);
    let tx = build_unsigned_transaction(&params).unwrap();
    assert_eq!(tx.raw_transaction.input_size, 65535);
    assert_eq!(tx.signature, Signature([0u8; 64]));
}

#[test]
fn raw_transaction_header_is_eighty_bytes() {
    let raw = RawTransaction::default();
    assert_eq!(raw.to_bytes(), vec![0u8; 80]);
}

#[test]
fn hex_and_base64_outputs() {
    assert_eq!(hex_text(&[0x00, 0xab, 0x10]), "0x00ab10");
    assert_eq!(PayloadBuilder::new().add_bytes(&[1, 2, 3]).to_base64(), "AQID");
    assert_eq!(PayloadBuilder::new().add_bytes(&[0xff]).to_base64(), "/w==");
    assert_eq!(PayloadBuilder::new().add_bytes(&[0xfb, 0xef]).to_base64(), "++8=");
}

#[test]
fn written_integers_read_back() {
    for e in [Endianness::Little, Endianness::Big] {
        let bytes = PayloadBuilder::new()
            .with_endianness(e)
            .add_uint32(0xDEADBEEF)
            .add_int16(-2)
            .add_uint64(u64::MAX - 1)
            .add_bool(true)
            .to_bytes();
        let mut reader = BinaryReader::new(&bytes).with_endianness(e);
        assert_eq!(reader.read_u32().unwrap(), 0xDEADBEEF);
        assert_eq!(reader.read_i16().unwrap(), -2);
        assert_eq!(reader.read_u64().unwrap(), u64::MAX - 1);
        assert_eq!(reader.read_u8().unwrap(), 1);
        assert_eq!(reader.remaining(), 0);
    }
}

#[test]
fn m256i_words_are_one_integer() {
    let le = PayloadBuilder::new().add_m256i_from_u64x4(1, 2, 0, 0).to_bytes();
    assert_eq!(le.len(), 32);
    assert_eq!(le[0], 1);
    assert_eq!(le[8], 2);
    let be = RequestDataBuilder::new()
        .with_endianness(Endianness::Big)
        .add_m256i_from_u64x4(1, 2, 0, 0)
        .to_bytes();
    assert_eq!(be.len(), 32);
    assert_eq!(be[31], 1);
    assert_eq!(be[23], 2);
    let mut rev = le.clone();
    rev.reverse();
    assert_eq!(be, rev);
}

#[test]
fn read_errors_say_what_was_missing() {
    let data = [1u8, 2, 3];
    let mut reader = BinaryReader::new(&data);
    reader.read_u8().unwrap();
    assert_eq!(
        reader.read_u32(),
        Err(DecodeError::NotEnoughBytes { needed: 4, available: 2, position: 1 })
    );
    assert_eq!(reader.position(), 1);
}

#[test]
fn fees_output_decodes_five_bytes() {
    let data = [10u8, 20, 30, 40, 0];
    let fees = GetFeesOutput::decode(BinaryReader::new(&data)).unwrap();
    assert_eq!(fees.team_fee_percent, 10);
    assert_eq!(fees.distribution_fee_percent, 20);
    assert_eq!(fees.winner_fee_percent, 30);
    assert_eq!(fees.burn_percent, 40);
    assert_eq!(fees.return_code, 0);
    let short = [1u8, 2];
    assert_eq!(
        GetFeesOutput::decode(BinaryReader::new(&short)).unwrap_err(),
        DecodeError::NotEnoughBytes { needed: 1, available: 0, position: 2 }
    );
}

#[test]
fn relay_endpoints_are_normalized() {
    assert_eq!(
        build_relay_endpoints("wss://relay.walletconnect.org"),
        (
            "https://relay.walletconnect.org/rpc".to_string(),
            "https://relay.walletconnect.org".to_string()
        )
    );
    assert_eq!(
        build_relay_endpoints("  ws://localhost:8080/  "),
        ("http://localhost:8080/rpc".to_string(), "http://localhost:8080".to_string())
    );
    assert_eq!(
        build_relay_endpoints("relay.example.com"),
        ("https://relay.example.com/rpc".to_string(), "https://relay.example.com".to_string())
    );
    assert_eq!(
        build_relay_endpoints("://relay.example.com"),
        ("https://relay.example.com/rpc".to_string(), "https://relay.example.com".to_string())
    );
    let config = WalletConnectConfig::new("p".to_string(), "qubic:mainnet".to_string());
    assert_eq!(
        connection_endpoints(&config).1,
        "https://relay.walletconnect.org".to_string()
    );
}

#[test]
fn protocol_names() {
    assert_eq!(QubicMethod::SendQubic.as_str(), "qubic_sendQubic");
    assert_eq!(QubicMethod::all_methods().len(), 5);
    assert_eq!(QubicEvent::all_events(), vec!["amountChanged", "assetAmountChanged", "accountsChanged"]);
    assert_eq!(WalletConnectEvent::SessionPing.as_str(), "session_ping");
    let ns = QubicNamespace::new("qubic:mainnet".to_string());
    assert_eq!(ns.chains, vec!["qubic:mainnet".to_string()]);
    assert_eq!(ns.methods[4], "qubic_sign");
    assert_eq!(ns.events.len(), 3);
}

#[test]
fn client_config_defaults() {
    let c = QubicClientConfig::default();
    assert_eq!(c.live_url, "https://rpc.qubic.org/live/v1");
    assert_eq!(c.query_url, "https://rpc.qubic.org/query/v1");
    let c = c.stats_url("http://x".to_string());
    assert_eq!(c.stats_url, "http://x");
}

#[test]
fn rpc_urls_are_resolved_in_order() {
    assert_eq!(resolve_rpc_base_url(None, None), DEFAULT_QUBIC_RPC_QUERY);
    assert_eq!(resolve_rpc_base_url(None, Some("http://env".into())), "http://env");
    assert_eq!(
        resolve_rpc_base_url(Some("http://set".into()), Some("http://env".into())),
        "http://set"
    );
    assert_eq!(
        query_smart_contract_url(None, DEFAULT_QUBIC_RPC_QUERY),
        "https://rpc.qubic.org/live/v1/querySmartContract"
    );
    assert_eq!(query_smart_contract_url(Some("http://q".into()), "x"), "http://q");
}

#[test]
fn query_request_carries_base64_and_size() {
    let req = build_query_request(1, 2, &[1, 2, 3]);
    assert_eq!(req.contract_index, 1);
    assert_eq!(req.input_type, 2);
    assert_eq!(req.input_size, 3);
    assert_eq!(req.request_data, "AQID");
}

fn answer(response_data: Option<&str>, data: Option<&str>, result: Option<&str>) -> QueryResponsePossible {
    QueryResponsePossible {
        response_data: response_data.map(String::from),
        data: data.map(String::from),
        result: result.map(String::from),
    }
}

#[test]
fn query_answers_are_decoded() {
    let raw = b"{}".to_vec();
    assert_eq!(decode_query_response(raw.clone(), None), Ok(raw.clone()));
    assert_eq!(
        decode_query_response(raw.clone(), Some(answer(Some("AQID"), Some("BAUG"), None))),
        Ok(vec![1, 2, 3])
    );
    assert_eq!(
        decode_query_response(raw.clone(), Some(answer(None, Some("BAUG"), None))),
        Ok(vec![4, 5, 6])
    );
    let err = decode_query_response(raw.clone(), Some(answer(Some("***"), None, None))).unwrap_err();
    assert!(err.starts_with("Failed to decode base64 response: "));
    assert_eq!(
        decode_query_response(raw.clone(), Some(answer(None, None, Some("AQID")))),
        Ok(raw.clone())
    );
    assert_eq!(
        decode_query_response(raw.clone(), Some(answer(None, None, Some("not base64!")))),
        Ok(raw.clone())
    );
    assert_eq!(decode_query_response(raw.clone(), Some(answer(None, None, None))), Ok(raw));
}

fn session(expiry: u64, acknowledged: bool) -> Session {
    Session {
        topic: "t".to_string(),
        expiry,
        acknowledged,
        controller: "c".to_string(),
        namespaces: serde_json::Value::Null,
        relay_protocol: "irn".to_string(),
    }
}

#[test]
fn session_lifetime() {
    let s = session(100, true);
    assert!(!s.is_expired_at(100));
    assert!(s.is_expired_at(101));
    assert!(s.is_active_at(50));
    assert!(!session(100, false).is_active_at(50));
    assert_eq!(s.time_until_expiry_at(40), Some(60));
    assert_eq!(s.time_until_expiry_at(100), None);
    assert!(s.is_expired());
    assert!(!session(u64::MAX, true).is_expired());
    assert!(session(u64::MAX, true).is_active());
    assert!(session(u64::MAX, true).time_until_expiry().is_some());
}

#[test]
fn pairing_uri_format() {
    let mut key = [0u8; 32];
    key[0] = 0xab;
    let uri = pairing_uri("abcd", 1700000300, &key);
    assert_eq!(
        uri,
        format!("wc:abcd@2?expiryTimestamp=1700000300&relay-protocol=irn&symKey=ab{}", "00".repeat(31))
    );
    assert_eq!(proposal_expiry(1700000000), 1700000300);
    assert!(pairing_uri("t", 0, &key).contains("expiryTimestamp=0&"));
}

#[test]
fn config_needs_a_project_id() {
    let ok = WalletConnectConfig::new("p".to_string(), "c".to_string());
    assert!(check_config(&ok).is_ok());
    let bad = WalletConnectConfig::new(String::new(), "c".to_string());
    match check_config(&bad) {
        Err(WalletConnectError::Other(m)) => assert_eq!(m, "Project ID is required"),
        other => panic!("unexpected {:?}", other),
    }
}

fn relay_state() -> RelayState {
    RelayState {
        topic: "pair".to_string(),
        sym_key: [1u8; 32],
        derived_sym_key: None,
        derived_topic: None,
        session_established: false,
    }
}

#[test]
fn topics_to_poll() {
    let st = relay_state();
    assert_eq!(topic_to_poll(&st, TopicKind::Initial), Some(("pair".to_string(), [1u8; 32])));
    assert_eq!(topic_to_poll(&st, TopicKind::Derived), None);
    let st = with_derived_topic(st, [2u8; 32], "derived".to_string());
    assert_eq!(topic_to_poll(&st, TopicKind::Derived), Some(("derived".to_string(), [2u8; 32])));
    let st = with_session_established(st);
    assert!(st.session_established);
}

#[test]
fn proposal_answers_lead_to_the_derived_topic() {
    let st = relay_state();
    let key_hex = "0A".repeat(32);
    let msg = RelayMessage::SessionProposeResponse { responder_public_key: key_hex.clone() };
    match handle_relay_message(&st, TopicKind::Initial, msg) {
        Ok(RelayAction::SubscribeDerived { responder_public_key }) => {
            assert_eq!(responder_public_key, [10u8; 32])
        }
        other => panic!("unexpected {:?}", other),
    }
    let msg = RelayMessage::SessionProposeResponse { responder_public_key: key_hex.clone() };
    assert!(matches!(
        handle_relay_message(&st, TopicKind::Derived, msg),
        Ok(RelayAction::Ignore)
    ));
    let derived = with_derived_topic(relay_state(), [2u8; 32], "d".to_string());
    let msg = RelayMessage::SessionProposeResponse { responder_public_key: key_hex };
    assert!(matches!(
        handle_relay_message(&derived, TopicKind::Initial, msg),
        Ok(RelayAction::Ignore)
    ));
    let msg = RelayMessage::SessionProposeResponse { responder_public_key: "zz".to_string() };
    match handle_relay_message(&st, TopicKind::Initial, msg) {
        Err(WalletConnectError::Other(m)) => assert!(m.starts_with("Invalid responder public key: ")),
        other => panic!("unexpected {:?}", other),
    }
    let msg = RelayMessage::SessionProposeResponse { responder_public_key: "abcd".to_string() };
    match handle_relay_message(&st, TopicKind::Initial, msg) {
        Err(WalletConnectError::Other(m)) => {
            assert_eq!(m, "Responder public key must contain 32 bytes")
        }
        other => panic!("unexpected {:?}", other),
    }
}

#[test]
fn settlement_and_other_messages() {
    let st = with_derived_topic(relay_state(), [2u8; 32], "derived".to_string());
    let settle = || RelayMessage::SessionSettle {
        expiry: 99,
        controller_public_key: "ctl".to_string(),
        namespaces: serde_json::Value::Bool(true),
        relay_protocol: "irn".to_string(),
    };
    assert!(matches!(
        handle_relay_message(&st, TopicKind::Initial, settle()),
        Ok(RelayAction::Ignore)
    ));
    match handle_relay_message(&st, TopicKind::Derived, settle()) {
        Ok(RelayAction::EstablishSession { session }) => {
            assert_eq!(session.topic, "derived");
            assert_eq!(session.expiry, 99);
            assert!(session.acknowledged);
            assert_eq!(session.controller, "ctl");
            assert_eq!(session.namespaces, serde_json::Value::Bool(true));
        }
        other => panic!("unexpected {:?}", other),
    }
    let msg = RelayMessage::SessionRequest(serde_json::Value::Null);
    match handle_relay_message(&st, TopicKind::Initial, msg) {
        Ok(RelayAction::ForwardRequest { topic, .. }) => assert_eq!(topic, "pair"),
        other => panic!("unexpected {:?}", other),
    }
    let msg = RelayMessage::SessionRequest(serde_json::Value::Null);
    match handle_relay_message(&st, TopicKind::Derived, msg) {
        Ok(RelayAction::ForwardRequest { topic, .. }) => assert_eq!(topic, "derived"),
        other => panic!("unexpected {:?}", other),
    }
    let msg = RelayMessage::Error { code: -32000, message: "already connected".to_string() };
    match handle_relay_message(&st, TopicKind::Derived, msg) {
        Ok(RelayAction::Reject { error: WalletConnectError::ConnectionFailed(m) }) => {
            assert_eq!(m, "Wallet error (code -32000): already connected")
        }
        other => panic!("unexpected {:?}", other),
    }
    let msg = RelayMessage::Error { code: 5000, message: "no".to_string() };
    match handle_relay_message(&st, TopicKind::Initial, msg) {
        Ok(RelayAction::Reject { error: WalletConnectError::ConnectionFailed(m) }) => {
            assert_eq!(m, "Wallet error (code 5000): no")
        }
        other => panic!("unexpected {:?}", other),
    }
    assert!(matches!(
        handle_relay_message(&st, TopicKind::Derived, RelayMessage::SessionDelete(serde_json::Value::Null)),
        Ok(RelayAction::DeleteSession { .. })
    ));
    assert!(matches!(
        handle_relay_message(&st, TopicKind::Derived, RelayMessage::SessionSettleResult(true)),
        Ok(RelayAction::Ignore)
    ));
    assert!(matches!(
        handle_relay_message(&st, TopicKind::Derived, RelayMessage::Other),
        Ok(RelayAction::Ignore)
    ));
}

#[test]
fn approval_outcomes() {
    assert!(matches!(approval_result(ApprovalOutcome::Answered(true)), Ok(true)));
    assert!(matches!(approval_result(ApprovalOutcome::Answered(false)), Ok(false)));
    assert!(matches!(approval_result(ApprovalOutcome::TimedOut), Err(WalletConnectError::Timeout)));
    match approval_result(ApprovalOutcome::ChannelClosed) {
        Err(WalletConnectError::Other(m)) => assert_eq!(m, "Connection channel closed"),
        other => panic!("unexpected {:?}", other),
    }
    match approval_result(ApprovalOutcome::NoPendingConnection) {
        Err(WalletConnectError::Other(m)) => {
            assert_eq!(m, "No pending connection (did you call connect() first?)")
        }
        other => panic!("unexpected {:?}", other),
    }
}

#[test]
fn simulated_sessions_last_a_day() {
    let s = simulated_session("pair".to_string(), 1000, serde_json::Value::Null);
    assert_eq!(s.expiry, 1000 + 86400);
    assert_eq!(s.controller, "wallet");
    assert_eq!(s.relay_protocol, "irn");
    assert!(s.acknowledged);
}

#[test]
fn bob_endpoints_and_broadcast_bodies() {
    assert_eq!(scapi::bob::bob_endpoint_url("http://node:40420//"), "http://node:40420/qubic");
    assert_eq!(scapi::bob::DEFAULT_BOB_RPC_ENDPOINT, "http://localhost:40420/qubic");
    assert_eq!(scapi::rpc::encode_broadcast_request(&[1, 2, 3]).encoded_transaction, "AQID");
}

#[test]
fn signing_checks() {
    let params = TransactionParams::new(QubicId([1u8; 32]), QubicId([2u8; 32]), 5);
    assert!(scapi::transaction::check_signing_params(&params, &QubicId([1u8; 32])).is_ok());
    match scapi::transaction::check_signing_params(&params, &QubicId([3u8; 32])) {
        Err(TransactionError::SignerMismatch { expected, found }) => {
            assert_eq!(expected, QubicId([3u8; 32]));
            assert_eq!(found, QubicId([1u8; 32]));
        }
        other => panic!("unexpected {:?}", other),
    }
    let big = params.with_payload(vec![0u8; 70000]);
    assert!(matches!(
        scapi::transaction::check_signing_params(&big, &QubicId([3u8; 32])),
        Err(TransactionError::PayloadTooLarge { max: 65535, found: 70000 })
    ));
}

#[test]
fn connecting_cleans_up_and_records_the_pairing() {
    let fresh = ClientState::new();
    assert!(matches!(begin_connect(fresh), Err(WalletConnectError::NotInitialized)));
    let config = WalletConnectConfig::new("p".to_string(), "c".to_string());
    let mut st = ClientState::new().init(&config).unwrap();
    assert!(st.initialized);
    st.set_session(session(u64::MAX, true));
    st.connection_url = "wc:old".to_string();
    st.pairing_topic = "old".to_string();
    assert!(st.is_session_active());
    let st = begin_connect(st).unwrap();
    assert!(st.get_session().is_none());
    assert_eq!(st.get_connection_url(), "");
    assert_eq!(st.pairing_topic, "");
    let st = finish_connect(st, "topic".to_string(), "wc:topic@2".to_string());
    assert_eq!(st.get_connection_url(), "wc:topic@2");
    assert_eq!(st.pairing_topic, "topic");
    assert!(matches!(
        simulate_answer(ClientState::new(), false, true, 0, serde_json::Value::Null),
        Err(WalletConnectError::Other(m)) if m == "No pending connection to simulate"
    ));
    let mut st = simulate_answer(st, true, true, 1000, serde_json::Value::Null).unwrap();
    let s = st.get_session().unwrap();
    assert_eq!(s.topic, "topic");
    assert_eq!(s.expiry, 1000 + 86400);
    assert!(st.is_session_active_at(1000));
    assert_eq!(st.disconnect(), Some("topic".to_string()));
    assert!(st.get_session().is_none());
    assert_eq!(st.get_connection_url(), "");
    assert!(ClientState::new().init(&WalletConnectConfig::new(String::new(), "c".to_string())).is_err());
}

#[test]
fn request_urls_encode_each_segment() {
    let segs = vec![
        "v1".to_string(),
        "issuers".to_string(),
        "issuer /?".to_string(),
        "assets".to_string(),
        "QX&".to_string(),
        "owners".to_string(),
    ];
    assert_eq!(
        request_url("http://127.0.0.1:1/base/", &segs).unwrap(),
        "http://127.0.0.1:1/base/v1/issuers/issuer%20%2F%3F/assets/QX&/owners"
    );
    assert_eq!(request_url("not a url", &segs), None);
    assert_eq!(request_url("mailto:x@y", &segs), None);
}

#[test]
fn responses_are_sorted_by_status() {
    assert!(matches!(
        classify_response(200, "{}".to_string()),
        ResponseClass::Json { body } if body == "{}"
    ));
    assert!(matches!(
        classify_response(429, "quota exceeded".to_string()),
        ResponseClass::HttpError { status: 429, body } if body == "quota exceeded"
    ));
    assert!(matches!(classify_response(300, String::new()), ResponseClass::HttpError { .. }));
    assert!(matches!(classify_response(299, String::new()), ResponseClass::Json { .. }));
}

#[test]
fn both_builders_write_the_same_bytes() {
    for e in [Endianness::Little, Endianness::Big] {
        let p = PayloadBuilder::new()
            .with_endianness(e)
            .add_bool(true)
            .add_int16(-3)
            .add_uint64(77)
            .add_m256i_from_u64x4(1, 2, 3, 4)
            .add_bytes(&[9, 9])
            .to_bytes();
        let q = RequestDataBuilder::new()
            .with_endianness(e)
            .add_bool(true)
            .add_int16(-3)
            .add_uint64(77)
            .add_m256i_from_u64x4(1, 2, 3, 4)
            .add_bytes(&[9, 9])
            .to_bytes();
        assert_eq!(p, q);
    }
}

#[test]
fn identity_group_bounds() {
    assert!(scapi::qubic_types::identity_groups_fit(ZERO_IDENTITY));
    assert!(scapi::qubic_types::identity_groups_fit("not an identity"));
    assert!(!scapi::qubic_types::identity_groups_fit(&"Z".repeat(60)));
    let id = QubicId([0xffu8; 32]).get_identity();
    assert!(scapi::qubic_types::identity_groups_fit(&id));
}

#[test]
fn url_length_bound() {
    let segs = vec!["a".to_string(), "bc".to_string()];
    assert!(scapi::client::url_len_fits("http://x/", &segs));
    let big = vec!["x".repeat(400_000_000)];
    assert!(!scapi::client::url_len_fits("http://x/", &big));
}
