use remote_wallet::keys::{DerivationPath, Pubkey};
use remote_wallet::ur_protocol::{
    export_pubkey_json, CryptoKeypath, CryptoSignature, KeypathComponent, SolanaInstructionForm,
    SolanaTransactionForm, URProtocol, URProtocolError, UR,
};
use remote_wallet::keys::Signature;

#[test]
fn ur_protocol_test_derivation_path_parsing() {
    let path_str = "m/44'/501'/0'/0'";
    let components = URProtocol::parse_derivation_path(path_str).unwrap();

    assert_eq!(components.len(), 4);
    assert_eq!(components[0].index, 44);
    assert!(components[0].hardened);
    assert_eq!(components[1].index, 501);
    assert!(components[1].hardened);
    assert_eq!(components[2].index, 0);
    assert!(components[2].hardened);
    assert_eq!(components[3].index, 0);
    assert!(components[3].hardened);
}

#[test]
fn ur_protocol_test_ur_encoding_decoding() {
    let ur = UR {
        ur_type: "crypto-test".to_string(),
        cbor_data: b"test data".to_vec(),
    };

    let encoded = URProtocol::encode_ur(&ur).unwrap();
    let decoded = URProtocol::decode_ur(&encoded).unwrap();

    assert_eq!(ur.ur_type, decoded.ur_type);
    assert_eq!(ur.cbor_data, decoded.cbor_data);
}

#[test]
fn test_solana_sign_request_creation() {
    let from_pubkey = solana_sdk::pubkey::Pubkey::new_unique();
    let to_pubkey = solana_sdk::pubkey::Pubkey::new_unique();
    let message = solana_sdk::message::Message::new(
        &[solana_sdk::system_instruction::transfer(&from_pubkey, &to_pubkey, 1000)],
        Some(&from_pubkey),
    );

    let derivation_path = DerivationPath::new_bip44(Some(0), Some(0));
    let ur = URProtocol::create_solana_sign_request(&message, &derivation_path).unwrap();

    assert_eq!(ur.ur_type, "crypto-sign-request");
    assert!(!ur.cbor_data.is_empty());
}

#[test]
fn encode_ur_writes_type_colon_base64() {
    let ur = UR { ur_type: "crypto-test".to_string(), cbor_data: b"test data".to_vec() };
    assert_eq!(URProtocol::encode_ur(&ur).unwrap(), "crypto-test:dGVzdCBkYXRh");
}

#[test]
fn decode_ur_rejects_missing_or_extra_colons() {
    match URProtocol::decode_ur("no-colon-here") {
        Err(URProtocolError::InvalidURFormat(m)) => assert_eq!(m, "Invalid UR string format"),
        other => panic!("unexpected {:?}", other),
    }
    match URProtocol::decode_ur("a:b:c") {
        Err(URProtocolError::InvalidURFormat(m)) => assert_eq!(m, "Invalid UR string format"),
        other => panic!("unexpected {:?}", other),
    }
}

#[test]
fn decode_ur_rejects_bad_base64() {
    match URProtocol::decode_ur("crypto-test:!!!") {
        Err(URProtocolError::InvalidURFormat(m)) => assert!(m.starts_with("Invalid base64: ")),
        other => panic!("unexpected {:?}", other),
    }
}

#[test]
fn parse_derivation_path_edge_cases() {
    assert!(URProtocol::parse_derivation_path("").unwrap().is_empty());
    let c = URProtocol::parse_derivation_path("44/7'").unwrap();
    assert_eq!(c.len(), 2);
    assert_eq!((c[0].index, c[0].hardened), (44, false));
    assert_eq!((c[1].index, c[1].hardened), (7, true));
    match URProtocol::parse_derivation_path("m/x'") {
        Err(URProtocolError::InvalidURFormat(m)) => {
            assert_eq!(m, "Invalid index: invalid digit found in string")
        }
        other => panic!("unexpected {:?}", other),
    }
    assert!(URProtocol::parse_derivation_path("m/4294967296").is_err());
}

#[test]
fn validate_ur_accepts_known_types_only() {
    for t in [
        "crypto-sign-request",
        "crypto-signature",
        "crypto-pubkey",
        "crypto-account",
        "crypto-transaction",
        "crypto-request",
    ] {
        let ur = UR { ur_type: t.to_string(), cbor_data: vec![] };
        assert!(URProtocol::validate_ur(&ur).is_ok());
    }
    let ur = UR { ur_type: "crypto-test".to_string(), cbor_data: vec![] };
    match URProtocol::validate_ur(&ur) {
        Err(URProtocolError::UnsupportedURType(t)) => assert_eq!(t, "crypto-test"),
        other => panic!("unexpected {:?}", other),
    }
}

#[test]
fn parse_signature_response_checks_type_and_length() {
    let ur = UR { ur_type: "crypto-signature".to_string(), cbor_data: vec![] };
    let good = CryptoSignature { signature: vec![7u8; 64], public_key: vec![], label: None };
    let sig = URProtocol::parse_signature_response(&ur, Ok(good)).unwrap();
    assert_eq!(sig.bytes, [7u8; 64]);
    let short = CryptoSignature { signature: vec![7u8; 63], public_key: vec![], label: None };
    match URProtocol::parse_signature_response(&ur, Ok(short)) {
        Err(URProtocolError::InvalidURFormat(m)) => assert_eq!(m, "Invalid signature length"),
        other => panic!("unexpected {:?}", other),
    }
    let other_type = UR { ur_type: "crypto-pubkey".to_string(), cbor_data: vec![] };
    assert!(matches!(
        URProtocol::parse_signature_response(&other_type, Err("x".to_string())),
        Err(URProtocolError::UnsupportedURType(_))
    ));
}

#[test]
fn parse_pubkey_response_reads_json_and_cbor() {
    let key = solana_sdk::pubkey::Pubkey::new_unique();
    let json = format!("{{\"pubkey\":\"{}\"}}", key);
    let ur = UR { ur_type: "crypto-pubkey".to_string(), cbor_data: json.into_bytes() };
    let k = URProtocol::parse_pubkey_response(&ur).unwrap();
    assert_eq!(k.bytes, key.to_bytes());

    let bytes = vec![5u8; 32];
    let cbor = serde_cbor::to_vec(&serde_bytes_like(&bytes)).unwrap();
    let ur = UR { ur_type: "crypto-account".to_string(), cbor_data: cbor };
    let k = URProtocol::parse_pubkey_response(&ur).unwrap();
    assert_eq!(k, Pubkey::new_from_array([5u8; 32]));

    let ur = UR { ur_type: "crypto-test".to_string(), cbor_data: vec![] };
    assert!(matches!(
        URProtocol::parse_pubkey_response(&ur),
        Err(URProtocolError::UnsupportedURType(_))
    ));
}

fn serde_bytes_like(v: &[u8]) -> Vec<u8> {
    v.to_vec()
}

#[test]
fn keypath_of_derivation_path_reads_its_query() {
    let path = DerivationPath::new_bip44(None, None);
    let keypath = URProtocol::derivation_path_to_crypto_keypath(&path).unwrap();
    assert!(keypath.components.is_empty());
    assert_eq!(keypath.depth, Some(0));
    assert_eq!(keypath.source_fingerprint, None);

    let path = DerivationPath::new_bip44(Some(3), Some(1));
    match URProtocol::derivation_path_to_crypto_keypath(&path) {
        Err(URProtocolError::InvalidURFormat(m)) => {
            assert_eq!(m, "Invalid index: invalid digit found in string")
        }
        other => panic!("unexpected {:?}", other),
    }
}

#[test]
fn derivation_path_of_keypath() {
    let keypath = remote_wallet::ur_protocol::CryptoKeypath {
        components: vec![
            remote_wallet::ur_protocol::KeypathComponent { index: 3, hardened: true },
            remote_wallet::ur_protocol::KeypathComponent { index: 1, hardened: true },
        ],
        source_fingerprint: None,
        depth: Some(2),
    };
    let path = URProtocol::crypto_keypath_to_derivation_path(&keypath).unwrap();
    assert_eq!(path, DerivationPath::new_bip44(Some(3), Some(1)));
}

#[test]
fn export_pubkey_request_is_the_cbor_of_its_json_request() {
    use_keypath_text();
    let path = DerivationPath::new_bip44(None, None);
    let mut kp = serde_json::Map::new();
    kp.insert("components".to_string(), serde_json::Value::Array(vec![]));
    kp.insert("source_fingerprint".to_string(), serde_json::Value::Null);
    kp.insert("depth".to_string(), serde_json::Value::from(0u64));
    let mut req = serde_json::Map::new();
    req.insert("type".to_string(), serde_json::Value::from("export-pubkey"));
    req.insert("chain".to_string(), serde_json::Value::from("solana"));
    req.insert("derivation_path".to_string(), serde_json::Value::Object(kp));
    let expected = serde_cbor::to_vec(&serde_json::Value::Object(req)).unwrap();
    let ur = URProtocol::create_export_pubkey_request(&path).unwrap();
    assert_eq!(ur.ur_type, "crypto-request");
    assert_eq!(ur.cbor_data, expected);
    let with_account = DerivationPath::new_bip44(Some(0), None);
    assert!(matches!(
        URProtocol::create_export_pubkey_request(&with_account),
        Err(URProtocolError::InvalidURFormat(_))
    ));
}

fn use_keypath_text() {
    let keypath = CryptoKeypath {
        components: vec![
            KeypathComponent { index: 44, hardened: true },
            KeypathComponent { index: 7, hardened: false },
        ],
        source_fingerprint: Some(9),
        depth: None,
    };
    assert_eq!(
        export_pubkey_json(&keypath),
        "{\"type\":\"export-pubkey\",\"chain\":\"solana\",\"derivation_path\":{\"components\":[{\"index\":44,\"hardened\":true},{\"index\":7,\"hardened\":false}],\"source_fingerprint\":9,\"depth\":null}}"
    );
}

fn text(v: &str) -> serde_json::Value {
    serde_json::Value::from(v)
}

fn object(entries: Vec<(&str, serde_json::Value)>) -> serde_json::Value {
    let mut m = serde_json::Map::new();
    for (k, v) in entries {
        m.insert(k.to_string(), v);
    }
    serde_json::Value::Object(m)
}

#[test]
#[allow(deprecated)]
fn transaction_ur_is_the_cbor_of_its_json_description() {
    let tx = SolanaTransactionForm {
        num_required_signatures: 1,
        num_readonly_signed_accounts: 0,
        num_readonly_unsigned_accounts: 2,
        account_keys: vec![Pubkey { bytes: [1; 32] }, Pubkey { bytes: [5; 32] }],
        recent_blockhash: [2; 32],
        instructions: vec![SolanaInstructionForm { program_id_index: 1, accounts: vec![0, 1], data: vec![1, 2, 3] }],
        signatures: vec![Signature { bytes: [3; 64] }],
    };
    let key1 = solana_sdk::pubkey::Pubkey::new_from_array([1; 32]).to_string();
    let key2 = solana_sdk::pubkey::Pubkey::new_from_array([5; 32]).to_string();
    let hash = solana_sdk::hash::Hash::new_from_array([2; 32]).to_string();
    let expected = object(vec![
        ("type", text("solana-transaction")),
        (
            "transaction",
            object(vec![
                (
                    "message",
                    object(vec![
                        (
                            "header",
                            object(vec![
                                ("num_required_signatures", serde_json::Value::from(1u8)),
                                ("num_readonly_signed_accounts", serde_json::Value::from(0u8)),
                                ("num_readonly_unsigned_accounts", serde_json::Value::from(2u8)),
                            ]),
                        ),
                        ("account_keys", serde_json::Value::Array(vec![text(&key1), text(&key2)])),
                        ("recent_blockhash", text(&hash)),
                        (
                            "instructions",
                            serde_json::Value::Array(vec![object(vec![
                                ("program_id_index", serde_json::Value::from(1u8)),
                                ("accounts", serde_json::Value::from(vec![0u8, 1u8])),
                                ("data", text(&base64::encode([1u8, 2, 3]))),
                            ])]),
                        ),
                    ]),
                ),
                ("signatures", serde_json::Value::Array(vec![text(&base64::encode([3u8; 64]))])),
            ]),
        ),
    ]);
    let ur = URProtocol::create_solana_transaction_ur(&tx).unwrap();
    assert_eq!(ur.ur_type, "crypto-transaction");
    assert_eq!(ur.cbor_data, serde_cbor::to_vec(&expected).unwrap());
}

#[test]
fn empty_path_segments_are_skipped() {
    let plain = URProtocol::parse_derivation_path("44'/501'/7").unwrap();
    assert_eq!(URProtocol::parse_derivation_path("/44'/501'/7").unwrap(), plain);
    assert_eq!(URProtocol::parse_derivation_path("44'/501'/7/").unwrap(), plain);
    assert_eq!(URProtocol::parse_derivation_path("44'//501'/7").unwrap(), plain);
    assert_eq!(URProtocol::parse_derivation_path("/").unwrap(), vec![]);
}

#[test]
fn encoded_urs_decode_to_themselves() {
    let ur = UR { ur_type: "crypto-test".to_string(), cbor_data: vec![0, 1, 2, 255, 58] };
    let text = URProtocol::encode_ur(&ur).unwrap();
    let back = URProtocol::decode_ur(&text).unwrap();
    assert_eq!(back.ur_type, ur.ur_type);
    assert_eq!(back.cbor_data, ur.cbor_data);
}
