use remote_wallet::errors::RemoteWalletError;
use remote_wallet::keystone::{is_valid_keystone, KeystoneError};
use remote_wallet::ur_protocol::{URProtocol, UR};

#[test]
fn test_is_valid_keystone() {
    assert!(is_valid_keystone(0x1209, 0x3001));
    assert!(!is_valid_keystone(0x1209, 0x3002));
    assert!(!is_valid_keystone(0x1208, 0x3001));
}

#[test]
fn test_keystone_error_conversion() {
    let keystone_error = KeystoneError::UsbError("test error".to_string());
    let remote_error: RemoteWalletError = keystone_error.into();

    match remote_error {
        RemoteWalletError::Hid(_) => (),
        _ => panic!("Expected Hid error"),
    }
}

#[test]
fn keystone_test_derivation_path_parsing() {
    let path_str = "m/44'/501'/0'/0'";
    let components = URProtocol::parse_derivation_path(path_str).unwrap();

    assert_eq!(components.len(), 4);
    assert_eq!(components[0].index, 44);
    assert!(components[0].hardened);
    assert_eq!(components[1].index, 501);
    assert!(components[1].hardened);
}

#[test]
fn keystone_test_ur_encoding_decoding() {
    let ur = UR {
        ur_type: "crypto-test".to_string(),
        cbor_data: b"test data".to_vec(),
    };

    let encoded = URProtocol::encode_ur(&ur).unwrap();
    let decoded = URProtocol::decode_ur(&encoded).unwrap();

    assert_eq!(ur.ur_type, decoded.ur_type);
    assert_eq!(ur.cbor_data, decoded.cbor_data);
}

#[test]
fn test_ur_protocol_integration() {
    let from_pubkey = solana_sdk::pubkey::Pubkey::new_unique();
    let to_pubkey = solana_sdk::pubkey::Pubkey::new_unique();
    let message = solana_sdk::message::Message::new(
        &[solana_sdk::system_instruction::transfer(&from_pubkey, &to_pubkey, 1000)],
        Some(&from_pubkey),
    );

    let derivation_path = remote_wallet::keys::DerivationPath::new_bip44(Some(0), Some(0));
    let ur = URProtocol::create_solana_sign_request(&message, &derivation_path).unwrap();

    assert_eq!(ur.ur_type, "crypto-sign-request");
    assert!(!ur.cbor_data.is_empty());
}

#[test]
fn keystone_errors_convert_through_from() {
    assert_eq!(
        RemoteWalletError::from(KeystoneError::DeviceLocked),
        RemoteWalletError::InvalidInput("Device is locked".to_string())
    );
    let e: RemoteWalletError = KeystoneError::NotConnected.into();
    assert_eq!(e, RemoteWalletError::NoDeviceFound);
}
