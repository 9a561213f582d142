use remote_wallet::wallet::keystone::error::KeystoneError;

#[test]
fn messages_read_back_as_their_errors() {
    for e in [
        KeystoneError::NoAppResponse,
        KeystoneError::PreviousRequestNotFinished,
        KeystoneError::InvalidJson,
        KeystoneError::KeySizeMismatch,
        KeystoneError::DeviceNotConnected,
        KeystoneError::UserRejected,
        KeystoneError::InvalidDerivationPath,
        KeystoneError::TransactionSigningFailed,
        KeystoneError::MessageSigningFailed,
        KeystoneError::DeviceTimeout,
        KeystoneError::InvalidTransactionData,
        KeystoneError::UnsupportedOperation,
        KeystoneError::DeviceLocked,
        KeystoneError::InvalidSignature,
    ] {
        assert_eq!(KeystoneError::from_string(&e.message()), Ok(e));
    }
    assert!(KeystoneError::from_string("UR parsing rejected").is_err());
    for code in [0u16, 7, 0x6705, 0xffff] {
        let e = KeystoneError::Unknown { code };
        assert_eq!(KeystoneError::from_string(&e.message()), Ok(e));
    }
}

#[test]
fn unknown_codes_and_communication_errors() {
    assert_eq!(KeystoneError::from_string("Unknown error: 1234"), Ok(KeystoneError::Unknown { code: 1234 }));
    assert_eq!(KeystoneError::from_string("unknown error"), Ok(KeystoneError::Unknown { code: 0xffff }));
    assert_eq!(
        KeystoneError::from_string("Communication Error: x"),
        Ok(KeystoneError::CommunicationError { message: "communication error: x".to_string() })
    );
    assert_eq!(KeystoneError::from_string("nope"), Err("Unknown Keystone error: nope".to_string()));
    let parsed: KeystoneError = "device locked".parse().unwrap();
    assert_eq!(parsed, KeystoneError::DeviceLocked);
}

#[test]
fn codes_read_back_as_their_errors() {
    for code in 0x6700u64..=0x670D {
        let e = KeystoneError::from_u64(code).unwrap();
        assert_eq!(KeystoneError::from_usize(code as usize), Some(e));
    }
    assert_eq!(KeystoneError::from_u64(0x670E), None);
    assert_eq!(KeystoneError::from_i64(-1), None);
    assert_eq!(KeystoneError::from_i64(0x6705), Some(KeystoneError::UserRejected));
}

#[test]
fn error_messages_are_classified() {
    assert_eq!(KeystoneError::from_error_message("Request TIMEOUT"), KeystoneError::DeviceTimeout);
    assert_eq!(KeystoneError::from_error_message("User Cancelled"), KeystoneError::UserRejected);
    assert_eq!(
        KeystoneError::from_error_message("abc"),
        KeystoneError::CommunicationError { message: "abc".to_string() }
    );
    assert!(KeystoneError::from_error_message("abc").is_communication_error());
}
