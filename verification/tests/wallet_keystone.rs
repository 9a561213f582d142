use remote_wallet::errors::RemoteWalletError;
use remote_wallet::keys::DerivationPath;
use remote_wallet::wallet::keystone::error::KeystoneError;
use remote_wallet::wallet::keystone::keystone::{
    extend_and_serialize, extend_and_serialize_multiple, extract_json, is_last_part,
    is_path_in_cached_range, pubkey_from_hex_payload, total_packets, KeystoneWallet, P2_EXTEND,
    P2_MORE,
};

#[test]
fn test_is_last_part() {
    assert!(is_last_part(0b00));
    assert!(is_last_part(0b01));
    assert!(is_last_part(0b101));
    assert!(is_last_part(0b1001));
    assert!(is_last_part(0b1101));

    assert!(!is_last_part(0b10));
    assert!(!is_last_part(0b11));
    assert!(!is_last_part(0b110));
    assert!(!is_last_part(0b111));
    assert!(!is_last_part(0b1010));

    let p2 = 0;
    assert!(is_last_part(p2));
    let p2 = P2_EXTEND | P2_MORE;
    assert!(!is_last_part(p2));
    assert!(is_last_part(p2 & !P2_MORE));
}

#[test]
fn test_parse_status() {
    KeystoneWallet::parse_status(0x9000).expect("unexpected result");
    if let RemoteWalletError::Protocol(err) = KeystoneWallet::parse_status(0x6985).unwrap_err() {
        assert_eq!(err, "Unknown error");
    }
    if let RemoteWalletError::Protocol(err) = KeystoneWallet::parse_status(0x6fff).unwrap_err() {
        assert_eq!(err, "Unknown error");
    }
}

#[test]
fn parse_status_maps_keystone_codes() {
    assert_eq!(
        KeystoneWallet::parse_status(0x6705),
        Err(RemoteWalletError::KeystoneError(KeystoneError::UserRejected))
    );
    assert_eq!(
        KeystoneWallet::parse_status(0x670D),
        Err(RemoteWalletError::KeystoneError(KeystoneError::InvalidSignature))
    );
}

#[test]
fn cached_range_covers_base_accounts_and_account_zero_changes() {
    assert!(is_path_in_cached_range(&DerivationPath::new_bip44(None, None)));
    assert!(is_path_in_cached_range(&DerivationPath::new_bip44(Some(49), None)));
    assert!(!is_path_in_cached_range(&DerivationPath::new_bip44(Some(50), None)));
    assert!(is_path_in_cached_range(&DerivationPath::new_bip44(Some(0), Some(49))));
    assert!(!is_path_in_cached_range(&DerivationPath::new_bip44(Some(0), Some(50))));
    assert!(!is_path_in_cached_range(&DerivationPath::new_bip44(Some(1), Some(0))));
    assert!(!is_path_in_cached_range(&DerivationPath { path: vec![] }));
}

#[test]
fn serialized_path_has_depth_and_big_endian_indices() {
    let p = DerivationPath::new_bip44(Some(1), Some(2));
    assert_eq!(
        extend_and_serialize(&p),
        vec![4, 0x80, 0, 0, 44, 0x80, 0, 0x01, 0xf5, 0x80, 0, 0, 1, 0x80, 0, 0, 2]
    );
    let base = DerivationPath::new_bip44(None, None);
    assert_eq!(extend_and_serialize(&base), vec![2, 0x80, 0, 0, 44, 0x80, 0, 0x01, 0xf5]);
    let both = extend_and_serialize_multiple(&[&base, &base]);
    assert_eq!(both[0], 2);
    assert_eq!(both.len(), 1 + 2 * 9);
}

#[test]
fn reply_json_is_cut_from_braces() {
    assert_eq!(extract_json("xx{\"a\":1}yy"), "{\"a\":1}");
    assert_eq!(extract_json("}{"), "}{");
    assert_eq!(extract_json("plain"), "plain");
}

#[test]
fn request_packet_count() {
    assert_eq!(total_packets(0), 1);
    assert_eq!(total_packets(11), 1);
    assert_eq!(total_packets(12), 1);
    assert_eq!(total_packets(54), 1);
    assert_eq!(total_packets(55), 2);
    assert_eq!(total_packets(108), 2);
}

#[test]
fn hex_payload_gives_key_or_error() {
    let hex_key = "05".repeat(32);
    let k = pubkey_from_hex_payload(&hex_key).unwrap();
    assert_eq!(k.bytes, [5u8; 32]);
    assert_eq!(
        pubkey_from_hex_payload("zz"),
        Err(RemoteWalletError::Protocol("Invalid hex data"))
    );
    assert_eq!(
        pubkey_from_hex_payload("0505"),
        Err(RemoteWalletError::Protocol("Key packet size mismatch"))
    );
    assert_eq!(
        pubkey_from_hex_payload("Device locked"),
        Err(RemoteWalletError::KeystoneError(KeystoneError::DeviceLocked))
    );
}
