use remote_wallet::keys::Pubkey;
use remote_wallet::locator::{Locator, Manufacturer};
use remote_wallet::remote_wallet::{is_valid_hid_device, RemoteWalletInfo};

fn new_rand() -> (Pubkey, String) {
    let k = solana_sdk::pubkey::new_rand();
    (Pubkey::new_from_array(k.to_bytes()), k.to_string())
}

#[test]
fn test_parse_locator() {
    let (pubkey, _) = new_rand();
    let locator = Locator { manufacturer: Manufacturer::Ledger, pubkey: Some(pubkey) };
    let wallet_info = RemoteWalletInfo::parse_locator(locator);
    assert!(wallet_info.matches(&RemoteWalletInfo {
        model: "nano-s".to_string(),
        manufacturer: Manufacturer::Ledger,
        serial: "".to_string(),
        host_device_path: "/host/device/path".to_string(),
        pubkey,
        error: None,
    }));

    let locator = Locator { manufacturer: Manufacturer::Ledger, pubkey: None };
    let wallet_info = RemoteWalletInfo::parse_locator(locator);
    assert!(wallet_info.matches(&RemoteWalletInfo {
        model: "nano-s".to_string(),
        manufacturer: Manufacturer::Ledger,
        serial: "".to_string(),
        host_device_path: "/host/device/path".to_string(),
        pubkey: Pubkey::default(),
        error: None,
    }));
}

#[test]
fn test_remote_wallet_info_matches() {
    let (pubkey, _) = new_rand();
    let info = RemoteWalletInfo {
        manufacturer: Manufacturer::Ledger,
        model: "Nano S".to_string(),
        serial: "0001".to_string(),
        host_device_path: "/host/device/path".to_string(),
        pubkey,
        error: None,
    };
    let mut test_info = RemoteWalletInfo { manufacturer: Manufacturer::Unknown, ..RemoteWalletInfo::default() };
    assert!(!info.matches(&test_info));
    test_info.manufacturer = Manufacturer::Ledger;
    assert!(info.matches(&test_info));
    test_info.model = "Other".to_string();
    assert!(info.matches(&test_info));
    test_info.model = "Nano S".to_string();
    assert!(info.matches(&test_info));
    test_info.host_device_path = "/host/device/path".to_string();
    assert!(info.matches(&test_info));
    let (another_pubkey, _) = new_rand();
    test_info.pubkey = another_pubkey;
    assert!(!info.matches(&test_info));
    test_info.pubkey = pubkey;
    assert!(info.matches(&test_info));
}

#[test]
fn test_get_pretty_path() {
    let (pubkey, pubkey_str) = new_rand();
    let remote_wallet_info = RemoteWalletInfo {
        model: "nano-s".to_string(),
        manufacturer: Manufacturer::Ledger,
        serial: "".to_string(),
        host_device_path: "/host/device/path".to_string(),
        pubkey,
        error: None,
    };
    assert_eq!(remote_wallet_info.get_pretty_path(), format!("usb://ledger/{pubkey_str}"));
}

#[test]
fn matching_is_symmetric_on_concrete_values() {
    let (k1, _) = new_rand();
    let a = RemoteWalletInfo { manufacturer: Manufacturer::Keystone, pubkey: k1, ..RemoteWalletInfo::default() };
    let b = RemoteWalletInfo { manufacturer: Manufacturer::Keystone, ..RemoteWalletInfo::default() };
    assert_eq!(a.matches(&b), b.matches(&a));
    assert!(a.matches(&a));
}

#[test]
fn hid_devices_are_recognized_by_usage_page_or_class() {
    assert!(is_valid_hid_device(0xFF00, 5));
    assert!(is_valid_hid_device(0x0001, 0));
    assert!(!is_valid_hid_device(0x0001, 1));
}

#[test]
fn readiness_needs_a_key_and_no_error() {
    let (k, _) = new_rand();
    let mut info = RemoteWalletInfo { pubkey: k, ..RemoteWalletInfo::default() };
    assert!(info.is_ready());
    assert!(!info.has_error());
    assert_eq!(info.error_message(), None);
    info.error = Some(remote_wallet::errors::RemoteWalletError::NoDeviceFound);
    assert!(!info.is_ready());
    assert_eq!(info.error_message(), Some("no device found".to_string()));
    assert!(!RemoteWalletInfo::default().is_ready());
}
