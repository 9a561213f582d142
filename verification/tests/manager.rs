use remote_wallet::errors::RemoteWalletError;
use remote_wallet::keys::Pubkey;
use remote_wallet::locator::Manufacturer;
use remote_wallet::remote_wallet::{PollStep, RemoteWalletInfo, RemoteWalletManager};
use remote_wallet::transport::mock_transport::MockTransport;
use remote_wallet::wallet::keystone::keystone::{keystone_choices, KeystoneWallet};
use remote_wallet::wallet::types::{Device, RemoteWalletType};
use remote_wallet::wallet_factory::wallet_helpers::{get_wallet_manufacturer, get_wallet_name};
use remote_wallet::wallet_factory::WalletFactory;
use std::rc::Rc;

fn info(path: &str, m: Manufacturer, key: u8, model: &str) -> RemoteWalletInfo {
    RemoteWalletInfo {
        model: model.to_string(),
        manufacturer: m,
        serial: String::new(),
        host_device_path: path.to_string(),
        pubkey: Pubkey::new_from_array([key; 32]),
        error: None,
    }
}

fn keystone_device(path: &str, key: u8) -> Device {
    let w = KeystoneWallet::new(Box::new(MockTransport::new()));
    Device::new(path.to_string(), info(path, Manufacturer::Keystone, key, "k"), RemoteWalletType::Keystone(Rc::new(w)))
}

#[test]
fn manager_keeps_and_finds_devices() {
    let mut m = RemoteWalletManager::new();
    assert!(!m.has_devices());
    assert_eq!(m.poll_step(&Ok(0)), PollStep::Retry);
    let added = m.replace_devices(vec![keystone_device("/a", 1), keystone_device("/b", 2)]);
    assert_eq!(added, 2);
    assert_eq!(m.device_count(), 2);
    assert_eq!(m.poll_step(&Ok(0)), PollStep::Connected);
    assert_eq!(m.poll_step(&Err(RemoteWalletError::NoDeviceFound)), PollStep::Retry);
    let list = m.list_devices();
    assert_eq!(list.len(), 2);
    assert_eq!(list[1].host_device_path, "/b");
    assert!(m.get_keystone("/b").is_ok());
    assert_eq!(m.get_keystone("/c").err(), Some(RemoteWalletError::PubkeyNotFound));
    assert_eq!(m.get_ledger("/a").err(), Some(RemoteWalletError::DeviceTypeMismatch));
    assert_eq!(m.get_wallet_info(&Pubkey::new_from_array([2; 32])).unwrap().host_device_path, "/b");
    assert!(m.get_wallet_info(&Pubkey::new_from_array([3; 32])).is_none());
    assert_eq!(m.get_devices_by_manufacturer(&Manufacturer::Keystone).len(), 2);
    assert!(m.get_devices_by_manufacturer(&Manufacturer::Ledger).is_empty());
    assert_eq!(m.get_first_available_wallet().unwrap().host_device_path, "/a");
}

#[test]
fn choices_are_sorted_and_skip_failed_devices() {
    let target = RemoteWalletInfo { manufacturer: Manufacturer::Keystone, ..RemoteWalletInfo::default() };
    let mut failed = info("/z", Manufacturer::Keystone, 9, "x");
    failed.error = Some(RemoteWalletError::NoDeviceFound);
    let devices = vec![
        info("/b", Manufacturer::Keystone, 2, "b"),
        info("/l", Manufacturer::Ledger, 3, "l"),
        failed.clone(),
        info("/a", Manufacturer::Keystone, 1, "a"),
    ];
    let choices = keystone_choices(&devices, &target).unwrap();
    assert_eq!(choices.len(), 2);
    assert!(choices[0].1 <= choices[1].1);
    for (path, line) in &choices {
        assert!(line.starts_with("usb://keystone/"));
        assert!(path == "/a" || path == "/b");
    }
    assert_eq!(keystone_choices(&vec![failed.clone()], &target), Err(RemoteWalletError::NoDeviceFound));
    assert_eq!(keystone_choices(&vec![], &target), Err(RemoteWalletError::NoDeviceFound));
    let target_ledger = RemoteWalletInfo { manufacturer: Manufacturer::Ledger, ..RemoteWalletInfo::default() };
    let choices = keystone_choices(&devices, &target_ledger).unwrap();
    assert_eq!(choices[0].0, "/l");
    assert!(choices[0].1.ends_with(" (l)"));
}

#[test]
fn factory_names_and_support() {
    assert_eq!(WalletFactory::supported_manufacturers(), vec!["ledger", "keystone", "trezor"]);
    assert!(WalletFactory::is_supported("keystone"));
    assert!(WalletFactory::is_supported("trezor"));
    assert!(!WalletFactory::is_supported("Ledger"));
    let k = info("/a", Manufacturer::Keystone, 1, "k");
    assert!(WalletFactory::creation_support(&k).is_ok());
    let l = info("/a", Manufacturer::Ledger, 1, "l");
    assert_eq!(
        WalletFactory::creation_support(&l),
        Err(RemoteWalletError::Protocol("Ledger wallet creation requires HID device"))
    );
    let u = info("/a", Manufacturer::Unknown, 1, "u");
    assert_eq!(WalletFactory::creation_support(&u), Err(RemoteWalletError::DeviceTypeMismatch));
    let d = keystone_device("/a", 1);
    assert_eq!(get_wallet_name(&d.wallet_type), "Keystone");
    assert_eq!(get_wallet_manufacturer(&d.wallet_type), "keystone");
}

#[test]
fn replacing_with_fewer_devices_counts_the_removed_ones() {
    let mut m = RemoteWalletManager::new();
    assert_eq!(m.replace_devices(vec![keystone_device("/a", 1), keystone_device("/b", 2)]), 2);
    assert_eq!(m.replace_devices(vec![keystone_device("/c", 3)]), -1);
    assert_eq!(m.device_count(), 1);
    assert_eq!(m.replace_devices(vec![]), -1);
    assert!(!m.has_devices());
}
