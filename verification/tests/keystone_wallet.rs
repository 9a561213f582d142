use remote_wallet::errors::RemoteWalletError;
use remote_wallet::keys::DerivationPath;
use remote_wallet::locator::Manufacturer;
use remote_wallet::remote_wallet::{HidDeviceInfo, RemoteWallet};
use remote_wallet::transport::transport_trait::Transport;
use remote_wallet::wallet::keystone::error::KeystoneError;
use remote_wallet::wallet::keystone::keystone::{
    decoded_signature, device_info_from_json, first_account_key, reassemble_response, request_packet,
    CommandType,
    FirmwareVersion, KeystoneWallet,
};
use std::cell::RefCell;
use std::collections::VecDeque;
use std::rc::Rc;

/// A transport that records writes and replies with queued packets.
struct Scripted {
    written: Rc<RefCell<Vec<Vec<u8>>>>,
    replies: RefCell<VecDeque<Vec<u8>>>,
}

impl Transport for Scripted {
    fn connect(&mut self) -> Result<(), RemoteWalletError> {
        Ok(())
    }
    fn disconnect(&mut self) {}
    fn is_connected(&self) -> bool {
        true
    }
    fn write(&self, data: &[u8]) -> Result<usize, RemoteWalletError> {
        self.written.borrow_mut().push(data.to_vec());
        Ok(data.len())
    }
    fn read(&self) -> Result<Vec<u8>, RemoteWalletError> {
        self.replies.borrow_mut().pop_front().ok_or(RemoteWalletError::NoDeviceFound)
    }
}

/// The reply packets carrying `payload` (whose packets must not end with a
/// zero byte), 55 bytes each.
fn reply(command: u16, payload: &[u8]) -> Vec<Vec<u8>> {
    let chunks: Vec<&[u8]> = payload.chunks(55).collect();
    let total = chunks.len();
    chunks
        .iter()
        .enumerate()
        .map(|(seq, c)| {
            let mut p = vec![
                0,
                (command >> 8) as u8,
                command as u8,
                (total >> 8) as u8,
                total as u8,
                (seq >> 8) as u8,
                seq as u8,
                0,
                0,
            ];
            p.extend_from_slice(c);
            p.resize(64, 0);
            p
        })
        .collect()
}

fn json_reply(command: u16, json: &str) -> Vec<Vec<u8>> {
    let mut payload = json.as_bytes().to_vec();
    payload.extend_from_slice(&[0x90, 0x01]);
    reply(command, &payload)
}

fn wallet(replies: Vec<Vec<u8>>) -> (KeystoneWallet, Rc<RefCell<Vec<Vec<u8>>>>) {
    let written = Rc::new(RefCell::new(Vec::new()));
    let t = Scripted { written: written.clone(), replies: RefCell::new(replies.into()) };
    (KeystoneWallet::new(Box::new(t)), written)
}

fn dev_info() -> HidDeviceInfo {
    HidDeviceInfo {
        path: "/dev/hidraw3".to_string(),
        vendor_id: 0x1209,
        product_id: 0x3001,
        usage_page: 0xff00,
        interface_number: 0,
        manufacturer_string: Some("keystone".to_string()),
        product_string: Some("Keystone 3 Pro".to_string()),
        serial_number: None,
    }
}

#[test]
fn request_packets_have_the_documented_header() {
    let p = request_packet(CommandType::CMD_GET_DEVICE_INFO, 1, 0, &[], 0);
    let mut expected = vec![0, 0, 0, 5, 0, 1, 0, 0, 0, 0];
    expected.resize(64, 0);
    assert_eq!(p, expected);
}

#[test]
fn device_info_documents() {
    let (v, m) = device_info_from_json("{\"firmwareVersion\":\"12.1.2\",\"walletMFP\":\"A1b2c3D4\"}").unwrap();
    assert_eq!(v, FirmwareVersion { major: 12, minor: 1, patch: 2 });
    assert_eq!(m, Some([0xa1, 0xb2, 0xc3, 0xd4]));
    let (v, m) = device_info_from_json("{\"firmwareVersion\":\"1.x.2\",\"walletMFP\":\"a1\"}").unwrap();
    assert_eq!(v, FirmwareVersion { major: 0, minor: 0, patch: 0 });
    assert_eq!(m, None);
    assert_eq!(device_info_from_json("not json"), Err(RemoteWalletError::Protocol("JSON parse error")));
}

#[test]
fn read_device_reads_version_fingerprint_and_base_key() {
    let key_hex = "11".repeat(32);
    let mut replies = json_reply(5, "x{\"firmwareVersion\":\"0.3.1\",\"walletMFP\":\"01020304\"}");
    replies.extend(json_reply(6, &format!("{{\"pubkey\":\"{key_hex}\"}}")));
    let (mut w, written) = wallet(replies);
    let info = w.read_device(&dev_info()).unwrap();
    assert_eq!(info.manufacturer, Manufacturer::Keystone);
    assert_eq!(info.model, "keystone-3-pro");
    assert_eq!(info.serial, "Unknown");
    assert_eq!(info.host_device_path, "/dev/hidraw3");
    assert_eq!(info.pubkey.bytes, [0x11; 32]);
    assert!(info.error.is_none());
    assert_eq!(w.version, FirmwareVersion { major: 0, minor: 3, patch: 1 });
    assert_eq!(w.mfp, Some([1, 2, 3, 4]));
    assert!(!w.outdated_app());
    let writes = written.borrow();
    assert_eq!(writes.len(), 2);
    assert_eq!(writes[0][3], 5);
    assert_eq!(writes[1][3], 6);
    // The base path m/44'/501' serialized: depth 2 and two hardened indices.
    assert_eq!(&writes[1][10..19], &[2, 0x80, 0, 0, 44, 0x80, 0, 1, 0xf5]);
}

#[test]
fn errors_in_the_key_reply_are_kept_in_the_information() {
    let mut replies = json_reply(5, "{\"firmwareVersion\":\"0.1.0\"}");
    replies.extend(json_reply(6, "{\"pubkey\":\"Device locked\"}"));
    let (mut w, _) = wallet(replies);
    let info = w.read_device(&dev_info()).unwrap();
    assert_eq!(info.error, Some(RemoteWalletError::KeystoneError(KeystoneError::DeviceLocked)));
    assert!(w.outdated_app());
    assert_eq!(w.mfp, None);
}

#[test]
fn signing_needs_the_master_fingerprint() {
    let (w, _) = wallet(vec![]);
    let path = DerivationPath::new_bip44(Some(0), Some(0));
    assert_eq!(w.sign_message(&path, &[1, 2]), Err(RemoteWalletError::Protocol("MFP is not set")));
    assert_eq!(w.sign_message(&path, &[0xff, 2]), Err(RemoteWalletError::Protocol("MFP is not set")));
    assert_eq!(w.sign_offchain_message(&path, &[0xff]), Err(RemoteWalletError::Protocol("MFP is not set")));
}

#[test]
fn uncached_keys_go_through_a_ur_call() {
    let replies = json_reply(2, "{\"payload\":\"Device timeout\"}");
    let (mut w, written) = wallet(replies);
    w.mfp = Some([1, 2, 3, 4]);
    let path = DerivationPath::new_bip44(Some(60), None);
    assert_eq!(
        w.get_pubkey(&path, false),
        Err(RemoteWalletError::KeystoneError(KeystoneError::DeviceTimeout))
    );
    let writes = written.borrow();
    assert_eq!(writes[0][3], 2);
    let text: Vec<u8> = writes.iter().flat_map(|p| p[10..].to_vec()).collect();
    let text = String::from_utf8_lossy(&text).to_lowercase();
    assert!(text.starts_with("ur:qr-hardware-call/"));
}

#[test]
fn replies_with_a_bad_header_are_refused() {
    let (w, _) = wallet(vec![vec![0, 0, 9, 0, 1, 0, 0, 0, 0, 1, 2]]);
    let path = DerivationPath::new_bip44(None, None);
    assert_eq!(w.get_pubkey(&path, false), Err(RemoteWalletError::Protocol("Invalid command")));
    let (w, _) = wallet(vec![vec![0, 0, 6, 0, 1, 0, 3, 0, 0, 1, 2]]);
    assert_eq!(w.get_pubkey(&path, false), Err(RemoteWalletError::Protocol("Invalid packet sequence")));
    let (w, _) = wallet(vec![vec![0, 0, 6]]);
    assert_eq!(w.get_pubkey(&path, false), Err(RemoteWalletError::Protocol("Invalid HID packet size")));
}

#[test]
fn json_fields_of_replies() {
    let (w, _) = wallet(vec![]);
    assert_eq!(w.parse_json_field("{\"a\":\"b\"}", "a").unwrap(), "b");
    assert_eq!(w.parse_json_field("{\"a\":1}", "a"), Err(RemoteWalletError::Protocol("Missing required field")));
    assert_eq!(w.parse_json_field("{", "a"), Err(RemoteWalletError::Protocol("Invalid JSON response")));
}

#[test]
fn signing_goes_through_a_ur_sign_request() {
    let replies = json_reply(2, "{\"payload\":\"Device locked\"}");
    let (mut w, written) = wallet(replies);
    w.mfp = Some([1, 2, 3, 4]);
    let path = DerivationPath::new_bip44(Some(0), Some(0));
    assert_eq!(
        w.sign_message(&path, &[1, 2, 3]),
        Err(RemoteWalletError::KeystoneError(KeystoneError::DeviceLocked))
    );
    let writes = written.borrow();
    let text: Vec<u8> = writes.iter().flat_map(|p| p[10..].to_vec()).collect();
    let text = String::from_utf8_lossy(&text).to_lowercase();
    assert!(text.starts_with("ur:sol-sign-request/"));
}

#[test]
fn ur_replies_that_do_not_decode_are_refused() {
    let replies = json_reply(2, "{\"payload\":\"xyz\"}");
    let (mut w, _) = wallet(replies);
    w.mfp = Some([1, 2, 3, 4]);
    let path = DerivationPath::new_bip44(Some(60), None);
    assert!(matches!(w.get_pubkey(&path, false), Err(RemoteWalletError::InvalidInput(_))));

    let replies = json_reply(2, "{\"payload\":\"xyz\"}");
    let (mut w, _) = wallet(replies);
    w.mfp = Some([1, 2, 3, 4]);
    assert!(matches!(w.sign_offchain_message(&path, &[0xff, 1]), Err(RemoteWalletError::InvalidInput(_))));
}

#[test]
fn decoded_urs_give_their_first_key_or_signature() {
    assert_eq!(first_account_key(Ok(Some(vec![vec![1, 2], vec![3]]))), Ok(vec![1, 2]));
    assert_eq!(
        first_account_key(Ok(Some(vec![]))),
        Err(RemoteWalletError::InvalidInput("UR holds no key".to_string()))
    );
    assert_eq!(
        first_account_key(Ok(None)),
        Err(RemoteWalletError::InvalidInput("UR data is incomplete".to_string()))
    );
    assert_eq!(
        first_account_key(Err("bad".to_string())),
        Err(RemoteWalletError::InvalidInput("bad".to_string()))
    );
    assert_eq!(decoded_signature(Ok(Some(vec![9; 64]))), Ok(vec![9; 64]));
    assert_eq!(
        decoded_signature(Ok(None)),
        Err(RemoteWalletError::InvalidInput("UR data is incomplete".to_string()))
    );
    assert_eq!(
        decoded_signature(Err("bad".to_string())),
        Err(RemoteWalletError::InvalidInput("bad".to_string()))
    );
}

#[test]
fn responses_reassemble_from_their_packets() {
    let one = vec![vec![0, 0, 6, 0, 1, 0, 0, 0, 0, 1, 2, 3, 4]];
    assert_eq!(reassemble_response(&one), Ok(vec![1, 2]));
    let two = vec![vec![0, 0, 6, 0, 2, 0, 0, 0, 0, 1, 2], vec![0, 0, 6, 0, 2, 0, 1, 0, 0, 3, 4, 5]];
    assert_eq!(reassemble_response(&two), Ok(vec![1, 2, 3]));
    assert_eq!(reassemble_response(&vec![]), Err(RemoteWalletError::Protocol("Response incomplete")));
    assert_eq!(
        reassemble_response(&vec![vec![0, 0, 9, 0, 1, 0, 0, 0, 0, 1, 2]]),
        Err(RemoteWalletError::Protocol("Invalid command"))
    );
}
