use remote_wallet::errors::RemoteWalletError;
use remote_wallet::keys::Pubkey;
use remote_wallet::keystone::{
    check_status, KeystoneError, KeystoneWallet, PacketReceiver, PacketSender,
};
use remote_wallet::keystone_protocol::{CommandType, StatusEnum};
use remote_wallet::locator::Manufacturer;

#[test]
fn sender_cuts_requests_into_packets() {
    let data: Vec<u8> = (0..70u8).collect();
    let mut sender = PacketSender::new(data.clone());
    assert!(sender.has_next());
    let p0 = sender.next_packet();
    assert_eq!(&p0[..5], &[1, 1, 0, 0, 0]);
    assert_eq!(&p0[5..64], &data[..59]);
    sender.on_written(64).unwrap();
    let p1 = sender.next_packet();
    assert_eq!(&p1[..5], &[1, 1, 0, 0, 1]);
    assert_eq!(&p1[5..16], &data[59..]);
    assert!(p1[16..].iter().all(|b| *b == 0));
    sender.on_written(64).unwrap();
    assert!(!sender.has_next());
}

#[test]
fn sender_reports_short_writes() {
    let mut sender = PacketSender::new(vec![1, 2, 3]);
    match sender.on_written(7) {
        Err(KeystoneError::UsbError(m)) => assert_eq!(m, "Incomplete packet write"),
        other => panic!("unexpected {:?}", other),
    }
}

#[test]
fn receiver_reassembles_until_a_short_packet() {
    let mut r = PacketReceiver::new();
    let mut full = vec![1, 1, 0, 0, 0];
    full.extend_from_slice(&[7u8; 59]);
    assert_eq!(r.feed(&full).unwrap(), false);
    assert_eq!(r.expected_sequence(), 1);
    assert_eq!(r.feed(&[1, 1, 0, 0, 1, 8, 9]).unwrap(), true);
    let data = r.into_data();
    assert_eq!(data.len(), 61);
    assert_eq!(&data[59..], &[8, 9]);
}

#[test]
fn receiver_rejects_bad_packets() {
    let mut r = PacketReceiver::new();
    assert!(matches!(r.feed(&[1, 1, 0]), Err(KeystoneError::UsbError(m)) if m == "Invalid packet size"));
    let mut r = PacketReceiver::new();
    assert!(matches!(r.feed(&[1, 2, 0, 0, 0]), Err(KeystoneError::UsbError(m)) if m == "Invalid packet header"));
    let mut r = PacketReceiver::new();
    assert!(matches!(r.feed(&[1, 1, 0, 0, 3]), Err(KeystoneError::UsbError(m)) if m == "Packet sequence mismatch"));
}

#[test]
fn requests_serialize_little_endian() {
    let wallet = KeystoneWallet::connected("/dev/keystone".to_string());
    let request = KeystoneWallet::request_for(CommandType::GetDeviceInfo, &[0xaa, 0xbb]);
    let bytes = wallet.serialize_request(&request).unwrap();
    assert_eq!(bytes, vec![0, 5, 0, 0, 0, 0, 0, 2, 0, 0xaa, 0xbb]);
}

#[test]
fn responses_deserialize_little_endian() {
    let wallet = KeystoneWallet::connected("/dev/keystone".to_string());
    let data = [0, 14, 0, 0, 0, 3, 0, 4, 0, 0, 0, 2, 0, 0x41, 0x42];
    let r = wallet.deserialize_response(&data).unwrap();
    assert_eq!(r.cla, 0);
    assert_eq!(r.status, StatusEnum::PrsExportAddressRejected);
    assert_eq!(r.request_id, 3);
    assert_eq!(r.command_type, CommandType::ExportAddress);
    assert_eq!(r.data, vec![0x41, 0x42]);
    assert_eq!(r.data_len, 2);
    assert!(matches!(
        wallet.deserialize_response(&[0u8; 5]),
        Err(KeystoneError::InvalidResponse(m)) if m == "Response too short"
    ));
    let r = wallet.deserialize_response(&[0u8; 13]).unwrap();
    assert!(r.data.is_empty());
}

#[test]
fn statuses_become_errors() {
    assert!(check_status(StatusEnum::RspSuccessCode).is_ok());
    assert!(matches!(check_status(StatusEnum::PrsExportAddressRejected), Err(KeystoneError::UserRejected)));
    assert!(matches!(check_status(StatusEnum::PrsExportAddressDisallowed), Err(KeystoneError::DeviceLocked)));
    assert!(matches!(
        check_status(StatusEnum::PrsExportAddressUnsupportedChain),
        Err(KeystoneError::UnsupportedOperation(m)) if m == "Unsupported chain"
    ));
    assert!(matches!(
        check_status(StatusEnum::PrsParsingError),
        Err(KeystoneError::ProtocolError(m)) if m == "Command failed with status: PrsParsingError"
    ));
}

#[test]
fn replies_are_read_as_text() {
    assert_eq!(KeystoneWallet::reply_text(b"{}").unwrap(), "{}");
    assert!(matches!(
        KeystoneWallet::reply_text(&[0xff, 0xfe]),
        Err(KeystoneError::InvalidResponse(m)) if m.starts_with("Invalid UTF-8: ")
    ));
}

#[test]
fn device_info_and_export_replies() {
    let wallet = KeystoneWallet::connected("/dev/keystone".to_string());
    let info = wallet.device_info_from_reply(Ok("a1b2c3d4".to_string())).unwrap();
    assert_eq!(info.model, "Keystone Pro");
    assert_eq!(info.manufacturer, Manufacturer::Keystone);
    assert_eq!(info.serial, "a1b2c3d4");
    assert_eq!(info.host_device_path, "/dev/keystone");
    assert!(matches!(
        wallet.device_info_from_reply(Err("eof".to_string())),
        Err(KeystoneError::InvalidResponse(m)) if m == "Invalid JSON: eof"
    ));

    let key = solana_sdk::pubkey::Pubkey::new_unique();
    let reply = format!("{{\"pubkey\":\"{}\"}}", key);
    let k = KeystoneWallet::pubkey_from_export_reply(reply.as_bytes()).unwrap();
    assert_eq!(k, Pubkey::new_from_array(key.to_bytes()));
    assert!(matches!(
        KeystoneWallet::pubkey_from_export_reply(b"{\"pubkey\":\"zz\"}"),
        Err(KeystoneError::InvalidResponse(m)) if m.starts_with("Invalid public key: ")
    ));
    assert!(matches!(
        KeystoneWallet::pubkey_from_export_reply(b"nothing"),
        Err(KeystoneError::URProtocolError(_))
    ));
}

#[test]
fn old_wallet_getters() {
    let mut wallet = KeystoneWallet::connected("/dev/keystone".to_string());
    assert_eq!(wallet.name(), "Keystone hardware wallet");
    assert_eq!(wallet.manufacturer(), "keystone");
    assert_eq!(wallet.model(), "Keystone Pro");
    assert_eq!(wallet.serial(), "unknown");
    assert_eq!(wallet.device_path(), "/dev/keystone");
    assert_eq!(wallet.firmware_version().unwrap(), "1.0.0");
    wallet.set_model("Keystone 3".to_string());
    assert_eq!(wallet.model(), "Keystone 3");
    assert!(wallet.sign_offchain_message_unsupported().is_err());
}

#[test]
fn keystone_errors_become_remote_wallet_errors() {
    assert_eq!(KeystoneError::NotConnected.to_remote_wallet_error(), RemoteWalletError::NoDeviceFound);
    assert_eq!(KeystoneError::UserRejected.to_remote_wallet_error(), RemoteWalletError::UserCancel);
    assert_eq!(
        KeystoneError::DeviceLocked.to_remote_wallet_error(),
        RemoteWalletError::InvalidInput("Device is locked".to_string())
    );
    assert_eq!(KeystoneError::UsbError("x".to_string()).message(), "USB communication error: x");
}

#[test]
fn sent_packets_read_back_unpadded_reassemble_the_request() {
    for len in [1usize, 58, 60, 130, 200] {
        let data: Vec<u8> = (0..len).map(|i| (i % 251) as u8).collect();
        let mut sender = PacketSender::new(data.clone());
        let mut receiver = PacketReceiver::new();
        let mut offset = 0;
        let mut done = false;
        while sender.has_next() {
            let chunk = std::cmp::min(59, len - offset);
            let packet = sender.next_packet();
            sender.on_written(packet.len()).unwrap();
            assert!(!done);
            done = receiver.feed(&packet[..5 + chunk]).unwrap();
            offset += chunk;
        }
        assert!(done);
        assert_eq!(receiver.into_data(), data);
    }
}
