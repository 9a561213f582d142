use remote_wallet::api::hardware_wallet::HardwareWallet;
use remote_wallet::errors::RemoteWalletError;
use remote_wallet::keys::DerivationPath;
use remote_wallet::locator::Manufacturer;
use remote_wallet::protocol::common::Protocol;
use remote_wallet::protocol::ledger_protocol::{request_packet, LedgerProtocol, ReplyAssembler};
use remote_wallet::transport::common::Transport;
use remote_wallet::wallet_impl::ledger::LedgerWallet;
use std::cell::RefCell;
use std::collections::VecDeque;
use std::rc::Rc;

/// A transport that records what is written and replies with queued packets.
struct Scripted {
    written: Rc<RefCell<Vec<Vec<u8>>>>,
    replies: RefCell<VecDeque<Vec<u8>>>,
}

impl Transport for Scripted {
    fn write(&self, data: &[u8]) -> Result<usize, RemoteWalletError> {
        self.written.borrow_mut().push(data.to_vec());
        Ok(data.len())
    }
    fn read(&self, buf: &mut [u8]) -> Result<usize, RemoteWalletError> {
        let p = self.replies.borrow_mut().pop_front().ok_or(RemoteWalletError::NoDeviceFound)?;
        buf[..p.len()].copy_from_slice(&p);
        Ok(p.len())
    }
    fn connect(&mut self) -> Result<(), RemoteWalletError> {
        Ok(())
    }
    fn disconnect(&mut self) {}
    fn is_connected(&self) -> bool {
        true
    }
}

/// The reply packets of a message (status word included).
fn reply_packets(message: &[u8]) -> Vec<Vec<u8>> {
    let mut out = Vec::new();
    let mut first = vec![1, 1, 5, 0, 0, (message.len() >> 8) as u8, message.len() as u8];
    let take = message.len().min(57);
    first.extend_from_slice(&message[..take]);
    out.push(first);
    let mut offset = take;
    let mut seq: usize = 1;
    while offset < message.len() {
        let take = (message.len() - offset).min(59);
        let mut p = vec![1, 1, 5, (seq >> 8) as u8, seq as u8];
        p.extend_from_slice(&message[offset..offset + take]);
        out.push(p);
        offset += take;
        seq += 1;
    }
    out
}

fn scripted(replies: Vec<Vec<u8>>) -> (Scripted, Rc<RefCell<Vec<Vec<u8>>>>) {
    let written = Rc::new(RefCell::new(Vec::new()));
    (Scripted { written: written.clone(), replies: RefCell::new(replies.into()) }, written)
}

#[test]
fn first_request_packet_layout() {
    let p = request_packet(0x04, 0, 0, &[], false, 0);
    let mut expected = vec![1, 1, 5, 0, 0, 0, 5, 0xe0, 0x04, 0, 0, 0];
    expected.resize(64, 0);
    assert_eq!(p, expected);
    let p = request_packet(0x02, 1, 0, &[9, 8], true, 0);
    let mut expected = vec![1, 1, 5, 0, 0, 0, 8, 0xe0, 0x02, 1, 0, 0, 2, 9, 8];
    expected.resize(64, 0);
    assert_eq!(p, expected);
}

#[test]
fn later_request_packets_carry_59_bytes() {
    let data: Vec<u8> = (0..120u8).collect();
    let p1 = request_packet(0x06, 1, 0, &data, false, 1);
    assert_eq!(&p1[..5], &[1, 1, 5, 0, 1]);
    assert_eq!(&p1[5..64], &data[52..111]);
    let p2 = request_packet(0x06, 1, 0, &data, false, 2);
    assert_eq!(&p2[5..14], &data[111..120]);
    assert!(p2[14..].iter().all(|b| *b == 0));
}

#[test]
fn request_packets_read_back_as_the_apdu() {
    let mut data: Vec<u8> = (0..150u8).collect();
    data.extend_from_slice(&[0x90, 0x00]);
    let mut assembler = ReplyAssembler::new();
    let mut seq = 0;
    loop {
        let p = request_packet(0x06, 1, 2, &data, false, seq);
        if assembler.feed(&p, p.len()).unwrap() {
            break;
        }
        seq += 1;
    }
    let reply = assembler.finish().unwrap();
    let mut apdu = vec![0xe0, 0x06, 1, 2, data.len() as u8];
    apdu.extend_from_slice(&data[..data.len() - 2]);
    assert_eq!(reply, apdu);
}

#[test]
fn parse_status_words() {
    assert_eq!(LedgerProtocol::parse_status(0x9000), Ok(()));
    assert_eq!(LedgerProtocol::parse_status(0x6d00), Err(RemoteWalletError::Protocol("Invalid instruction")));
    assert_eq!(LedgerProtocol::parse_status(0x6e00), Err(RemoteWalletError::Protocol("Invalid class")));
    assert_eq!(LedgerProtocol::parse_status(0x6f00), Err(RemoteWalletError::Protocol("Invalid parameter")));
    assert_eq!(LedgerProtocol::parse_status(0x6985), Err(RemoteWalletError::UserCancel));
    assert_eq!(LedgerProtocol::parse_status(0x1234), Err(RemoteWalletError::Protocol("Unknown status")));
}

#[test]
fn reply_assembler_rejects_bad_headers() {
    let mut a = ReplyAssembler::new();
    assert_eq!(a.feed(&[1, 1, 5], 3), Err(RemoteWalletError::Protocol("Unexpected chunk header")));
    let mut a = ReplyAssembler::new();
    assert_eq!(a.feed(&[1, 2, 5, 0, 0, 0, 2], 7), Err(RemoteWalletError::Protocol("Unexpected chunk header")));
    let mut a = ReplyAssembler::new();
    assert_eq!(a.feed(&[1, 1, 5, 0, 1, 0, 2], 7), Err(RemoteWalletError::Protocol("Unexpected chunk header")));
    let a = ReplyAssembler::new();
    assert_eq!(a.finish(), Err(RemoteWalletError::Protocol("No status word")));
}

#[test]
fn app_configuration_round_trip() {
    let (t, written) = scripted(reply_packets(&[1, 0, 2, 0x90, 0x00]));
    let protocol = LedgerProtocol::new(Box::new(t));
    assert!(protocol.is_last_part(0));
    assert!(!protocol.is_last_part(2));
    assert_eq!(protocol.get_app_configuration(false).unwrap(), vec![1, 0, 2]);
    let w = written.borrow();
    assert_eq!(w.len(), 1);
    assert_eq!(&w[0][..12], &[1, 1, 5, 0, 0, 0, 5, 0xe0, 0x04, 0, 0, 0]);
}

#[test]
fn user_refusal_is_reported() {
    let (t, _) = scripted(reply_packets(&[0x69, 0x85]));
    let protocol = LedgerProtocol::new(Box::new(t));
    assert_eq!(protocol.sign_offchain_message(&[1, 2, 3]), Err(RemoteWalletError::UserCancel));
}

#[test]
fn send_command_returns_one_read() {
    let (t, _) = scripted(vec![vec![4, 5, 6]]);
    let protocol = LedgerProtocol::new(Box::new(t));
    assert_eq!(protocol.send_command(&[1]).unwrap(), vec![4, 5, 6]);
    assert!(protocol.transport().is_connected());
}

#[test]
fn ledger_wallet_reads_keys_and_signatures() {
    let mut key = vec![7u8; 32];
    key.extend_from_slice(&[0x90, 0x00]);
    let mut sig = vec![3u8; 64];
    sig.extend_from_slice(&[0x90, 0x00]);
    let mut replies = reply_packets(&key);
    replies.extend(reply_packets(&sig));
    let (t, written) = scripted(replies);
    let mut wallet = LedgerWallet::from_transport(Box::new(t), "/dev/ledger".to_string());
    let info = wallet.read_device().unwrap();
    assert_eq!(info.model, "ledger");
    assert_eq!(info.manufacturer, Manufacturer::Ledger);
    assert_eq!(info.host_device_path, "/dev/ledger");
    let path = DerivationPath::new_bip44(Some(0), None);
    let k = wallet.get_pubkey(&path, false).unwrap();
    assert_eq!(k.bytes, [7u8; 32]);
    let s = wallet.sign_message(&path, &[1, 2, 3]).unwrap();
    assert_eq!(s.bytes, [3u8; 64]);
    let w = written.borrow();
    // A wallet of unknown version speaks the deprecated protocol: the path
    // (depth 3, three indices), the data length, then the data.
    assert_eq!(w[0][8], 0x02);
    assert_eq!(w[1][8], 0x03);
    let payload_len = 1 + 12 + 2 + 3;
    assert_eq!(w[1][11], payload_len as u8);
    assert_eq!(&w[1][12..14], &[3, 0x80]);
    assert_eq!(&w[1][25..30], &[0, 3, 1, 2, 3]);
}

#[test]
fn ledger_wallet_refuses_long_messages() {
    let (t, _) = scripted(vec![]);
    let wallet = LedgerWallet::from_transport(Box::new(t), String::new());
    let path = DerivationPath::new_bip44(None, None);
    match wallet.sign_message(&path, &vec![1u8; 0x10000]) {
        Err(RemoteWalletError::InvalidInput(m)) => assert_eq!(m, "Message to sign is too long"),
        other => panic!("unexpected {:?}", other),
    }
    match wallet.sign_offchain_message(&path, &vec![1u8; 1216]) {
        Err(RemoteWalletError::InvalidInput(m)) => assert_eq!(m, "Off-chain message to sign is too long"),
        other => panic!("unexpected {:?}", other),
    }
    assert_eq!(wallet.get_firmware_version().unwrap().minor, 0);
}

#[test]
fn sign_payloads() {
    let path = DerivationPath::new_bip44(None, None);
    let p = LedgerWallet::sign_payload(&path, &[9, 9], true);
    assert_eq!(p, vec![2, 0x80, 0, 0, 44, 0x80, 0, 1, 0xf5, 0, 2, 9, 9]);
    let p = LedgerWallet::sign_payload(&path, &[9, 9], false);
    assert_eq!(p, vec![1, 2, 0x80, 0, 0, 44, 0x80, 0, 1, 0xf5, 9, 9]);
    let p = LedgerWallet::offchain_payload(&path, &[0xff]);
    assert_eq!(p, vec![1, 2, 0x80, 0, 0, 44, 0x80, 0, 1, 0xf5, 0xff]);
}
