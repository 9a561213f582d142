//! The first-generation Keystone wallet: EAPDU requests and responses, their
//! framing into HID packets, and the errors of the device.
//!
//! A request is serialized as the class byte, the command (four bytes, little
//! endian), the request id (two bytes, little endian), the data length (two
//! bytes, little endian) and the data. It travels in 64-byte packets that
//! start with the channel `0x0101`, the tag `0x00` and the packet's sequence
//! number (two bytes, big endian), followed by up to 59 bytes of the request.
//! A response comes back in the same packets; the first short packet ends it.
use crate::errors::RemoteWalletError;
use crate::hardware_wallet::{HardwareWalletSettings, PubkeyDisplayMode};
use crate::json::{json_str_field, spec_json_str_field};
use crate::keys::{pubkey_from_str, spec_pubkey_from_str, Pubkey};
use crate::keystone_protocol::{CommandType, EAPDURequestPayload, EAPDUResponsePayload, StatusEnum};
use crate::locator::Manufacturer;
use crate::remote_wallet::RemoteWalletInfo;
use crate::text::{spec_utf8_error_text, utf8_to_string};
use crate::ur_protocol::{spec_decode_ur, spec_parse_pubkey_response, URProtocol, URProtocolError};
use vstd::prelude::*;
use vstd::utf8::{decode_utf8, valid_utf8};

verus! {

/// Keystone USB vendor id.
pub const KEYSTONE_VID: u16 = 0x1209;

/// Keystone USB product id.
pub const KEYSTONE_PID: u16 = 0x3001;

/// Size of a HID packet.
pub const HID_PACKET_SIZE: usize = 64;

/// Header bytes of a packet.
pub const PACKET_HEADER_LEN: usize = 5;

/// Request or response bytes a packet carries.
pub const PACKET_PAYLOAD_LEN: usize = 59;

/// Whether a USB device is a Keystone.
pub fn is_valid_keystone(vendor_id: u16, product_id: u16) -> (res: bool)
    ensures
        res == (vendor_id == KEYSTONE_VID && product_id == KEYSTONE_PID),
{
    vendor_id == KEYSTONE_VID && product_id == KEYSTONE_PID
}

/// Keystone error.
#[derive(Debug)]
pub enum KeystoneError {
    UsbError(String),
    ProtocolError(String),
    InvalidResponse(String),
    NotConnected,
    UserRejected,
    DeviceLocked,
    UnsupportedOperation(String),
    URProtocolError(URProtocolError),
}

impl KeystoneError {
    /// The error's display text.
    pub open spec fn spec_message(self) -> Seq<char> {
        match self {
            KeystoneError::UsbError(s) => "USB communication error: "@ + s@,
            KeystoneError::ProtocolError(s) => "Protocol error: "@ + s@,
            KeystoneError::InvalidResponse(s) => "Invalid response: "@ + s@,
            KeystoneError::NotConnected => "Device not connected"@,
            KeystoneError::UserRejected => "Operation rejected by user"@,
            KeystoneError::DeviceLocked => "Device is locked"@,
            KeystoneError::UnsupportedOperation(s) => "Unsupported operation: "@ + s@,
            KeystoneError::URProtocolError(e) => "UR protocol error: "@ + e.spec_message(),
        }
    }

    pub fn message(&self) -> (res: String)
        ensures
            res@ == self.spec_message(),
    {
        let (prefix, rest) = match self {
            KeystoneError::UsbError(s) => ("USB communication error: ", s.clone()),
            KeystoneError::ProtocolError(s) => ("Protocol error: ", s.clone()),
            KeystoneError::InvalidResponse(s) => ("Invalid response: ", s.clone()),
            KeystoneError::NotConnected => {
                return String::from_str("Device not connected");
            },
            KeystoneError::UserRejected => {
                return String::from_str("Operation rejected by user");
            },
            KeystoneError::DeviceLocked => {
                return String::from_str("Device is locked");
            },
            KeystoneError::UnsupportedOperation(s) => ("Unsupported operation: ", s.clone()),
            KeystoneError::URProtocolError(e) => ("UR protocol error: ", e.message()),
        };
        let mut m = String::from_str(prefix);
        m.append(rest.as_str());
        m
    }

    /// Whether `r` is the remote wallet error this error becomes.
    pub open spec fn spec_becomes(self, r: RemoteWalletError) -> bool {
        match self {
            KeystoneError::UsbError(s) => r matches RemoteWalletError::Hid(t) && t@ == s@,
            KeystoneError::ProtocolError(s) => r matches RemoteWalletError::InvalidInput(t) && t@
                == s@,
            KeystoneError::InvalidResponse(s) => r matches RemoteWalletError::InvalidInput(t) && t@
                == s@,
            KeystoneError::NotConnected => r is NoDeviceFound,
            KeystoneError::UserRejected => r is UserCancel,
            KeystoneError::DeviceLocked => r matches RemoteWalletError::InvalidInput(t) && t@
                == "Device is locked"@,
            KeystoneError::UnsupportedOperation(s) => r matches RemoteWalletError::InvalidInput(t)
                && t@ == s@,
            KeystoneError::URProtocolError(e) => r matches RemoteWalletError::InvalidInput(t) && t@
                == e.spec_message(),
        }
    }

    /// The remote wallet error this error becomes.
    pub fn to_remote_wallet_error(self) -> (res: RemoteWalletError)
        ensures
            self.spec_becomes(res),
    {
        match self {
            KeystoneError::UsbError(msg) => RemoteWalletError::Hid(msg),
            KeystoneError::ProtocolError(msg) => RemoteWalletError::InvalidInput(msg),
            KeystoneError::InvalidResponse(msg) => RemoteWalletError::InvalidInput(msg),
            KeystoneError::NotConnected => RemoteWalletError::NoDeviceFound,
            KeystoneError::UserRejected => RemoteWalletError::UserCancel,
            KeystoneError::DeviceLocked => RemoteWalletError::InvalidInput(
                String::from_str("Device is locked"),
            ),
            KeystoneError::UnsupportedOperation(msg) => RemoteWalletError::InvalidInput(msg),
            KeystoneError::URProtocolError(e) => RemoteWalletError::InvalidInput(e.message()),
        }
    }
}

impl From<URProtocolError> for KeystoneError {
    fn from(err: URProtocolError) -> (res: Self) {
        KeystoneError::URProtocolError(err)
    }
}

impl vstd::std_specs::convert::FromSpecImpl<URProtocolError> for KeystoneError {
    open spec fn obeys_from_spec() -> bool {
        true
    }

    open spec fn from_spec(err: URProtocolError) -> Self {
        KeystoneError::URProtocolError(err)
    }
}

impl From<KeystoneError> for RemoteWalletError {
    /// The remote wallet error a Keystone error becomes.
    fn from(err: KeystoneError) -> (res: Self)
        ensures
            err.spec_becomes(res),
    {
        err.to_remote_wallet_error()
    }
}

/// A conversion whose result is fixed by `KeystoneError::spec_becomes`: the
/// texts it carries are fixed by their characters, which do not determine a
/// `String` value, so no `from_spec` is claimed.
impl vstd::std_specs::convert::FromSpecImpl<KeystoneError> for RemoteWalletError {
    open spec fn obeys_from_spec() -> bool {
        false
    }

    open spec fn from_spec(err: KeystoneError) -> Self {
        choose|r: RemoteWalletError| err.spec_becomes(r)
    }
}

// ---------------------------------------------------------------------------
// EAPDU requests and responses
// ---------------------------------------------------------------------------

/// The two little-endian bytes of a 16-bit number.
pub open spec fn spec_le16(x: nat) -> Seq<u8> {
    seq![(x % 256) as u8, ((x / 256) % 256) as u8]
}

/// The four little-endian bytes of a 32-bit number.
pub open spec fn spec_le32(x: nat) -> Seq<u8> {
    seq![
        (x % 256) as u8,
        ((x / 256) % 256) as u8,
        ((x / 0x1_0000) % 256) as u8,
        ((x / 0x100_0000) % 256) as u8,
    ]
}

/// A little-endian 16-bit number.
pub open spec fn le16(b0: u8, b1: u8) -> nat {
    b0 as nat + b1 as nat * 256
}

/// A little-endian 32-bit number.
pub open spec fn le32(b0: u8, b1: u8, b2: u8, b3: u8) -> nat {
    b0 as nat + b1 as nat * 256 + b2 as nat * 0x1_0000 + b3 as nat * 0x100_0000
}

/// A serialized request: class, command, request id, data length (modulo
/// 65536) and data.
pub open spec fn spec_serialize_request(r: EAPDURequestPayload) -> Seq<u8> {
    seq![r.cla] + spec_le32(r.command_type.spec_code() as nat) + spec_le16(r.request_id as nat)
        + spec_le16((r.data_len % 0x1_0000) as nat) + r.data@
}

/// Whether a serialized response can be read: a response of 12 bytes lacks
/// the second byte of its data length, and a longer one must hold the data
/// it announces.
pub open spec fn spec_response_readable(data: Seq<u8>) -> bool {
    &&& data.len() != 12
    &&& data.len() > 13 ==> 13 + le16(data[11], data[12]) <= data.len()
}

/// The response a serialized response holds: class, status, request id,
/// command and data length, then the data.
pub open spec fn spec_deserialize_response(data: Seq<u8>, r: Result<
    EAPDUResponsePayload,
    KeystoneError,
>) -> bool {
    if data.len() < 12 {
        r matches Err(KeystoneError::InvalidResponse(m)) && m@ == "Response too short"@
    } else {
        let n = le16(data[11], data[12]);
        r matches Ok(p) && p.cla == data[0] && p.status == StatusEnum::spec_from_code(
            le32(data[1], data[2], data[3], data[4]) as u32,
        ) && p.request_id as nat == le16(data[5], data[6]) && p.command_type
            == CommandType::spec_from_code(le32(data[7], data[8], data[9], data[10]) as u32)
            && p.data_len as nat == n && p.data@ == (if data.len() > 13 {
            data.subrange(13, 13 + n as int)
        } else {
            Seq::empty()
        })
    }
}

/// What the status of a response means for the request.
pub open spec fn spec_check_status(status: StatusEnum, r: Result<(), KeystoneError>) -> bool {
    match status {
        StatusEnum::RspSuccessCode => r is Ok,
        StatusEnum::PrsExportAddressRejected => r matches Err(KeystoneError::UserRejected),
        StatusEnum::PrsExportAddressDisallowed => r matches Err(KeystoneError::DeviceLocked),
        StatusEnum::PrsExportAddressUnsupportedChain => r matches Err(
            KeystoneError::UnsupportedOperation(m),
        ) && m@ == "Unsupported chain"@,
        _ => r matches Err(KeystoneError::ProtocolError(m)) && m@ == "Command failed with status: "@
            + status.spec_debug_name(),
    }
}

/// What a response's wire status word means for the request: 0x00 is
/// success, 0x0E a rejection by the user, 0x0D an address export the locked
/// device disallows, 0x0A an unsupported chain, and every other word a failed
/// command named by the status it denotes (0x0C: `PrsExportAddressError`).
pub proof fn lemma_wire_status_outcome(v: u32, r: Result<(), KeystoneError>)
    requires
        spec_check_status(StatusEnum::spec_from_code(v), r),
    ensures
        r is Ok <==> v == 0x00,
        (r matches Err(KeystoneError::UserRejected)) <==> v == 0x0E,
        (r matches Err(KeystoneError::DeviceLocked)) <==> v == 0x0D,
        (r matches Err(KeystoneError::UnsupportedOperation(m)) && m@ == "Unsupported chain"@)
            <==> v == 0x0A,
        v == 0x0C ==> (r matches Err(KeystoneError::ProtocolError(m)) && m@
            == "Command failed with status: PrsExportAddressError"@),
        v > 0x10 ==> (r matches Err(KeystoneError::ProtocolError(m)) && m@
            == "Command failed with status: RspFailureCode"@),
{
    crate::keystone_protocol::lemma_status_wire_table(v);
    reveal_strlit("Command failed with status: ");
    reveal_strlit("PrsExportAddressError");
    reveal_strlit("Command failed with status: PrsExportAddressError");
    reveal_strlit("RspFailureCode");
    reveal_strlit("Command failed with status: RspFailureCode");
    assert("Command failed with status: "@ + "PrsExportAddressError"@
        =~= "Command failed with status: PrsExportAddressError"@);
    assert("Command failed with status: "@ + "RspFailureCode"@
        =~= "Command failed with status: RspFailureCode"@);
}

/// Appends the little-endian bytes of a 16-bit number.
fn push_le16(out: &mut Vec<u8>, x: u16)
    ensures
        final(out)@ == old(out)@ + spec_le16(x as nat),
{
    out.push((x % 256) as u8);
    out.push(((x / 256) % 256) as u8);
    assert(out@ =~= old(out)@ + spec_le16(x as nat));
}

/// What a status says of a request.
pub fn check_status(status: StatusEnum) -> (res: Result<(), KeystoneError>)
    ensures
        spec_check_status(status, res),
{
    match status {
        StatusEnum::RspSuccessCode => Ok(()),
        StatusEnum::PrsExportAddressRejected => Err(KeystoneError::UserRejected),
        StatusEnum::PrsExportAddressDisallowed => Err(KeystoneError::DeviceLocked),
        StatusEnum::PrsExportAddressUnsupportedChain => Err(
            KeystoneError::UnsupportedOperation(String::from_str("Unsupported chain")),
        ),
        _ => {
            let mut m = String::from_str("Command failed with status: ");
            m.append(status.debug_name());
            Err(KeystoneError::ProtocolError(m))
        },
    }
}

// ---------------------------------------------------------------------------
// HID packets
// ---------------------------------------------------------------------------

/// Packet `seq` of a request: the header, then the next (up to) 59 bytes of
/// the request, padded with zeros.
pub open spec fn spec_send_packet(data: Seq<u8>, seq: nat) -> Seq<u8> {
    let from: int = (seq * 59) as int;
    let to: int = if from + 59 <= data.len() {
        from + 59
    } else {
        data.len() as int
    };
    let body = seq![1u8, 1u8, 0u8, ((seq / 256) % 256) as u8, (seq % 256) as u8] + data.subrange(
        from,
        to,
    );
    body + Seq::new((64 - body.len()) as nat, |i: int| 0u8)
}

/// Cuts a request into packets; the transport's report of each write is fed
/// back before the next packet is made.
pub struct PacketSender {
    data: Vec<u8>,
    offset: usize,
    seq: usize,
}

impl PacketSender {
    pub closed spec fn spec_data(&self) -> Seq<u8> {
        self.data@
    }

    /// How many packets have been written.
    pub closed spec fn spec_sent(&self) -> nat {
        self.seq as nat
    }

    pub closed spec fn wf(&self) -> bool {
        &&& self.seq < 0xffff
        &&& self.offset == (if self.seq * 59 <= self.data@.len() {
            self.seq * 59
        } else {
            self.data@.len() as int
        })
    }

    pub fn new(data: Vec<u8>) -> (res: Self)
        ensures
            res.spec_data() == data@,
            res.spec_sent() == 0,
            res.wf(),
    {
        PacketSender { data, offset: 0, seq: 0 }
    }

    /// Whether request bytes remain to be sent.
    pub fn has_next(&self) -> (res: bool)
        requires
            self.wf(),
        ensures
            res == (self.spec_sent() * 59 < self.spec_data().len()),
    {
        self.offset < self.data.len()
    }

    /// The next packet to write.
    pub fn next_packet(&self) -> (res: Vec<u8>)
        requires
            self.wf(),
            self.spec_sent() * 59 < self.spec_data().len(),
        ensures
            res@ == spec_send_packet(self.spec_data(), self.spec_sent()),
    {
        let len = self.data.len();
        let to = if len - self.offset < PACKET_PAYLOAD_LEN {
            len
        } else {
            self.offset + PACKET_PAYLOAD_LEN
        };
        let mut packet: Vec<u8> = Vec::new();
        packet.push(0x01);
        packet.push(0x01);
        packet.push(0x00);
        packet.push(((self.seq / 256) % 256) as u8);
        packet.push((self.seq % 256) as u8);
        let ghost head = packet@;
        let mut i: usize = self.offset;
        while i < to
            invariant
                self.offset <= i <= to,
                to <= self.data@.len(),
                packet@ == head + self.data@.subrange(self.offset as int, i as int),
            decreases to - i,
        {
            packet.push(self.data[i]);
            i = i + 1;
            assert(packet@ =~= head + self.data@.subrange(self.offset as int, i as int));
        }
        let ghost body = packet@;
        while packet.len() < HID_PACKET_SIZE
            invariant
                body.len() <= HID_PACKET_SIZE,
                packet@.len() <= HID_PACKET_SIZE,
                packet@ == body + Seq::new((packet@.len() - body.len()) as nat, |k: int| 0u8),
            decreases HID_PACKET_SIZE - packet.len(),
        {
            packet.push(0);
            assert(packet@ =~= body + Seq::new((packet@.len() - body.len()) as nat, |k: int| 0u8));
        }
        assert(packet@ =~= spec_send_packet(self.data@, self.seq as nat));
        packet
    }

    /// Takes the number of bytes the transport wrote of the last packet.
    pub fn on_written(&mut self, written: usize) -> (res: Result<(), KeystoneError>)
        requires
            old(self).wf(),
            old(self).spec_sent() * 59 < old(self).spec_data().len(),
        ensures
            final(self).spec_data() == old(self).spec_data(),
            ({
                let chunk = if old(self).spec_sent() * 59 + 59 <= old(self).spec_data().len() {
                    59
                } else {
                    old(self).spec_data().len() - old(self).spec_sent() * 59
                };
                if written < chunk + 5 {
                    res matches Err(KeystoneError::UsbError(m)) && m@ == "Incomplete packet write"@
                } else if old(self).spec_sent() + 1 >= 0xffff {
                    res matches Err(KeystoneError::UsbError(m)) && m@
                        == "Maximum sequence number reached"@
                } else {
                    res is Ok && final(self).spec_sent() == old(self).spec_sent() + 1
                        && final(self).wf()
                }
            }),
    {
        let len = self.data.len();
        let chunk = if len - self.offset < PACKET_PAYLOAD_LEN {
            len - self.offset
        } else {
            PACKET_PAYLOAD_LEN
        };
        if written < chunk + PACKET_HEADER_LEN {
            return Err(KeystoneError::UsbError(String::from_str("Incomplete packet write")));
        }
        self.offset = self.offset + chunk;
        self.seq = self.seq + 1;
        if self.seq >= 0xffff {
            return Err(KeystoneError::UsbError(String::from_str("Maximum sequence number reached")));
        }
        Ok(())
    }
}

/// A big-endian 16-bit number.
pub open spec fn be16(hi: u8, lo: u8) -> nat {
    hi as nat * 256 + lo as nat
}

/// One packet (the bytes read) folded into the response so far: the data,
/// the expected sequence number, and whether the response is complete.
pub open spec fn spec_receive_step(data: Seq<u8>, seq: nat, packet: Seq<u8>) -> Result<
    (Seq<u8>, nat, bool),
    KeystoneError,
> {
    if packet.len() < 5 {
        Err(KeystoneError::UsbError(spec_text_string("Invalid packet size"@)))
    } else if be16(packet[0], packet[1]) != 0x0101 || packet[2] != 0 {
        Err(KeystoneError::UsbError(spec_text_string("Invalid packet header"@)))
    } else if be16(packet[3], packet[4]) != seq {
        Err(KeystoneError::UsbError(spec_text_string("Packet sequence mismatch"@)))
    } else if packet.len() - 5 < 59 {
        Ok((data + packet.subrange(5, packet.len() as int), seq, true))
    } else {
        Ok((data + packet.subrange(5, packet.len() as int), seq + 1, false))
    }
}

/// Some string holding `t`.
pub open spec fn spec_text_string(t: Seq<char>) -> String {
    choose|s: String| s@ == t
}

/// Whether two errors are the same up to the strings' identity.
pub open spec fn same_error(a: KeystoneError, b: KeystoneError) -> bool {
    a.spec_message() == b.spec_message() && match (a, b) {
        (KeystoneError::UsbError(_), KeystoneError::UsbError(_)) => true,
        (KeystoneError::ProtocolError(_), KeystoneError::ProtocolError(_)) => true,
        (KeystoneError::InvalidResponse(_), KeystoneError::InvalidResponse(_)) => true,
        (KeystoneError::NotConnected, KeystoneError::NotConnected) => true,
        (KeystoneError::UserRejected, KeystoneError::UserRejected) => true,
        (KeystoneError::DeviceLocked, KeystoneError::DeviceLocked) => true,
        (KeystoneError::UnsupportedOperation(_), KeystoneError::UnsupportedOperation(_)) => true,
        (KeystoneError::URProtocolError(_), KeystoneError::URProtocolError(_)) => true,
        _ => false,
    }
}

/// Reassembles a response from its packets.
pub struct PacketReceiver {
    data: Vec<u8>,
    seq: u16,
    done: bool,
}

impl PacketReceiver {
    pub closed spec fn spec_data(&self) -> Seq<u8> {
        self.data@
    }

    /// The sequence number the next packet must carry.
    pub closed spec fn spec_seq(&self) -> nat {
        self.seq as nat
    }

    pub closed spec fn spec_done(&self) -> bool {
        self.done
    }

    pub fn new() -> (res: Self)
        ensures
            res.spec_data().len() == 0,
            res.spec_seq() == 0,
            !res.spec_done(),
    {
        PacketReceiver { data: Vec::new(), seq: 0, done: false }
    }

    pub fn is_done(&self) -> (res: bool)
        ensures
            res == self.spec_done(),
    {
        self.done
    }

    /// The sequence number the next packet must carry.
    pub fn expected_sequence(&self) -> (res: u16)
        ensures
            res == self.spec_seq(),
    {
        self.seq
    }

    /// Takes the bytes of one packet read (at most a packet's size); a full
    /// packet after sequence number 0xffff has no successor number.
    pub fn feed(&mut self, packet: &[u8]) -> (res: Result<bool, KeystoneError>)
        requires
            !old(self).spec_done(),
            packet@.len() <= HID_PACKET_SIZE,
            old(self).spec_seq() < 0xffff || packet@.len() < HID_PACKET_SIZE,
        ensures
            match spec_receive_step(old(self).spec_data(), old(self).spec_seq(), packet@) {
                Ok((d, s, done)) => res == Ok::<bool, KeystoneError>(done)
                    && final(self).spec_data() == d && final(self).spec_seq() == s
                    && final(self).spec_done() == done,
                Err(e) => res matches Err(f) && same_error(e, f),
            },
    {
        let read = packet.len();
        if read < PACKET_HEADER_LEN {
            let r = Err(KeystoneError::UsbError(String::from_str("Invalid packet size")));
            proof {
                reveal_strlit("Invalid packet size");
            }
            return r;
        }
        let channel_id: u16 = (packet[0] as u16) * 256 + packet[1] as u16;
        let cmd_tag = packet[2];
        let packet_seq: u16 = (packet[3] as u16) * 256 + packet[4] as u16;
        if channel_id != 0x0101 || cmd_tag != 0x00 {
            return Err(KeystoneError::UsbError(String::from_str("Invalid packet header")));
        }
        if packet_seq != self.seq {
            return Err(KeystoneError::UsbError(String::from_str("Packet sequence mismatch")));
        }
        let ghost before = self.data@;
        let mut i: usize = PACKET_HEADER_LEN;
        while i < read
            invariant
                PACKET_HEADER_LEN <= i <= read,
                read == packet@.len(),
                self.data@ == before + packet@.subrange(5, i as int),
                self.seq == old(self).spec_seq(),
                !self.done,
            decreases read - i,
        {
            self.data.push(packet[i]);
            i = i + 1;
            assert(self.data@ =~= before + packet@.subrange(5, i as int));
        }
        if read - PACKET_HEADER_LEN < PACKET_PAYLOAD_LEN {
            self.done = true;
            return Ok(true);
        }
        self.seq = self.seq + 1;
        Ok(false)
    }

    /// The reassembled response.
    pub fn into_data(self) -> (res: Vec<u8>)
        ensures
            res@ == self.spec_data(),
    {
        self.data
    }
}

/// How many packets a request of `len` bytes takes: one per started block
/// of 59 bytes.
pub open spec fn spec_packet_count(len: nat) -> nat {
    if len % 59 == 0 {
        len / 59
    } else {
        len / 59 + 1
    }
}

/// Packet `seq` of a request up to the end of its payload, without the
/// padding: a packet as it is read back when it is not padded.
pub open spec fn spec_unpadded_packet(data: Seq<u8>, seq: nat) -> Seq<u8> {
    let from: int = (seq * 59) as int;
    let to: int = if from + 59 <= data.len() {
        from + 59
    } else {
        data.len() as int
    };
    spec_send_packet(data, seq).subrange(0, 5 + to - from)
}

/// Packets folded into a receiver in order, from a fresh one; once the
/// response is complete the rest are not read.
pub open spec fn spec_receive_all(packets: Seq<Seq<u8>>) -> Result<(Seq<u8>, nat, bool), KeystoneError>
    decreases packets.len(),
{
    if packets.len() == 0 {
        Ok((Seq::empty(), 0, false))
    } else {
        match spec_receive_all(packets.drop_last()) {
            Err(e) => Err(e),
            Ok((d, s, done)) => if done {
                Ok((d, s, done))
            } else {
                spec_receive_step(d, s, packets.last())
            },
        }
    }
}

proof fn lemma_seq_bytes(m: nat)
    requires
        m < 0x10000,
    ensures
        be16(((m / 256) % 256) as u8, (m % 256) as u8) == m,
{
    assert(m / 256 < 256);
    assert((m / 256) % 256 == m / 256);
    assert((m / 256) * 256 + m % 256 == m);
}

proof fn lemma_receive_full_packets(data: Seq<u8>, m: nat)
    requires
        (m as int) * 59 < data.len(),
        m < 0x10000,
    ensures
        spec_receive_all(Seq::new(m, |k: int| spec_unpadded_packet(data, k as nat))) == Ok::<
            (Seq<u8>, nat, bool),
            KeystoneError,
        >((data.subrange(0, (m * 59) as int), m, false)),
    decreases m,
{
    let ps = Seq::new(m, |k: int| spec_unpadded_packet(data, k as nat));
    if m == 0 {
        assert(data.subrange(0, 0) =~= Seq::<u8>::empty());
    } else {
        let j = (m - 1) as nat;
        lemma_receive_full_packets(data, j);
        assert(ps.drop_last() =~= Seq::new(j, |k: int| spec_unpadded_packet(data, k as nat)));
        let p = ps.last();
        assert(p == spec_unpadded_packet(data, j));
        let from: int = (j * 59) as int;
        assert(from + 59 <= data.len());
        lemma_seq_bytes(j);
        let body = seq![1u8, 1u8, 0u8, ((j / 256) % 256) as u8, (j % 256) as u8] + data.subrange(
            from,
            from + 59,
        );
        assert(body.len() == 64);
        assert(spec_send_packet(data, j) =~= body);
        assert(p =~= body);
        assert(p.subrange(5, p.len() as int) =~= data.subrange(from, from + 59));
        assert(data.subrange(0, from) + data.subrange(from, from + 59) =~= data.subrange(
            0,
            (m * 59) as int,
        ));
    }
}

/// The packets of a request, each read back up to the end of its payload,
/// reassemble the request: there are as many as the sender sends, every one
/// is accepted in turn, and the last one completes the response. This holds
/// when the request's length is no multiple of 59 (else its last packet is
/// full and the receiver waits for another) and it takes at most 0xffff
/// packets.
pub proof fn lemma_packets_reassemble(data: Seq<u8>)
    requires
        data.len() % 59 != 0,
        spec_packet_count(data.len()) <= 0xffff,
    ensures
        ({
            let n = spec_packet_count(data.len());
            &&& n >= 1
            &&& (n - 1) * 59 < data.len() <= n * 59
            &&& spec_receive_all(Seq::new(n, |k: int| spec_unpadded_packet(data, k as nat))) == Ok::<
                (Seq<u8>, nat, bool),
                KeystoneError,
            >((data, (n - 1) as nat, true))
        }),
{
    let len = data.len();
    let n = spec_packet_count(len);
    let j = (n - 1) as nat;
    assert(n == len / 59 + 1);
    assert(j * 59 < len && len < j * 59 + 59) by (nonlinear_arith)
        requires
            j == len / 59,
            len % 59 != 0,
    ;
    lemma_receive_full_packets(data, j);
    let ps = Seq::new(n, |k: int| spec_unpadded_packet(data, k as nat));
    assert(ps.drop_last() =~= Seq::new(j, |k: int| spec_unpadded_packet(data, k as nat)));
    let p = ps.last();
    assert(p == spec_unpadded_packet(data, j));
    let from: int = (j * 59) as int;
    lemma_seq_bytes(j);
    let body = seq![1u8, 1u8, 0u8, ((j / 256) % 256) as u8, (j % 256) as u8] + data.subrange(
        from,
        len as int,
    );
    assert(p =~= body);
    assert(p.subrange(5, p.len() as int) =~= data.subrange(from, len as int));
    assert(data.subrange(0, from) + data.subrange(from, len as int) =~= data);
}

// ---------------------------------------------------------------------------
// The wallet
// ---------------------------------------------------------------------------

/// What a reply's bytes say as text: the UTF-8 text, or why it is none.
pub open spec fn spec_reply_text(data: Seq<u8>, r: Result<String, KeystoneError>) -> bool {
    if valid_utf8(data) {
        r matches Ok(s) && s@ == decode_utf8(data)
    } else {
        r matches Err(KeystoneError::InvalidResponse(m)) && m@ == "Invalid UTF-8: "@
            + spec_utf8_error_text(data)
    }
}

/// The public key an export-address reply gives: the `pubkey` string of a
/// JSON document, or else the key of the UR the text holds.
pub open spec fn spec_pubkey_from_export_reply(data: Seq<u8>, r: Result<Pubkey, KeystoneError>) -> bool {
    if !valid_utf8(data) {
        r matches Err(KeystoneError::InvalidResponse(m)) && m@ == "Invalid UTF-8: "@
            + spec_utf8_error_text(data)
    } else {
        let text = decode_utf8(data);
        match spec_json_str_field(text, "pubkey"@) {
            Some(Some(p)) => match spec_pubkey_from_str(p) {
                Ok(b) => r matches Ok(k) && k.bytes@ == b,
                Err(e) => r matches Err(KeystoneError::InvalidResponse(m)) && m@
                    == "Invalid public key: "@ + e.spec_message(),
            },
            _ => exists|u: Result<crate::ur_protocol::UR, URProtocolError>|
                #![trigger spec_decode_ur(text, u)]
                spec_decode_ur(text, u) && match u {
                    Err(e) => r matches Err(KeystoneError::URProtocolError(f)) && f == e,
                    Ok(ur) => exists|q: Result<Pubkey, URProtocolError>|
                        #![trigger spec_parse_pubkey_response(&ur, q)]
                        spec_parse_pubkey_response(&ur, q) && match q {
                            Ok(k) => r == Ok::<Pubkey, KeystoneError>(k),
                            Err(e) => r matches Err(KeystoneError::URProtocolError(f)) && f == e,
                        },
                },
        }
    }
}

/// The first-generation Keystone wallet, apart from its USB handle.
pub struct KeystoneWallet {
    device_path: String,
    model: String,
    serial: String,
    firmware_version: String,
    settings: HardwareWalletSettings,
}

impl KeystoneWallet {
    pub closed spec fn spec_device_path(&self) -> Seq<char> {
        self.device_path@
    }

    pub closed spec fn spec_model(&self) -> Seq<char> {
        self.model@
    }

    pub closed spec fn spec_serial(&self) -> Seq<char> {
        self.serial@
    }

    pub closed spec fn spec_firmware_version(&self) -> Seq<char> {
        self.firmware_version@
    }

    /// A freshly connected wallet: model `Keystone Pro`, serial `unknown`,
    /// firmware `1.0.0`, blind signing off, short key display, locking after
    /// 300 seconds.
    pub fn connected(device_path: String) -> (res: Self)
        ensures
            res.spec_device_path() == device_path@,
            res.spec_model() == "Keystone Pro"@,
            res.spec_serial() == "unknown"@,
            res.spec_firmware_version() == "1.0.0"@,
    {
        KeystoneWallet {
            device_path,
            model: String::from_str("Keystone Pro"),
            serial: String::from_str("unknown"),
            firmware_version: String::from_str("1.0.0"),
            settings: HardwareWalletSettings {
                enable_blind_signing: false,
                pubkey_display_mode: PubkeyDisplayMode::Short,
                auto_lock_delay: Some(300),
            },
        }
    }

    /// Takes the model the device reported.
    pub fn set_model(&mut self, model: String)
        ensures
            final(self).spec_model() == model@,
            final(self).spec_device_path() == old(self).spec_device_path(),
            final(self).spec_serial() == old(self).spec_serial(),
            final(self).spec_firmware_version() == old(self).spec_firmware_version(),
    {
        self.model = model;
    }

    pub fn name(&self) -> (res: &str)
        ensures
            res@ == "Keystone hardware wallet"@,
    {
        "Keystone hardware wallet"
    }

    pub fn manufacturer(&self) -> (res: &str)
        ensures
            res@ == "keystone"@,
    {
        "keystone"
    }

    pub fn model(&self) -> (res: &str)
        ensures
            res@ == self.spec_model(),
    {
        self.model.as_str()
    }

    pub fn serial(&self) -> (res: &str)
        ensures
            res@ == self.spec_serial(),
    {
        self.serial.as_str()
    }

    pub fn device_path(&self) -> (res: &str)
        ensures
            res@ == self.spec_device_path(),
    {
        self.device_path.as_str()
    }

    pub fn firmware_version(&self) -> (res: Result<String, RemoteWalletError>)
        ensures
            res matches Ok(v) && v@ == self.spec_firmware_version(),
    {
        Ok(self.firmware_version.clone())
    }

    /// Off-chain messages cannot be signed with this wallet.
    pub fn sign_offchain_message_unsupported(&self) -> (res: Result<(), RemoteWalletError>)
        ensures
            res == Err::<(), RemoteWalletError>(
                RemoteWalletError::Protocol("Keystone off-chain signing not supported"),
            ),
    {
        Err(RemoteWalletError::Protocol("Keystone off-chain signing not supported"))
    }

    /// The request of a command with its data (request id 0).
    pub fn request_for(command: CommandType, data: &[u8]) -> (res: EAPDURequestPayload)
        ensures
            res.cla == crate::keystone_protocol::KEYSTONE_PROTOCOL_HEADER,
            res.data@ == data@,
            res.data_len == (data@.len() % 0x1_0000_0000) as u32,
            res.request_id == 0,
            res.command_type == command,
    {
        let mut v: Vec<u8> = Vec::new();
        let mut i: usize = 0;
        while i < data.len()
            invariant
                i <= data@.len(),
                v@ == data@.subrange(0, i as int),
            decreases data.len() - i,
        {
            v.push(data[i]);
            i = i + 1;
            assert(v@ =~= data@.subrange(0, i as int));
        }
        assert(data@.subrange(0, data@.len() as int) =~= data@);
        EAPDURequestPayload {
            cla: crate::keystone_protocol::KEYSTONE_PROTOCOL_HEADER,
            data: v,
            data_len: (data.len() as u64 % 0x1_0000_0000) as u32,
            request_id: 0,
            command_type: command,
        }
    }

    /// Serializes a request.
    pub fn serialize_request(&self, request: &EAPDURequestPayload) -> (res: Result<
        Vec<u8>,
        KeystoneError,
    >)
        ensures
            res matches Ok(v) && v@ == spec_serialize_request(*request),
    {
        let mut data: Vec<u8> = Vec::new();
        data.push(request.cla);
        let code = request.command_type.as_u32();
        data.push((code % 256) as u8);
        data.push(((code / 256) % 256) as u8);
        data.push(((code / 0x1_0000) % 256) as u8);
        data.push(((code / 0x100_0000) % 256) as u8);
        push_le16(&mut data, request.request_id);
        push_le16(&mut data, (request.data_len % 0x1_0000) as u16);
        let ghost head = data@;
        let mut i: usize = 0;
        while i < request.data.len()
            invariant
                i <= request.data@.len(),
                data@ == head + request.data@.subrange(0, i as int),
            decreases request.data.len() - i,
        {
            data.push(request.data[i]);
            i = i + 1;
            assert(data@ =~= head + request.data@.subrange(0, i as int));
        }
        assert(request.data@.subrange(0, request.data@.len() as int) =~= request.data@);
        assert(data@ =~= spec_serialize_request(*request));
        Ok(data)
    }

    /// Reads a serialized response.
    pub fn deserialize_response(&self, data: &[u8]) -> (res: Result<
        EAPDUResponsePayload,
        KeystoneError,
    >)
        requires
            spec_response_readable(data@),
        ensures
            spec_deserialize_response(data@, res),
    {
        if data.len() < 12 {
            return Err(KeystoneError::InvalidResponse(String::from_str("Response too short")));
        }
        let cla = data[0];
        let status: u32 = data[1] as u32 + (data[2] as u32) * 256 + (data[3] as u32) * 0x1_0000
            + (data[4] as u32) * 0x100_0000;
        let request_id: u16 = data[5] as u16 + (data[6] as u16) * 256;
        let command_type: u32 = data[7] as u32 + (data[8] as u32) * 256 + (data[9] as u32)
            * 0x1_0000 + (data[10] as u32) * 0x100_0000;
        let data_len: u16 = data[11] as u16 + (data[12] as u16) * 256;
        let mut response_data: Vec<u8> = Vec::new();
        if data.len() > 13 {
            let end = 13 + data_len as usize;
            let mut i: usize = 13;
            while i < end
                invariant
                    13 <= i <= end,
                    end <= data@.len(),
                    response_data@ == data@.subrange(13, i as int),
                decreases end - i,
            {
                response_data.push(data[i]);
                i = i + 1;
                assert(response_data@ =~= data@.subrange(13, i as int));
            }
        }
        Ok(EAPDUResponsePayload {
            cla,
            data: response_data,
            data_len: data_len as u32,
            status: StatusEnum::from_u32(status),
            request_id,
            command_type: CommandType::from_u32(command_type),
        })
    }

    /// The text of a reply's data.
    pub fn reply_text(data: &[u8]) -> (res: Result<String, KeystoneError>)
        ensures
            spec_reply_text(data@, res),
    {
        match utf8_to_string(data) {
            Ok(s) => Ok(s),
            Err(t) => {
                let mut m = String::from_str("Invalid UTF-8: ");
                m.append(t.as_str());
                Err(KeystoneError::InvalidResponse(m))
            },
        }
    }

    /// The device information from the master fingerprint of a device-info
    /// reply, or the error of reading that reply as JSON.
    pub fn device_info_from_reply(&self, wallet_mfp: Result<String, String>) -> (res: Result<
        RemoteWalletInfo,
        KeystoneError,
    >)
        ensures
            match wallet_mfp {
                Ok(m) => res matches Ok(info) && info.model@ == "Keystone Pro"@ && info.manufacturer
                    == Manufacturer::Keystone && info.serial@ == m@ && info.host_device_path@
                    == self.spec_device_path() && info.pubkey.is_default() && info.error is None,
                Err(t) => res matches Err(KeystoneError::InvalidResponse(m)) && m@
                    == "Invalid JSON: "@ + t@,
            },
    {
        match wallet_mfp {
            Ok(m) => Ok(
                RemoteWalletInfo {
                    model: String::from_str("Keystone Pro"),
                    manufacturer: Manufacturer::Keystone,
                    serial: m,
                    host_device_path: self.device_path.clone(),
                    pubkey: Pubkey::default_key(),
                    error: None,
                },
            ),
            Err(t) => {
                let mut m = String::from_str("Invalid JSON: ");
                m.append(t.as_str());
                Err(KeystoneError::InvalidResponse(m))
            },
        }
    }

    /// The public key in the reply to an export-address request.
    pub fn pubkey_from_export_reply(data: &[u8]) -> (res: Result<Pubkey, KeystoneError>)
        ensures
            spec_pubkey_from_export_reply(data@, res),
    {
        let json_str = Self::reply_text(data)?;
        match json_str_field(json_str.as_str(), "pubkey") {
            Ok(Some(pubkey_str)) => {
                return match pubkey_from_str(pubkey_str.as_str()) {
                    Ok(k) => Ok(k),
                    Err(e) => {
                        let mut m = String::from_str("Invalid public key: ");
                        let em = e.message();
                        m.append(em.as_str());
                        Err(KeystoneError::InvalidResponse(m))
                    },
                };
            },
            _ => {},
        }
        let ur_response = match URProtocol::decode_ur(json_str.as_str()) {
            Ok(u) => u,
            Err(e) => {
                return Err(KeystoneError::URProtocolError(e));
            },
        };
        match URProtocol::parse_pubkey_response(&ur_response) {
            Ok(k) => Ok(k),
            Err(e) => Err(KeystoneError::URProtocolError(e)),
        }
    }
}

} // verus!
