//! Keystone hardware wallet over a packet transport.
//!
//! Transport protocol of a request packet (64 bytes):
//!   * three zero bytes
//!   * command code                  (1 byte)
//!   * total packet count            (2 bytes big endian)
//!   * packet sequence number        (2 bytes big endian)
//!   * request id                    (2 bytes big endian)
//!   * payload, padded with zeros to the packet size
//!
//! Response packets carry, after their trailing zeros are dropped:
//!   * class                         (1 byte)
//!   * command code                  (2 bytes big endian)
//!   * total packet count            (2 bytes big endian)
//!   * packet sequence number        (2 bytes big endian)
//!   * request id                    (2 bytes big endian)
//!   * payload
//! and the reassembled payload ends with a two-byte status word.
use crate::errors::RemoteWalletError;
use crate::json::{json_str_field, spec_json_str_field};
use crate::keys::{spec_bip44, ChildIndex, DerivationPath, Pubkey, Signature};
use crate::locator::Manufacturer;
use crate::remote_wallet::{HidDeviceInfo, RemoteWallet, RemoteWalletInfo};
use crate::text::{
    chars_of, find_char, hex_decode, parse_unsigned, rfind_char, spec_find, spec_hex_decode,
    spec_parse_unsigned, spec_rfind, spec_split, spec_str_to_lowercase, spec_utf8_lossy,
    split_chars, str_to_lowercase, string_of, sub_chars, utf8_lossy,
};
use crate::transport::common::{check_written, spec_write_outcome};
use crate::transport::transport_trait::Transport;
use crate::ur_protocol::KeypathComponent;
use crate::wallet::WalletProbe;
use ur_parse_lib::keystone_ur_decoder::{probe_decode, URParseResult};
use ur_parse_lib::keystone_ur_encoder::probe_encode;
use ur_registry::crypto_key_path::{CryptoKeyPath, PathComponent};
use ur_registry::error::URError;
use ur_registry::extend::crypto_multi_accounts::CryptoMultiAccounts;
use ur_registry::extend::key_derivation::KeyDerivationCall;
use ur_registry::extend::key_derivation_schema::{Curve, KeyDerivationSchema};
use ur_registry::extend::qr_hardware_call::{CallParams, CallType as HardwareCallType, HardWareCallVersion, QRHardwareCall};
use ur_registry::solana::sol_sign_request::{SignType, SolSignRequest};
use ur_registry::solana::sol_signature::SolSignature;
use ur_registry::traits::RegistryItem;
use crate::wallet::keystone::error::{
    lemma_communication_error_iff, spec_from_code, spec_names_device_error, KeystoneError,
};
use vstd::prelude::*;
use vstd::utf8::encode_utf8;

verus! {

/// Size of a HID packet.
pub const HID_PACKET_SIZE: usize = 64;

/// Header bytes of a request packet.
pub const REQUEST_HEADER_LEN: usize = 10;

/// Payload bytes of a request packet.
pub const REQUEST_PAYLOAD_LEN: usize = 54;

/// Header bytes of a response packet.
pub const RESPONSE_HEADER_LEN: usize = 9;

/// Shortest packet a transport may return.
pub const LEDGER_TRANSPORT_HEADER_LEN: usize = 5;

/// Highest packet sequence number plus one.
pub const MAX_SEQUENCE: usize = 0xffff;

/// Keystone EAPDU commands.
#[allow(non_camel_case_types)]
#[derive(Debug, Clone, Copy, PartialEq, Eq, Structural)]
pub enum CommandType {
    CMD_ECHO_TEST,
    CMD_RESOLVE_UR,
    CMD_CHECK_LOCK_STATUS,
    CMD_EXPORT_ADDRESS,
    CMD_GET_DEVICE_INFO,
    CMD_GET_DEVICE_USB_PUBKEY,
}

impl CommandType {
    pub open spec fn spec_code(self) -> u16 {
        match self {
            CommandType::CMD_ECHO_TEST => 1,
            CommandType::CMD_RESOLVE_UR => 2,
            CommandType::CMD_CHECK_LOCK_STATUS => 3,
            CommandType::CMD_EXPORT_ADDRESS => 4,
            CommandType::CMD_GET_DEVICE_INFO => 5,
            CommandType::CMD_GET_DEVICE_USB_PUBKEY => 6,
        }
    }

    pub fn code(&self) -> (res: u16)
        ensures
            res == self.spec_code(),
    {
        match self {
            CommandType::CMD_ECHO_TEST => 0x01,
            CommandType::CMD_RESOLVE_UR => 0x02,
            CommandType::CMD_CHECK_LOCK_STATUS => 0x03,
            CommandType::CMD_EXPORT_ADDRESS => 0x04,
            CommandType::CMD_GET_DEVICE_INFO => 0x05,
            CommandType::CMD_GET_DEVICE_USB_PUBKEY => 0x06,
        }
    }

    pub open spec fn spec_is_valid_command(value: u16) -> bool {
        1 <= value <= 6
    }

    /// Whether a code names a command.
    pub fn is_valid_command(value: u16) -> (res: bool)
        ensures
            res == Self::spec_is_valid_command(value),
    {
        value == 0x01 || value == 0x02 || value == 0x03 || value == 0x04 || value == 0x05 || value
            == 0x06
    }

    /// The command a code names.
    pub fn from_u16(value: u16) -> (res: Option<CommandType>)
        ensures
            res is Some <==> Self::spec_is_valid_command(value),
            res matches Some(c) ==> c.spec_code() == value,
    {
        match value {
            0x01 => Some(CommandType::CMD_ECHO_TEST),
            0x02 => Some(CommandType::CMD_RESOLVE_UR),
            0x03 => Some(CommandType::CMD_CHECK_LOCK_STATUS),
            0x04 => Some(CommandType::CMD_EXPORT_ADDRESS),
            0x05 => Some(CommandType::CMD_GET_DEVICE_INFO),
            0x06 => Some(CommandType::CMD_GET_DEVICE_USB_PUBKEY),
            _ => None,
        }
    }
}

/// The codes of the Keystone commands: echo test 0x01, resolve UR 0x02,
/// check lock status 0x03, export address 0x04, device info 0x05 and USB
/// public key 0x06; exactly these codes name a command.
pub proof fn lemma_command_code_table(value: u16)
    ensures
        CommandType::CMD_ECHO_TEST.spec_code() == 0x01,
        CommandType::CMD_RESOLVE_UR.spec_code() == 0x02,
        CommandType::CMD_CHECK_LOCK_STATUS.spec_code() == 0x03,
        CommandType::CMD_EXPORT_ADDRESS.spec_code() == 0x04,
        CommandType::CMD_GET_DEVICE_INFO.spec_code() == 0x05,
        CommandType::CMD_GET_DEVICE_USB_PUBKEY.spec_code() == 0x06,
        CommandType::spec_is_valid_command(value) <==> (exists|c: CommandType|
            #[trigger] c.spec_code() == value),
{
    if CommandType::spec_is_valid_command(value) {
        if value == 1 {
            assert(CommandType::CMD_ECHO_TEST.spec_code() == value);
        } else if value == 2 {
            assert(CommandType::CMD_RESOLVE_UR.spec_code() == value);
        } else if value == 3 {
            assert(CommandType::CMD_CHECK_LOCK_STATUS.spec_code() == value);
        } else if value == 4 {
            assert(CommandType::CMD_EXPORT_ADDRESS.spec_code() == value);
        } else if value == 5 {
            assert(CommandType::CMD_GET_DEVICE_INFO.spec_code() == value);
        } else {
            assert(CommandType::CMD_GET_DEVICE_USB_PUBKEY.spec_code() == value);
        }
    }
}

// ---------------------------------------------------------------------------
// Request framing
// ---------------------------------------------------------------------------

/// The packet count a request of `len` payload bytes announces: one packet
/// for up to 11 bytes, otherwise one per started block of 54 bytes.
pub open spec fn spec_total_packets(len: nat) -> nat {
    if len > 11 {
        if len % 54 == 0 {
            len / 54
        } else {
            len / 54 + 1
        }
    } else {
        1
    }
}

/// The payload bytes that packet `seq` carries when they start at `offset`.
pub open spec fn spec_request_chunk(data: Seq<u8>, offset: nat) -> Seq<u8> {
    if offset + 54 <= data.len() {
        data.subrange(offset as int, offset + 54int)
    } else {
        data.subrange(offset as int, data.len() as int)
    }
}

/// Request packet number `seq` of a request with `total` packets, carrying `chunk`.
pub open spec fn spec_request_packet(code: u16, total: nat, seq: nat, chunk: Seq<u8>) -> Seq<u8> {
    seq![
        0u8,
        0u8,
        0u8,
        (code % 256) as u8,
        ((total / 256) % 256) as u8,
        (total % 256) as u8,
        ((seq / 256) % 256) as u8,
        (seq % 256) as u8,
        ((seq / 256) % 256) as u8,
        (seq % 256) as u8,
    ] + chunk + Seq::new((54 - chunk.len()) as nat, |i: int| 0u8)
}

/// Builds one request packet.
pub fn request_packet(command: CommandType, total: usize, seq: usize, data: &[u8], offset: usize) -> (res: Vec<u8>)
    requires
        offset <= data@.len(),
    ensures
        res@ == spec_request_packet(
            command.spec_code(),
            total as nat,
            seq as nat,
            spec_request_chunk(data@, offset as nat),
        ),
        res@.len() == HID_PACKET_SIZE,
{
    let size = if data.len() - offset < REQUEST_PAYLOAD_LEN {
        data.len() - offset
    } else {
        REQUEST_PAYLOAD_LEN
    };
    let code = command.code();
    let mut packet: Vec<u8> = Vec::new();
    packet.push(0x00);
    packet.push(0x00);
    packet.push(0x00);
    packet.push((code % 256) as u8);
    packet.push(((total / 256) % 256) as u8);
    packet.push((total % 256) as u8);
    packet.push(((seq / 256) % 256) as u8);
    packet.push((seq % 256) as u8);
    packet.push(((seq / 256) % 256) as u8);
    packet.push((seq % 256) as u8);
    let ghost header = packet@;
    let dl = data.len();
    let mut i: usize = 0;
    while i < size
        invariant
            dl == data@.len(),
            size <= REQUEST_PAYLOAD_LEN,
            offset + size <= data@.len(),
            i <= size,
            header.len() == REQUEST_HEADER_LEN,
            packet@ == header + data@.subrange(offset as int, offset + i),
        decreases size - i,
    {
        packet.push(data[offset + i]);
        i = i + 1;
        assert(packet@ =~= header + data@.subrange(offset as int, offset + i));
    }
    let mut j: usize = size;
    while j < REQUEST_PAYLOAD_LEN
        invariant
            size <= j <= REQUEST_PAYLOAD_LEN,
            offset + size <= data@.len(),
            header.len() == REQUEST_HEADER_LEN,
            packet@ == header + data@.subrange(offset as int, offset + size) + Seq::new(
                (j - size) as nat,
                |k: int| 0u8,
            ),
        decreases REQUEST_PAYLOAD_LEN - j,
    {
        packet.push(0x00);
        j = j + 1;
        assert(packet@ =~= header + data@.subrange(offset as int, offset + size) + Seq::new(
            (j - size) as nat,
            |k: int| 0u8,
        ));
    }
    let ghost chunk = spec_request_chunk(data@, offset as nat);
    assert(chunk =~= data@.subrange(offset as int, offset + size));
    assert(packet@ =~= spec_request_packet(code, total as nat, seq as nat, chunk));
    packet
}

/// The packet count announced for a request of `len` bytes.
pub fn total_packets(len: usize) -> (res: usize)
    ensures
        res == spec_total_packets(len as nat),
{
    if len > 11 {
        if len % REQUEST_PAYLOAD_LEN == 0 {
            len / REQUEST_PAYLOAD_LEN
        } else {
            len / REQUEST_PAYLOAD_LEN + 1
        }
    } else {
        1
    }
}

/// The packets of a request, in order: packet `k` carries the bytes from
/// `54 * k` on.
pub open spec fn spec_request_packets(code: u16, data: Seq<u8>) -> Seq<Seq<u8>> {
    Seq::new(
        spec_total_packets(data.len()),
        |k: int|
            spec_request_packet(
                code,
                spec_total_packets(data.len()),
                k as nat,
                spec_request_chunk(data, (54 * k) as nat),
            ),
    )
}

/// The fewest bytes the transport must take of each packet of a request:
/// its header and its chunk of the request.
pub open spec fn spec_request_mins(data: Seq<u8>) -> Seq<nat> {
    Seq::new(
        spec_total_packets(data.len()),
        |k: int| 10 + spec_request_chunk(data, (54 * k) as nat).len(),
    )
}

proof fn lemma_packet_start(len: nat, k: nat)
    requires
        k < spec_total_packets(len),
    ensures
        54 * k <= len,
        54 * k < len || len == 0,
{
    if len > 11 {
        assert(54 * k < len) by (nonlinear_arith)
            requires
                len > 11,
                k < (if len % 54 == 0 {
                    len / 54
                } else {
                    len / 54 + 1
                }),
        ;
    }
}

/// The packets of a request, in order.
pub fn request_packets(command: CommandType, data: &[u8]) -> (res: Vec<Vec<u8>>)
    ensures
        res@.map_values(|p: Vec<u8>| p@) == spec_request_packets(command.spec_code(), data@),
{
    let total = total_packets(data.len());
    let mut packets: Vec<Vec<u8>> = Vec::new();
    let mut k: usize = 0;
    while k < total
        invariant
            k <= total,
            total == spec_total_packets(data@.len()),
            packets@.map_values(|p: Vec<u8>| p@) == spec_request_packets(
                command.spec_code(),
                data@,
            ).take(k as int),
        decreases total - k,
    {
        proof {
            lemma_packet_start(data@.len(), k as nat);
        }
        assert(54 * k <= data.len());
        let packet = request_packet(command, total, k, data, 54 * k);
        assert(spec_request_packets(command.spec_code(), data@)[k as int] == packet@);
        let ghost before = packets@;
        packets.push(packet);
        assert(packets@.map_values(|p: Vec<u8>| p@) =~= before.map_values(|p: Vec<u8>| p@).push(
            packet@,
        ));
        k = k + 1;
        assert(packets@.map_values(|p: Vec<u8>| p@) =~= spec_request_packets(
            command.spec_code(),
            data@,
        ).take(k as int));
    }
    assert(packets@.map_values(|p: Vec<u8>| p@) =~= spec_request_packets(command.spec_code(), data@));
    packets
}

/// The payload bytes the first `n` packets of a request carry, in order.
pub open spec fn spec_carried(data: Seq<u8>, n: nat) -> Seq<u8>
    decreases n,
{
    if n == 0 {
        Seq::empty()
    } else {
        spec_carried(data, (n - 1) as nat) + spec_request_chunk(data, (54 * (n - 1)) as nat)
    }
}

proof fn lemma_carried_prefix(data: Seq<u8>, n: nat)
    requires
        n == 0 || 54 * (n - 1) <= data.len(),
    ensures
        spec_carried(data, n) == data.subrange(
            0,
            if 54 * n <= data.len() {
                (54 * n) as int
            } else {
                data.len() as int
            },
        ),
    decreases n,
{
    if n > 0 {
        lemma_carried_prefix(data, (n - 1) as nat);
        assert(spec_carried(data, n) =~= data.subrange(
            0,
            if 54 * n <= data.len() {
                (54 * n) as int
            } else {
                data.len() as int
            },
        ));
    } else {
        assert(data.subrange(0, 0) =~= Seq::<u8>::empty());
    }
}

/// The packets of a request carry the whole request, each byte once and in
/// order.
pub proof fn lemma_packets_carry_request(data: Seq<u8>)
    ensures
        spec_carried(data, spec_total_packets(data.len())) == data,
{
    let len = data.len();
    let n = spec_total_packets(len);
    if len > 11 {
        assert(54 * (n - 1) < len && len <= 54 * n) by (nonlinear_arith)
            requires
                len > 11,
                n == (if len % 54 == 0 {
                    len / 54
                } else {
                    len / 54 + 1
                }),
        ;
    }
    lemma_carried_prefix(data, n);
    assert(data.subrange(0, len as int) =~= data);
}

// ---------------------------------------------------------------------------
// Response reassembly
// ---------------------------------------------------------------------------

/// A packet without its trailing zero bytes.
pub open spec fn spec_strip_trailing_zeros(p: Seq<u8>) -> Seq<u8>
    decreases p.len(),
{
    if p.len() > 0 && p.last() == 0 {
        spec_strip_trailing_zeros(p.drop_last())
    } else {
        p
    }
}

/// The packet `p` without its trailing zero bytes.
pub fn strip_trailing_zeros(p: &[u8]) -> (res: Vec<u8>)
    ensures
        res@ == spec_strip_trailing_zeros(p@),
{
    let mut end = p.len();
    assert(p@.subrange(0, end as int) =~= p@);
    while end > 0 && p[end - 1] == 0
        invariant
            end <= p@.len(),
            spec_strip_trailing_zeros(p@) == spec_strip_trailing_zeros(p@.subrange(0, end as int)),
        decreases end,
    {
        assert(p@.subrange(0, end as int).drop_last() =~= p@.subrange(0, end - 1));
        end = end - 1;
    }
    let mut res: Vec<u8> = Vec::new();
    let mut i: usize = 0;
    while i < end
        invariant
            end <= p@.len(),
            i <= end,
            res@ == p@.subrange(0, i as int),
        decreases end - i,
    {
        res.push(p[i]);
        i = i + 1;
        assert(res@ =~= p@.subrange(0, i as int));
    }
    assert(end == 0 || p@.subrange(0, end as int).last() != 0);
    res
}

/// A big-endian 16-bit number.
pub open spec fn be16(hi: u8, lo: u8) -> nat {
    hi as nat * 256 + lo as nat
}

/// One response packet folded into what has been assembled: the payload so
/// far, the expected sequence number, and whether the response is complete.
pub open spec fn spec_read_step(data: Seq<u8>, seq: nat, chunk: Seq<u8>) -> Result<
    (Seq<u8>, nat, bool),
    RemoteWalletError,
> {
    let p = spec_strip_trailing_zeros(chunk);
    if chunk.len() < 5 || p.len() < 9 {
        Err(RemoteWalletError::Protocol("Invalid HID packet size"))
    } else if !(1 <= be16(p[1], p[2]) <= 6) {
        Err(RemoteWalletError::Protocol("Invalid command"))
    } else if be16(p[5], p[6]) != seq {
        Err(RemoteWalletError::Protocol("Invalid packet sequence"))
    } else if seq + 1 == be16(p[3], p[4]) {
        Ok((data + p.subrange(9, p.len() as int), seq + 1, true))
    } else if seq + 1 >= 0xffff {
        Err(RemoteWalletError::Protocol("Maximum sequence number reached"))
    } else {
        Ok((data + p.subrange(9, p.len() as int), seq + 1, false))
    }
}

/// The packets of a response folded in order; a complete response takes no
/// further packets.
pub open spec fn spec_read_chunks(chunks: Seq<Seq<u8>>) -> Result<
    (Seq<u8>, nat, bool),
    RemoteWalletError,
>
    decreases chunks.len(),
{
    if chunks.len() == 0 {
        Ok((Seq::empty(), 0, false))
    } else {
        match spec_read_chunks(chunks.drop_last()) {
            Err(e) => Err(e),
            Ok((d, s, done)) => if done {
                Ok((d, s, done))
            } else {
                spec_read_step(d, s, chunks.last())
            },
        }
    }
}

/// The response a complete payload carries: the payload without its trailing
/// two-byte status word.
pub open spec fn spec_response_of(data: Seq<u8>) -> Result<Seq<u8>, RemoteWalletError> {
    if data.len() < 2 {
        Err(RemoteWalletError::Protocol("Response too short"))
    } else {
        Ok(data.subrange(0, data.len() - 2))
    }
}

/// The packets `chunks` make a complete response whose content is `r`.
pub open spec fn spec_chunks_give_response(chunks: Seq<Seq<u8>>, r: Seq<u8>) -> bool {
    match spec_read_chunks(chunks) {
        Ok((d, s, done)) => done && spec_response_of(d) == Ok::<Seq<u8>, RemoteWalletError>(r),
        Err(_) => false,
    }
}

/// `r` is the content of some complete response.
pub open spec fn spec_is_reply(r: Seq<u8>) -> bool {
    exists|chunks: Seq<Seq<u8>>| #[trigger] spec_chunks_give_response(chunks, r)
}

/// Reassembles a response from its packets, one at a time.
pub struct ResponseAssembler {
    data: Vec<u8>,
    seq: u16,
    done: bool,
}

impl ResponseAssembler {
    pub closed spec fn spec_data(&self) -> Seq<u8> {
        self.data@
    }

    pub closed spec fn spec_seq(&self) -> nat {
        self.seq as nat
    }

    pub closed spec fn spec_done(&self) -> bool {
        self.done
    }

    /// The assembler has taken the packets `chunks`.
    pub open spec fn has_taken(&self, chunks: Seq<Seq<u8>>) -> bool {
        spec_read_chunks(chunks) == Ok::<(Seq<u8>, nat, bool), RemoteWalletError>(
            (self.spec_data(), self.spec_seq(), self.spec_done()),
        )
    }

    pub closed spec fn wf(&self) -> bool {
        self.seq < 0xffff || self.done
    }

    pub fn new() -> (res: Self)
        ensures
            res.has_taken(Seq::empty()),
            res.wf(),
    {
        ResponseAssembler { data: Vec::new(), seq: 0, done: false }
    }

    pub fn is_done(&self) -> (res: bool)
        ensures
            res == self.spec_done(),
    {
        self.done
    }

    /// Takes the next packet; says whether the response is now complete.
    pub fn feed(&mut self, chunk: &[u8]) -> (res: Result<bool, RemoteWalletError>)
        requires
            !old(self).spec_done(),
            old(self).wf(),
        ensures
            match spec_read_step(old(self).spec_data(), old(self).spec_seq(), chunk@) {
                Ok((d, s, done)) => res == Ok::<bool, RemoteWalletError>(done)
                    && final(self).spec_data() == d && final(self).spec_seq() == s
                    && final(self).spec_done() == done && final(self).wf(),
                Err(e) => res == Err::<bool, RemoteWalletError>(e),
            },
    {
        let ghost old_data = self.data@;
        let ghost old_seq = self.seq as nat;
        if chunk.len() < LEDGER_TRANSPORT_HEADER_LEN {
            return Err(RemoteWalletError::Protocol("Invalid HID packet size"));
        }
        let packet = strip_trailing_zeros(chunk);
        if packet.len() < RESPONSE_HEADER_LEN {
            return Err(RemoteWalletError::Protocol("Invalid HID packet size"));
        }
        let command: u16 = (packet[1] as u16) * 256 + packet[2] as u16;
        let total_packets: u16 = (packet[3] as u16) * 256 + packet[4] as u16;
        let packet_seq: u16 = (packet[5] as u16) * 256 + packet[6] as u16;
        assert(command as nat == be16(packet@[1], packet@[2]));
        assert(total_packets as nat == be16(packet@[3], packet@[4]));
        assert(packet_seq as nat == be16(packet@[5], packet@[6]));
        if !CommandType::is_valid_command(command) {
            return Err(RemoteWalletError::Protocol("Invalid command"));
        }
        let command_type = CommandType::from_u16(command);
        if command_type.is_none() {
            return Err(RemoteWalletError::Protocol("Invalid command type"));
        }
        if packet_seq != self.seq {
            return Err(RemoteWalletError::Protocol("Invalid packet sequence"));
        }
        self.seq = self.seq + 1;
        let mut i: usize = RESPONSE_HEADER_LEN;
        let ghost before = self.data@;
        while i < packet.len()
            invariant
                self.seq as nat == old_seq + 1,
                !self.done,
                RESPONSE_HEADER_LEN <= i <= packet@.len(),
                self.data@ == before + packet@.subrange(RESPONSE_HEADER_LEN as int, i as int),
            decreases packet.len() - i,
        {
            self.data.push(packet[i]);
            i = i + 1;
            assert(self.data@ =~= before + packet@.subrange(RESPONSE_HEADER_LEN as int, i as int));
        }
        let ghost p = spec_strip_trailing_zeros(chunk@);
        proof {
            assert(p == packet@);
            assert(self.data@ =~= old_data + p.subrange(9, p.len() as int));
            assert(be16(p[5], p[6]) == old_seq);
            assert(1 <= be16(p[1], p[2]) <= 6);
        }
        if self.seq == total_packets {
            self.done = true;
            assert(old_seq + 1 == be16(p[3], p[4]));
            assert(!(chunk@.len() < 5 || p.len() < 9));
            assert(spec_read_step(old_data, old_seq, chunk@) == Ok::<
                (Seq<u8>, nat, bool),
                RemoteWalletError,
            >((self.data@, self.seq as nat, true)));
            return Ok(true);
        }
        if self.seq >= 0xffff {
            return Err(RemoteWalletError::Protocol("Maximum sequence number reached"));
        }
        Ok(false)
    }

    /// The response of a complete payload.
    pub fn finish(self) -> (res: Result<Vec<u8>, RemoteWalletError>)
        ensures
            match spec_response_of(self.spec_data()) {
                Ok(r) => res matches Ok(v) && v@ == r,
                Err(e) => res == Err::<Vec<u8>, RemoteWalletError>(e),
            },
    {
        let mut data = self.data;
        if data.len() < 2 {
            return Err(RemoteWalletError::Protocol("Response too short"));
        }
        let new_len = data.len() - 2;
        data.truncate(new_len);
        Ok(data)
    }
}

/// The contents of a list of packets.
pub open spec fn chunk_views(chunks: Seq<Vec<u8>>) -> Seq<Seq<u8>> {
    chunks.map_values(|c: Vec<u8>| c@)
}

/// What reassembling the packets `chunks` gives, from an assembler holding
/// `data` and expecting sequence number `seq`: the packets are taken in order
/// until one completes the response, whose content is then the result; the
/// first refused packet gives its error, and running out of packets first is
/// an incomplete response.
pub open spec fn spec_reassemble_from(data: Seq<u8>, seq: nat, chunks: Seq<Seq<u8>>) -> Result<
    Seq<u8>,
    RemoteWalletError,
>
    decreases chunks.len(),
{
    if chunks.len() == 0 {
        Err(RemoteWalletError::Protocol("Response incomplete"))
    } else {
        match spec_read_step(data, seq, chunks[0]) {
            Err(e) => Err(e),
            Ok((d, s, done)) => if done {
                spec_response_of(d)
            } else {
                spec_reassemble_from(d, s, chunks.drop_first())
            },
        }
    }
}

/// Reassembles a whole response from its packets.
pub fn reassemble_response(chunks: &Vec<Vec<u8>>) -> (res: Result<Vec<u8>, RemoteWalletError>)
    ensures
        match spec_reassemble_from(Seq::empty(), 0, chunk_views(chunks@)) {
            Ok(r) => res matches Ok(v) && v@ == r,
            Err(e) => res == Err::<Vec<u8>, RemoteWalletError>(e),
        },
        res matches Ok(r) ==> exists|k: int|
            0 < k <= chunks@.len() && #[trigger] spec_chunks_give_response(
                chunk_views(chunks@.subrange(0, k)),
                r@,
            ),
{
    let ghost views = chunks@.map_values(|c: Vec<u8>| c@);
    let mut assembler = ResponseAssembler::new();
    let mut i: usize = 0;
    assert(views.subrange(0, views.len() as int) =~= views);
    while i < chunks.len()
        invariant
            i <= chunks@.len(),
            views == chunks@.map_values(|c: Vec<u8>| c@),
            views == chunk_views(chunks@),
            assembler.has_taken(views.subrange(0, i as int)),
            assembler.wf(),
            !assembler.spec_done(),
            spec_reassemble_from(Seq::empty(), 0, views) == spec_reassemble_from(
                assembler.spec_data(),
                assembler.spec_seq(),
                views.subrange(i as int, views.len() as int),
            ),
        decreases chunks.len() - i,
    {
        let ghost rest = views.subrange(i as int, views.len() as int);
        let ghost d0 = assembler.spec_data();
        let ghost s0 = assembler.spec_seq();
        assert(rest[0] == chunks@[i as int]@);
        assert(rest.drop_first() =~= views.subrange(i + 1, views.len() as int));
        let done = assembler.feed(chunks[i].as_slice())?;
        let ghost taken = views.subrange(0, i + 1);
        assert(taken.drop_last() =~= views.subrange(0, i as int));
        i = i + 1;
        if done {
            assert(chunk_views(chunks@.subrange(0, i as int)) =~= taken);
            let r = assembler.finish();
            proof {
                if r is Ok {
                    assert(spec_chunks_give_response(
                        chunk_views(chunks@.subrange(0, i as int)),
                        r->Ok_0@,
                    ));
                }
            }
            return r;
        }
    }
    Err(RemoteWalletError::Protocol("Response incomplete"))
}


// ---------------------------------------------------------------------------
// APDU parameters, status words and the key cache of the device
// ---------------------------------------------------------------------------

/// `p2` bit: the request extends an earlier one.
pub const P2_EXTEND: u8 = 0x01;

/// `p2` bit: more parts of the request follow.
pub const P2_MORE: u8 = 0x02;

/// Status word of a successful APDU.
pub const APDU_SUCCESS_CODE: usize = 0x9000;

/// Highest account index whose key the device keeps cached.
pub const CACHED_ACCOUNT_RANGE: u32 = 49;

/// Highest change index whose key the device keeps cached.
pub const CACHED_CHANGE_RANGE: u32 = 49;

/// The one account whose change keys the device keeps cached.
pub const CACHED_FIXED_ACCOUNT: u32 = 0;

/// Keystone USB vendor id.
pub const KEYSTONE_VID: u16 = 0x1209;

/// Keystone USB product id.
pub const KEYSTONE_PID: u16 = 0x3001;

/// Whether `p2` marks the last part of a request: its "more" bit is clear.
pub fn is_last_part(p2: u8) -> (res: bool)
    ensures
        res == (p2 & P2_MORE == 0),
{
    p2 & P2_MORE == 0
}

/// Whether the device keeps the key of `path` cached, so that it can be read
/// without the user unlocking it: `m/44'/501'`, `m/44'/501'/a'` with
/// `a <= 49`, and `m/44'/501'/0'/c'` with `c <= 49` (indices compared
/// without their hardened flag).
pub open spec fn spec_is_path_in_cached_range(path: Seq<ChildIndex>) -> bool {
    &&& path.len() >= 2
    &&& path[0].spec_to_u32() == 44
    &&& path[1].spec_to_u32() == 501
    &&& {
        ||| path.len() == 2
        ||| path.len() == 3 && path[2].spec_to_u32() <= CACHED_ACCOUNT_RANGE
        ||| path.len() == 4 && path[2].spec_to_u32() == CACHED_FIXED_ACCOUNT && path[3].spec_to_u32()
            <= CACHED_CHANGE_RANGE
    }
}

pub fn is_path_in_cached_range(derivation_path: &DerivationPath) -> (res: bool)
    ensures
        res == spec_is_path_in_cached_range(derivation_path.path@),
{
    let path = derivation_path.path();
    if path.len() < 2 {
        return false;
    }
    if path[0].to_u32() != 44 || path[1].to_u32() != 501 {
        return false;
    }
    if path.len() == 2 {
        true
    } else if path.len() == 3 {
        path[2].to_u32() <= CACHED_ACCOUNT_RANGE
    } else if path.len() == 4 {
        path[2].to_u32() == CACHED_FIXED_ACCOUNT && path[3].to_u32() <= CACHED_CHANGE_RANGE
    } else {
        false
    }
}

/// The four big-endian bytes of a 32-bit number.
pub open spec fn spec_be_bytes(x: u32) -> Seq<u8> {
    seq![
        (x / 0x100_0000) as u8,
        ((x / 0x1_0000) % 256) as u8,
        ((x / 256) % 256) as u8,
        (x % 256) as u8,
    ]
}

/// The indices of a path, each as its big-endian 32-bit encoding.
pub open spec fn spec_serialize_indices(path: Seq<ChildIndex>) -> Seq<u8>
    decreases path.len(),
{
    if path.len() == 0 {
        Seq::empty()
    } else {
        spec_serialize_indices(path.drop_last()) + spec_be_bytes(path.last().spec_to_bits())
    }
}

/// The depth byte of a path: 4 with a change index, 3 with an account index
/// only, 2 otherwise.
pub open spec fn spec_depth_byte(path: Seq<ChildIndex>) -> u8 {
    if path.len() > 3 {
        4
    } else if path.len() > 2 {
        3
    } else {
        2
    }
}

/// A path as the device reads it: the depth byte, then each index.
pub open spec fn spec_extend_and_serialize(path: Seq<ChildIndex>) -> Seq<u8> {
    seq![spec_depth_byte(path)] + spec_serialize_indices(path)
}

/// The serialized indices of a path are four bytes per index, in order, each
/// group the big-endian encoding of that index.
pub proof fn lemma_serialized_indices(path: Seq<ChildIndex>)
    ensures
        spec_serialize_indices(path).len() == 4 * path.len(),
        forall|i: int|
            0 <= i < path.len() ==> spec_serialize_indices(path).subrange(4 * i, 4 * i + 4)
                == spec_be_bytes(#[trigger] path[i].spec_to_bits()),
    decreases path.len(),
{
    if path.len() > 0 {
        let front = path.drop_last();
        lemma_serialized_indices(front);
        let whole = spec_serialize_indices(path);
        assert forall|i: int|
            0 <= i < path.len() implies whole.subrange(4 * i, 4 * i + 4) == spec_be_bytes(
            #[trigger] path[i].spec_to_bits(),
        ) by {
            if i < front.len() {
                assert(front[i] == path[i]);
                assert(whole.subrange(4 * i, 4 * i + 4) =~= spec_serialize_indices(front).subrange(
                    4 * i,
                    4 * i + 4,
                ));
            } else {
                assert(whole.subrange(4 * i, 4 * i + 4) =~= spec_be_bytes(
                    path.last().spec_to_bits(),
                ));
            }
        }
    }
}

/// How a Solana BIP44 path reaches the device: a depth byte of 2, 3 or 4,
/// the number of its indices, then each index as four big-endian bytes with
/// the hardened bit set, starting with `44'` (80 00 00 2C) and `501'`
/// (80 00 01 F5); every index group starts with a byte of at least 0x80.
pub proof fn lemma_bip44_serialization(account: Option<u32>, change: Option<u32>)
    ensures
        spec_extend_and_serialize(spec_bip44(account, change))[0] == spec_bip44(
            account,
            change,
        ).len(),
        spec_extend_and_serialize(spec_bip44(account, change)).len() == 1 + 4 * spec_bip44(
            account,
            change,
        ).len(),
        spec_extend_and_serialize(spec_bip44(account, change)).subrange(1, 5) == seq![
            0x80u8,
            0x00u8,
            0x00u8,
            0x2Cu8,
        ],
        spec_extend_and_serialize(spec_bip44(account, change)).subrange(5, 9) == seq![
            0x80u8,
            0x00u8,
            0x01u8,
            0xF5u8,
        ],
        forall|i: int|
            0 <= i < spec_bip44(account, change).len() ==> #[trigger] spec_extend_and_serialize(
                spec_bip44(account, change),
            )[1 + 4 * i] >= 0x80,
{
    let p = spec_bip44(account, change);
    crate::keys::lemma_bip44_shape(account, change);
    lemma_serialized_indices(p);
    let body = spec_serialize_indices(p);
    let all = spec_extend_and_serialize(p);
    assert(all =~= seq![spec_depth_byte(p)] + body);
    assert(44u32 | 0x8000_0000u32 == 0x8000_002Cu32) by (bit_vector);
    assert(501u32 | 0x8000_0000u32 == 0x8000_01F5u32) by (bit_vector);
    assert(p[0].spec_to_bits() == 0x8000_002Cu32);
    assert(p[1].spec_to_bits() == 0x8000_01F5u32);
    assert(body.subrange(0, 4) == spec_be_bytes(p[0].spec_to_bits()));
    assert(body.subrange(4, 8) == spec_be_bytes(p[1].spec_to_bits()));
    assert(all.subrange(1, 5) =~= body.subrange(0, 4));
    assert(all.subrange(5, 9) =~= body.subrange(4, 8));
    assert(spec_be_bytes(0x8000_002Cu32) =~= seq![0x80u8, 0x00u8, 0x00u8, 0x2Cu8]);
    assert(spec_be_bytes(0x8000_01F5u32) =~= seq![0x80u8, 0x00u8, 0x01u8, 0xF5u8]);
    assert forall|i: int| 0 <= i < p.len() implies #[trigger] all[1 + 4 * i] >= 0x80 by {
        let x = p[i].spec_to_bits();
        assert(p[i] is Hardened);
        let k = p[i].spec_to_u32();
        assert(x == k | 0x8000_0000u32);
        assert((k | 0x8000_0000u32) / 0x100_0000u32 >= 0x80u32) by (bit_vector);
        assert(body.subrange(4 * i, 4 * i + 4) == spec_be_bytes(x));
        assert(all[1 + 4 * i] == body[4 * i]);
        assert(body[4 * i] == body.subrange(4 * i, 4 * i + 4)[0]);
    }
}

/// Of the Solana BIP44 paths, the device keeps the keys of exactly these
/// cached: the root `m/44'/501'`, the accounts up to 49, and the changes up to
/// 49 of account 0.
pub proof fn lemma_bip44_cached(account: Option<u32>, change: Option<u32>)
    ensures
        spec_is_path_in_cached_range(spec_bip44(account, change)) <==> match account {
            None => true,
            Some(a) => match change {
                None => a <= 49,
                Some(c) => a == 0 && c <= 49,
            },
        },
{
    crate::keys::lemma_bip44_shape(account, change);
}

/// Appends the big-endian bytes of `x`.
fn push_be_bytes(out: &mut Vec<u8>, x: u32)
    ensures
        final(out)@ == old(out)@ + spec_be_bytes(x),
{
    out.push((x / 0x100_0000) as u8);
    out.push(((x / 0x1_0000) % 256) as u8);
    out.push(((x / 256) % 256) as u8);
    out.push((x % 256) as u8);
    assert(out@ =~= old(out)@ + spec_be_bytes(x));
}

/// Serializes a derivation path as the device reads it.
pub fn extend_and_serialize(derivation_path: &DerivationPath) -> (res: Vec<u8>)
    ensures
        res@ == spec_extend_and_serialize(derivation_path.path@),
{
    let depth_byte: u8 = if derivation_path.change().is_some() {
        4
    } else if derivation_path.account().is_some() {
        3
    } else {
        2
    };
    let path = derivation_path.path();
    let mut out: Vec<u8> = Vec::new();
    out.push(depth_byte);
    let mut i: usize = 0;
    assert(path@.subrange(0, 0) =~= Seq::<ChildIndex>::empty());
    while i < path.len()
        invariant
            i <= path@.len(),
            out@ == seq![depth_byte] + spec_serialize_indices(path@.subrange(0, i as int)),
        decreases path.len() - i,
    {
        let bits = path[i].to_bits();
        push_be_bytes(&mut out, bits);
        let ghost taken = path@.subrange(0, i + 1);
        assert(taken.drop_last() =~= path@.subrange(0, i as int));
        i = i + 1;
        assert(out@ =~= seq![depth_byte] + spec_serialize_indices(path@.subrange(0, i as int)));
    }
    assert(path@.subrange(0, path@.len() as int) =~= path@);
    out
}

/// Several paths serialized one after the other.
pub open spec fn spec_serialize_paths(paths: Seq<Seq<ChildIndex>>) -> Seq<u8>
    decreases paths.len(),
{
    if paths.len() == 0 {
        Seq::empty()
    } else {
        spec_serialize_paths(paths.drop_last()) + spec_extend_and_serialize(paths.last())
    }
}

/// The index lists of some paths.
pub open spec fn path_views(paths: Seq<&DerivationPath>) -> Seq<Seq<ChildIndex>> {
    paths.map_values(|p: &DerivationPath| p.path@)
}

/// Serializes several derivation paths: their count (modulo 256), then each path.
pub fn extend_and_serialize_multiple(derivation_paths: &[&DerivationPath]) -> (res: Vec<u8>)
    ensures
        res@ == seq![(derivation_paths@.len() % 256) as u8] + spec_serialize_paths(
            path_views(derivation_paths@),
        ),
{
    let n = derivation_paths.len();
    let mut out: Vec<u8> = Vec::new();
    out.push((n % 256) as u8);
    let ghost views = path_views(derivation_paths@);
    let mut i: usize = 0;
    assert(views.subrange(0, 0) =~= Seq::<Seq<ChildIndex>>::empty());
    while i < n
        invariant
            n == derivation_paths@.len(),
            i <= n,
            views == path_views(derivation_paths@),
            out@ == seq![(n % 256) as u8] + spec_serialize_paths(views.subrange(0, i as int)),
        decreases n - i,
    {
        let mut one = extend_and_serialize(derivation_paths[i]);
        let ghost taken = views.subrange(0, i + 1);
        assert(taken.drop_last() =~= views.subrange(0, i as int));
        out.append(&mut one);
        i = i + 1;
        assert(out@ =~= seq![(n % 256) as u8] + spec_serialize_paths(views.subrange(0, i as int)));
    }
    assert(views.subrange(0, n as int) =~= views);
    out
}

/// What a status word means: success for 0x9000, the Keystone error it is
/// the code of, or an unknown error.
pub open spec fn spec_parse_status(status: usize) -> Result<(), RemoteWalletError> {
    if status == APDU_SUCCESS_CODE {
        Ok(())
    } else {
        match spec_from_code(status as int) {
            Some(e) => Err(RemoteWalletError::KeystoneError(e)),
            None => Err(RemoteWalletError::Protocol("Unknown error")),
        }
    }
}

/// The key path, as Keystone's UR messages carry it, of a derivation path:
/// `44'/501'`, then the account and change indices of the path, all
/// hardened, and the wallet's master fingerprint.
pub struct KeystoneKeyPath {
    pub components: Vec<KeypathComponent>,
    pub source_fingerprint: Option<[u8; 4]>,
}

/// The components of the key path of a derivation path.
pub open spec fn spec_key_path_components(path: Seq<ChildIndex>) -> Seq<KeypathComponent> {
    let base = seq![
        KeypathComponent { index: 44, hardened: true },
        KeypathComponent { index: 501, hardened: true },
    ];
    if path.len() > 3 {
        base.push(KeypathComponent { index: path[2].spec_to_u32(), hardened: true }).push(
            KeypathComponent { index: path[3].spec_to_u32(), hardened: true },
        )
    } else if path.len() > 2 {
        base.push(KeypathComponent { index: path[2].spec_to_u32(), hardened: true })
    } else {
        base
    }
}

/// The key path of a derivation path for a wallet with master fingerprint `mfp`.
pub fn parse_crypto_key_path(derivation_path: &DerivationPath, mfp: Option<[u8; 4]>) -> (res:
    KeystoneKeyPath)
    ensures
        res.components@ == spec_key_path_components(derivation_path.path@),
        res.source_fingerprint == mfp,
{
    let mut components: Vec<KeypathComponent> = Vec::new();
    components.push(KeypathComponent { index: 44, hardened: true });
    components.push(KeypathComponent { index: 501, hardened: true });
    match derivation_path.account() {
        Some(account) => {
            components.push(KeypathComponent { index: account.to_u32(), hardened: true });
        },
        None => {},
    }
    match derivation_path.change() {
        Some(change) => {
            components.push(KeypathComponent { index: change.to_u32(), hardened: true });
        },
        None => {},
    }
    assert(components@ =~= spec_key_path_components(derivation_path.path@));
    KeystoneKeyPath { components, source_fingerprint: mfp }
}

/// The Keystone key path of any derivation path: every component is
/// hardened; it starts with 44 and 501, followed by the path's account index
/// when the path has one and then its change index when it has one.
pub proof fn lemma_key_path_hardened(path: Seq<ChildIndex>)
    ensures
        spec_key_path_components(path).len() == 2 + (if path.len() > 2 {
            1int
        } else {
            0int
        }) + (if path.len() > 3 {
            1int
        } else {
            0int
        }),
        forall|i: int|
            0 <= i < spec_key_path_components(path).len() ==> (#[trigger] spec_key_path_components(
                path,
            )[i]).hardened,
        spec_key_path_components(path)[0].index == 44,
        spec_key_path_components(path)[1].index == 501,
        path.len() > 2 ==> spec_key_path_components(path)[2].index == path[2].spec_to_u32(),
        path.len() > 3 ==> spec_key_path_components(path)[3].index == path[3].spec_to_u32(),
{
}

/// The status words a Keystone device answers with: 0x9000 alone is success,
/// each code from 0x6700 to 0x670D is the Keystone error of that code, and
/// every other word is an unknown error.
pub proof fn lemma_parse_status_table(status: usize)
    ensures
        spec_parse_status(status) is Ok <==> status == 0x9000,
        spec_parse_status(status) == Err::<(), RemoteWalletError>(
            RemoteWalletError::KeystoneError(KeystoneError::DeviceTimeout),
        ) <==> status == 0x6709,
        spec_parse_status(status) == Err::<(), RemoteWalletError>(
            RemoteWalletError::KeystoneError(KeystoneError::InvalidTransactionData),
        ) <==> status == 0x670A,
        0x6700 <= status <= 0x670D ==> (spec_parse_status(status) matches Err(
            RemoteWalletError::KeystoneError(e),
        ) && e.spec_code() == status),
        (status != 0x9000 && (status < 0x6700 || status > 0x670D)) ==> spec_parse_status(status)
            == Err::<(), RemoteWalletError>(RemoteWalletError::Protocol("Unknown error")),
{
    crate::wallet::keystone::error::lemma_status_code_table(status as int);
}

/// How public keys are shown on the device.
#[derive(Debug, Clone, Copy, PartialEq, Eq, Structural)]
pub enum PubkeyDisplayMode {
    Short,
    Long,
}

/// Settings of the device's app.
#[derive(Debug, Clone, Copy, PartialEq, Eq, Structural)]
pub struct LedgerSettings {
    pub enable_blind_signing: bool,
    pub pubkey_display: PubkeyDisplayMode,
}

/// An EAPDU frame.
#[derive(Debug, Clone)]
pub struct EAPDUFrame {
    pub cla: u8,
    pub ins: CommandType,
    pub p1: u16,
    pub p2: u16,
    pub lc: u16,
    pub data: Vec<u8>,
    pub data_len: u32,
}

/// Recognizes Keystone devices among the HID devices.
pub struct KeystoneProbe;

impl WalletProbe for KeystoneProbe {
    /// Whether the device has Keystone's vendor and product ids.
    fn is_supported_device(&self, device_info: &HidDeviceInfo) -> (res: bool)
        ensures
            res == (device_info.product_id == KEYSTONE_PID && device_info.vendor_id
                == KEYSTONE_VID),
    {
        device_info.product_id == KEYSTONE_PID && device_info.vendor_id == KEYSTONE_VID
    }
}


// ---------------------------------------------------------------------------
// Firmware versions
// ---------------------------------------------------------------------------

/// A firmware version `major.minor.patch`.
#[derive(Debug, Clone, Copy, PartialEq, Eq, Structural)]
pub struct FirmwareVersion {
    pub major: u64,
    pub minor: u64,
    pub patch: u64,
}

/// Versions ordered by major, then minor, then patch number.
pub open spec fn spec_version_less(a: FirmwareVersion, b: FirmwareVersion) -> bool {
    a.major < b.major || (a.major == b.major && (a.minor < b.minor || (a.minor == b.minor
        && a.patch < b.patch)))
}

/// `semver::Version::new` of both versions, compared with `<`. `Version`
/// derives its order from major, minor and patch number, then pre-release and
/// build metadata, which `new` leaves empty on both sides.
#[verifier::external_body]
pub(crate) fn version_precedes(a: &FirmwareVersion, b: &FirmwareVersion) -> (res: bool)
    ensures
        res == spec_version_less(*a, *b),
{
    semver::Version::new(a.major, a.minor, a.patch) < semver::Version::new(
        b.major,
        b.minor,
        b.patch,
    )
}

/// Apps before this version speak the deprecated protocol.
pub open spec fn spec_deprecate_version_before() -> FirmwareVersion {
    FirmwareVersion { major: 0, minor: 2, patch: 0 }
}

/// Firmware versions are ordered as version numbers: no version precedes
/// itself, the order is transitive, of two different versions one precedes
/// the other, and the major number outweighs the minor, the minor the patch.
/// The deprecated protocol is spoken below 0.2.0: by 0.1.x and 0.0.x.
pub proof fn lemma_version_order(a: FirmwareVersion, b: FirmwareVersion, c: FirmwareVersion)
    ensures
        !spec_version_less(a, a),
        spec_version_less(a, b) && spec_version_less(b, c) ==> spec_version_less(a, c),
        a != b ==> (spec_version_less(a, b) || spec_version_less(b, a)),
        !(spec_version_less(a, b) && spec_version_less(b, a)),
        a.major < b.major ==> spec_version_less(a, b),
        a.major == b.major && a.minor < b.minor ==> spec_version_less(a, b),
        spec_version_less(a, spec_deprecate_version_before()) <==> (a.major == 0 && a.minor < 2),
{
}

// ---------------------------------------------------------------------------
// UR messages
// ---------------------------------------------------------------------------

/// What `ur_registry` makes of a key derivation call for the key path with
/// these components and master fingerprint: `PathComponent::new` of each
/// component, `CryptoKeyPath::new` (no depth), `KeyDerivationSchema::new`
/// (curve Ed25519), `KeyDerivationCall::new` of that one schema and
/// `QRHardwareCall::new` (version 1, no origin), encoded as CBOR; or the text
/// of the error.
pub uninterp spec fn spec_key_derivation_call_cbor(
    components: Seq<KeypathComponent>,
    mfp: Option<[u8; 4]>,
) -> Result<Seq<u8>, Seq<char>>;

/// The CBOR of a key derivation call built with `ur_registry`, or the text
/// of the error (`PathComponent::new` refuses an index with its top bit set).
#[verifier::external_body]
fn key_derivation_call_cbor(components: &Vec<KeypathComponent>, mfp: Option<[u8; 4]>) -> (res:
    Result<Vec<u8>, String>)
    ensures
        match spec_key_derivation_call_cbor(components@, mfp) {
            Ok(b) => res matches Ok(v) && v@ == b,
            Err(e) => res matches Err(t) && t@ == e,
        },
{
    let parts: Result<Vec<PathComponent>, String> =
        components.iter().map(|c| PathComponent::new(Some(c.index), c.hardened)).collect();
    let path = CryptoKeyPath::new(parts?, mfp, None);
    let schema = KeyDerivationSchema::new(path, Some(Curve::Ed25519), None, None);
    let params = CallParams::KeyDerivation(KeyDerivationCall::new(vec![schema]));
    let call = QRHardwareCall::new(HardwareCallType::KeyDerivation, params, None, HardWareCallVersion::V1);
    call.try_into().map_err(|e: URError| e.to_string())
}

/// What `ur_registry` makes of a Solana transaction signing request with
/// this request id, data, key path (components and master fingerprint, no
/// depth) and origin, and no address: `SolSignRequest::new` encoded as
/// CBOR, or the text of the error.
pub uninterp spec fn spec_sol_sign_request_cbor(
    components: Seq<KeypathComponent>,
    mfp: Option<[u8; 4]>,
    request_id: Seq<u8>,
    sign_data: Seq<u8>,
    origin: Seq<char>,
) -> Result<Seq<u8>, Seq<char>>;

/// The CBOR of a Solana transaction signing request built with
/// `ur_registry`, or the text of the error.
#[verifier::external_body]
fn sol_sign_request_cbor(
    components: &Vec<KeypathComponent>,
    mfp: Option<[u8; 4]>,
    request_id: &[u8],
    sign_data: &[u8],
    origin: &str,
) -> (res: Result<Vec<u8>, String>)
    ensures
        match spec_sol_sign_request_cbor(components@, mfp, request_id@, sign_data@, origin@) {
            Ok(b) => res matches Ok(v) && v@ == b,
            Err(e) => res matches Err(t) && t@ == e,
        },
{
    let parts: Result<Vec<PathComponent>, String> =
        components.iter().map(|c| PathComponent::new(Some(c.index), c.hardened)).collect();
    let path = CryptoKeyPath::new(parts?, mfp, None);
    let (id, data, origin) = (Some(request_id.to_vec()), sign_data.to_vec(), Some(origin.to_string()));
    let request = SolSignRequest::new(id, data, path, None, origin, SignType::Transaction);
    request.try_into().map_err(|e: URError| e.to_string())
}

/// The UR type of a hardware call (`QRHardwareCall::get_registry_type`).
#[verifier::external_body]
fn hardware_call_ur_type() -> (res: String)
    ensures
        res@ == "qr-hardware-call"@,
{
    QRHardwareCall::get_registry_type().get_type()
}

/// The UR type of a Solana signing request (`SolSignRequest::get_registry_type`).
#[verifier::external_body]
fn sol_sign_request_ur_type() -> (res: String)
    ensures
        res@ == "sol-sign-request"@,
{
    SolSignRequest::get_registry_type().get_type()
}

/// What `ur_parse_lib`'s `probe_encode` makes of a message, its longest
/// fragment and its UR type: the UR text of the only part, or of the first
/// part of several; or the text of the error.
pub uninterp spec fn spec_probe_encode(
    message: Seq<u8>,
    max_fragment_length: usize,
    ur_type: Seq<char>,
) -> Result<Seq<char>, Seq<char>>;

/// `probe_encode`: an empty message or a zero fragment length is an error;
/// every UR text it gives starts with `ur:`, the type and `/`.
#[verifier::external_body]
fn ur_probe_encode(message: &[u8], max_fragment_length: usize, ur_type: &str) -> (res: Result<
    String,
    String,
>)
    ensures
        match spec_probe_encode(message@, max_fragment_length, ur_type@) {
            Ok(s) => res matches Ok(t) && t@ == s,
            Err(e) => res matches Err(t) && t@ == e,
        },
        message@.len() == 0 || max_fragment_length == 0 ==> res is Err,
        res matches Ok(t) ==> ("ur:"@ + ur_type@ + "/"@).is_prefix_of(t@),
{
    let encoded = probe_encode(message, max_fragment_length, ur_type.to_string());
    encoded.map(|r| r.data).map_err(|e| e.to_string())
}

/// What `probe_decode` makes of a UR text as `CryptoMultiAccounts`: the keys
/// of its accounts, in order, when the text is a whole UR, `None` when it is
/// one part of several; or the text of the error.
pub uninterp spec fn spec_decode_multi_accounts(ur: Seq<char>) -> Result<
    Option<Seq<Seq<u8>>>,
    Seq<char>,
>;

/// `ur_parse_lib`'s `probe_decode` into `CryptoMultiAccounts`, with the key
/// (`get_key`) of each of its accounts (`get_keys`).
#[verifier::external_body]
fn decode_multi_accounts(ur: &str) -> (res: Result<Option<Vec<Vec<u8>>>, String>)
    ensures
        match spec_decode_multi_accounts(ur@) {
            Ok(Some(keys)) => res matches Ok(Some(v)) && v@.map_values(|k: Vec<u8>| k@) == keys,
            Ok(None) => res matches Ok(None),
            Err(e) => res matches Err(t) && t@ == e,
        },
{
    let result: URParseResult<CryptoMultiAccounts> =
        probe_decode(ur.to_string()).map_err(|e| e.to_string())?;
    Ok(result.data.map(|a| a.get_keys().iter().map(|k| k.get_key()).collect()))
}

/// What `probe_decode` makes of a UR text as `SolSignature`: its signature
/// bytes when the text is a whole UR, `None` when it is one part of several;
/// or the text of the error.
pub uninterp spec fn spec_decode_sol_signature(ur: Seq<char>) -> Result<Option<Seq<u8>>, Seq<char>>;

/// `ur_parse_lib`'s `probe_decode` into `SolSignature`, with its signature
/// (`get_signature`).
#[verifier::external_body]
fn decode_sol_signature(ur: &str) -> (res: Result<Option<Vec<u8>>, String>)
    ensures
        match spec_decode_sol_signature(ur@) {
            Ok(Some(b)) => res matches Ok(Some(v)) && v@ == b,
            Ok(None) => res matches Ok(None),
            Err(e) => res matches Err(t) && t@ == e,
        },
{
    let result: URParseResult<SolSignature> =
        probe_decode(ur.to_string()).map_err(|e| e.to_string())?;
    Ok(result.data.map(|s| s.get_signature()))
}

/// An encoding step's result as the wallet reports it: its text, or an
/// invalid-input error with the error's text.
pub open spec fn spec_encoded(r: Result<Seq<char>, Seq<char>>, res: Result<String, RemoteWalletError>) -> bool {
    match r {
        Ok(s) => res matches Ok(t) && t@ == s,
        Err(e) => res matches Err(RemoteWalletError::InvalidInput(t)) && t@ == e,
    }
}

/// The UR text the wallet sends for CBOR `cbor` of UR type `ur_type` cut in
/// fragments of at most `max_fragment_length` bytes.
pub open spec fn spec_ur_of_cbor(
    cbor: Result<Seq<u8>, Seq<char>>,
    max_fragment_length: usize,
    ur_type: Seq<char>,
) -> Result<Seq<char>, Seq<char>> {
    match cbor {
        Ok(b) => spec_probe_encode(b, max_fragment_length, ur_type),
        Err(e) => Err(e),
    }
}

/// The key of the first account of a decoded multi-account UR.
pub fn first_account_key(decoded: Result<Option<Vec<Vec<u8>>>, String>) -> (res: Result<
    Vec<u8>,
    RemoteWalletError,
>)
    ensures
        match decoded {
            Err(e) => res matches Err(RemoteWalletError::InvalidInput(t)) && t@ == e@,
            Ok(None) => res matches Err(RemoteWalletError::InvalidInput(t)) && t@
                == "UR data is incomplete"@,
            Ok(Some(keys)) => if keys.len() == 0 {
                res matches Err(RemoteWalletError::InvalidInput(t)) && t@ == "UR holds no key"@
            } else {
                res matches Ok(k) && k@ == keys[0]@
            },
        },
{
    match decoded {
        Err(e) => Err(RemoteWalletError::InvalidInput(e)),
        Ok(None) => Err(RemoteWalletError::InvalidInput(String::from_str("UR data is incomplete"))),
        Ok(Some(keys)) => {
            if keys.len() == 0 {
                Err(RemoteWalletError::InvalidInput(String::from_str("UR holds no key")))
            } else {
                Ok(keys[0].clone())
            }
        },
    }
}

/// The signature of a decoded Solana signature UR.
pub fn decoded_signature(decoded: Result<Option<Vec<u8>>, String>) -> (res: Result<
    Vec<u8>,
    RemoteWalletError,
>)
    ensures
        match decoded {
            Err(e) => res matches Err(RemoteWalletError::InvalidInput(t)) && t@ == e@,
            Ok(None) => res matches Err(RemoteWalletError::InvalidInput(t)) && t@
                == "UR data is incomplete"@,
            Ok(Some(b)) => res matches Ok(v) && v@ == b@,
        },
{
    match decoded {
        Err(e) => Err(RemoteWalletError::InvalidInput(e)),
        Ok(None) => Err(RemoteWalletError::InvalidInput(String::from_str("UR data is incomplete"))),
        Ok(Some(b)) => Ok(b),
    }
}

// ---------------------------------------------------------------------------
// Replies of the device
// ---------------------------------------------------------------------------

/// The JSON document in a reply text: from its first `{` to its last `}`
/// when the first comes before the last; otherwise the whole text.
pub open spec fn spec_extract_json(s: Seq<char>) -> Seq<char> {
    match spec_find(s, '{') {
        Some(start) => match spec_rfind(s, '}') {
            Some(end) => if start < end {
                s.subrange(start, end + 1)
            } else {
                s
            },
            None => s,
        },
        None => s,
    }
}

/// The JSON document in a reply text.
pub fn extract_json(text: &str) -> (res: String)
    ensures
        res@ == spec_extract_json(text@),
{
    let v = chars_of(text);
    let n = v.len();
    let first = find_char(&v, '{');
    let last = rfind_char(&v, '}');
    match first {
        Some(start) => {
            assert(spec_find(text@, '{') == Some(start as int));
            match last {
                Some(end) => {
                    assert(spec_rfind(text@, '}') == Some(end as int));
                    if start < end {
                        assert(end < n);
                        let sub = sub_chars(&v, start, end + 1);
                        return string_of(&sub);
                    }
                },
                None => {
                    assert(spec_rfind(text@, '}') is None);
                },
            }
        },
        None => {
            assert(spec_find(text@, '{') is None);
        },
    }
    string_of(&v)
}

/// The text of a reply: its bytes read as UTF-8, invalid sequences replaced,
/// then the JSON document in it.
pub open spec fn spec_reply_text(reply: Seq<u8>) -> Seq<char> {
    spec_extract_json(spec_utf8_lossy(reply))
}

/// A field of a reply: the string under `field` in the JSON document.
pub open spec fn spec_parse_json_field(json: Seq<char>, field: Seq<char>) -> Result<
    Seq<char>,
    RemoteWalletError,
> {
    match spec_json_str_field(json, field) {
        None => Err(RemoteWalletError::Protocol("Invalid JSON response")),
        Some(None) => Err(RemoteWalletError::Protocol("Missing required field")),
        Some(Some(v)) => Ok(v),
    }
}

/// A version text `a.b.c...`: the first three `.`-separated pieces, each a
/// decimal `u64`.
pub open spec fn spec_version_from_text(v: Seq<char>) -> Option<FirmwareVersion> {
    let parts = spec_split(v, '.');
    if parts.len() >= 3 {
        match spec_parse_unsigned(parts[0], u64::MAX as nat) {
            Ok(a) => match spec_parse_unsigned(parts[1], u64::MAX as nat) {
                Ok(b) => match spec_parse_unsigned(parts[2], u64::MAX as nat) {
                    Ok(c) => Some(FirmwareVersion { major: a as u64, minor: b as u64, patch: c as u64 }),
                    Err(_) => None,
                },
                Err(_) => None,
            },
            Err(_) => None,
        }
    } else {
        None
    }
}

/// The firmware version of a device-info document, `0.0.0` when absent or
/// malformed.
pub open spec fn spec_version_of(field: Option<Seq<char>>) -> FirmwareVersion {
    match field {
        Some(t) => match spec_version_from_text(t) {
            Some(v) => v,
            None => FirmwareVersion { major: 0, minor: 0, patch: 0 },
        },
        None => FirmwareVersion { major: 0, minor: 0, patch: 0 },
    }
}

/// The master fingerprint of a device-info document: four bytes in hex.
pub open spec fn spec_mfp_of(field: Option<Option<Seq<char>>>) -> Option<Seq<u8>> {
    match field {
        Some(Some(t)) => match spec_hex_decode(t) {
            Some(b) => if b.len() == 4 {
                Some(b)
            } else {
                None
            },
            None => None,
        },
        _ => None,
    }
}

/// The firmware version and master fingerprint a device-info document gives.
pub open spec fn spec_device_info_from_json(json: Seq<char>, r: Result<
    (FirmwareVersion, Option<[u8; 4]>),
    RemoteWalletError,
>) -> bool {
    match spec_json_str_field(json, "firmwareVersion"@) {
        None => r == Err::<(FirmwareVersion, Option<[u8; 4]>), RemoteWalletError>(
            RemoteWalletError::Protocol("JSON parse error"),
        ),
        Some(fv) => r matches Ok((v, m)) && v == spec_version_of(fv) && match spec_mfp_of(
            spec_json_str_field(json, "walletMFP"@),
        ) {
            Some(b) => m matches Some(a) && a@ == b,
            None => m is None,
        },
    }
}

/// Reads a version text.
fn version_from_text(text: &str) -> (res: Option<FirmwareVersion>)
    ensures
        res == spec_version_from_text(text@),
{
    let v = chars_of(text);
    let parts = split_chars(&v, '.');
    proof {
        assert(parts@.len() == spec_split(text@, '.').len());
    }
    if parts.len() < 3 {
        return None;
    }
    proof {
        assert(parts@[0]@ == spec_split(text@, '.')[0]);
        assert(parts@[1]@ == spec_split(text@, '.')[1]);
        assert(parts@[2]@ == spec_split(text@, '.')[2]);
    }
    match (
        parse_unsigned(&parts[0], u64::MAX),
        parse_unsigned(&parts[1], u64::MAX),
        parse_unsigned(&parts[2], u64::MAX),
    ) {
        (Ok(major), Ok(minor), Ok(patch)) => Some(FirmwareVersion { major, minor, patch }),
        _ => None,
    }
}

/// The firmware version and master fingerprint in a device-info document;
/// a text that is no JSON is an error.
pub fn device_info_from_json(json: &str) -> (res: Result<
    (FirmwareVersion, Option<[u8; 4]>),
    RemoteWalletError,
>)
    ensures
        spec_device_info_from_json(json@, res),
{
    let fv = match json_str_field(json, "firmwareVersion") {
        Ok(f) => f,
        Err(_) => {
            return Err(RemoteWalletError::Protocol("JSON parse error"));
        },
    };
    let mut version = FirmwareVersion { major: 0, minor: 0, patch: 0 };
    match fv {
        Some(t) => {
            match version_from_text(t.as_str()) {
                Some(v) => {
                    version = v;
                },
                None => {},
            }
        },
        None => {},
    }
    let mut mfp: Option<[u8; 4]> = None;
    match json_str_field(json, "walletMFP") {
        Ok(Some(m)) => {
            match hex_decode(m.as_str()) {
                Some(b) => {
                    if b.len() == 4 {
                        let a: [u8; 4] = [b[0], b[1], b[2], b[3]];
                        assert(a@ =~= b@);
                        mfp = Some(a);
                    }
                },
                None => {},
            }
        },
        _ => {},
    }
    Ok((version, mfp))
}

/// A public key read from its hex text in a reply's payload. A payload that
/// reads as an error message other than a communication error is that error.
pub open spec fn spec_pubkey_from_hex_payload(payload: Seq<char>, r: Result<
    Pubkey,
    RemoteWalletError,
>) -> bool {
    ||| exists|e: KeystoneError|
        #![trigger KeystoneError::spec_from_error_message(payload, e)]
        KeystoneError::spec_from_error_message(payload, e) && !(e is CommunicationError) && r
            == Err::<Pubkey, RemoteWalletError>(RemoteWalletError::KeystoneError(e))
    ||| (forall|e: KeystoneError|
        #![trigger KeystoneError::spec_from_error_message(payload, e)]
        KeystoneError::spec_from_error_message(payload, e) ==> e is CommunicationError)
        && match spec_hex_decode(payload) {
        None => r == Err::<Pubkey, RemoteWalletError>(RemoteWalletError::Protocol("Invalid hex data")),
        Some(b) => if b.len() == 32 {
            r matches Ok(k) && k.bytes@ == b
        } else {
            r == Err::<Pubkey, RemoteWalletError>(
                RemoteWalletError::Protocol("Key packet size mismatch"),
            )
        },
    }
}

/// The public key in the payload of a cached-key reply.
pub fn pubkey_from_hex_payload(payload: &str) -> (res: Result<Pubkey, RemoteWalletError>)
    ensures
        spec_pubkey_from_hex_payload(payload@, res),
{
    let keystone_error = KeystoneError::from_error_message(payload);
    if !keystone_error.is_communication_error() {
        return Err(RemoteWalletError::KeystoneError(keystone_error));
    }
    let bytes = match hex_decode(payload) {
        Some(b) => b,
        None => {
            return Err(RemoteWalletError::Protocol("Invalid hex data"));
        },
    };
    match Pubkey::try_from_bytes(&bytes) {
        Some(k) => Ok(k),
        None => Err(RemoteWalletError::Protocol("Key packet size mismatch")),
    }
}

/// A device's model name as shown: lower case, spaces replaced by `-`.
pub open spec fn spec_model_name(product: Seq<char>) -> Seq<char> {
    spec_str_to_lowercase(product).map_values(|c: char| if c == ' ' { '-' } else { c })
}

/// Replaces each space with `-`.
fn dash_spaces(s: &str) -> (res: String)
    ensures
        res@ == s@.map_values(|c: char| if c == ' ' { '-' } else { c }),
{
    let v = chars_of(s);
    let mut out: Vec<char> = Vec::new();
    let mut i: usize = 0;
    while i < v.len()
        invariant
            i <= v@.len(),
            v@ == s@,
            out@ == v@.subrange(0, i as int).map_values(|c: char| if c == ' ' { '-' } else { c }),
        decreases v.len() - i,
    {
        let c = v[i];
        out.push(if c == ' ' { '-' } else { c });
        i = i + 1;
        assert(out@ =~= v@.subrange(0, i as int).map_values(
            |c: char| if c == ' ' { '-' } else { c },
        ));
    }
    assert(v@.subrange(0, v@.len() as int) =~= v@);
    string_of(&out)
}

/// The manufacturer a device reports, unknown when it reports none we know.
pub open spec fn spec_reported_manufacturer(name: Option<String>) -> Manufacturer {
    match name {
        Some(s) => match Manufacturer::spec_from_name(s@) {
            Some(m) => m,
            None => Manufacturer::Unknown,
        },
        None => Manufacturer::Unknown,
    }
}

/// A reported text, or `Unknown`.
pub open spec fn spec_or_unknown(s: Option<String>) -> Seq<char> {
    match s {
        Some(t) => t@,
        None => "Unknown"@,
    }
}


/// A reply payload that carries a key: its text names no device error, and
/// read in lower case it is a multi-account UR whose first account's key is
/// `key`, of 32 bytes.
pub open spec fn spec_ur_key_payload(p: Seq<char>, key: Seq<u8>) -> bool {
    &&& !spec_names_device_error(p)
    &&& spec_decode_multi_accounts(spec_str_to_lowercase(p)) matches Ok(Some(keys))
    &&& keys.len() > 0
    &&& keys[0] == key
    &&& key.len() == 32
}

/// A complete reply `r` whose `payload` field is `p`, a payload carrying `key`.
pub open spec fn spec_key_reply(r: Seq<u8>, p: Seq<char>, key: Pubkey) -> bool {
    &&& spec_is_reply(r)
    &&& spec_parse_json_field(spec_reply_text(r), "payload"@) == Ok::<Seq<char>, RemoteWalletError>(p)
    &&& spec_ur_key_payload(p, key.bytes@)
}

/// A reply payload that carries a signature: its text names no device
/// error, and read in lower case it is a Solana signature UR holding `sig`,
/// of 64 bytes.
pub open spec fn spec_ur_signature_payload(p: Seq<char>, sig: Seq<u8>) -> bool {
    &&& !spec_names_device_error(p)
    &&& spec_decode_sol_signature(spec_str_to_lowercase(p)) == Ok::<Option<Seq<u8>>, Seq<char>>(
        Some(sig),
    )
    &&& sig.len() == 64
}

/// A complete reply `r` whose `payload` field is `p`, a payload carrying the
/// signature `sig`.
pub open spec fn spec_signature_reply(r: Seq<u8>, p: Seq<char>, sig: Signature) -> bool {
    &&& spec_is_reply(r)
    &&& spec_parse_json_field(spec_reply_text(r), "payload"@) == Ok::<Seq<char>, RemoteWalletError>(p)
    &&& spec_ur_signature_payload(p, sig.bytes@)
}

/// A complete reply `r` whose JSON document gives `res`.
pub open spec fn spec_device_info_reply(r: Seq<u8>, res: Result<
    (FirmwareVersion, Option<[u8; 4]>),
    RemoteWalletError,
>) -> bool {
    spec_is_reply(r) && spec_device_info_from_json(spec_reply_text(r), res)
}

/// The information of a device: what the USB descriptor reports, and the
/// device's base key, or the error met reading it.
pub open spec fn spec_device_info_of(
    info: RemoteWalletInfo,
    dev_info: HidDeviceInfo,
    key: Result<Pubkey, RemoteWalletError>,
) -> bool {
    &&& info.manufacturer == spec_reported_manufacturer(dev_info.manufacturer_string)
    &&& info.model@ == spec_model_name(spec_or_unknown(dev_info.product_string))
    &&& info.serial@ == spec_or_unknown(dev_info.serial_number)
    &&& info.host_device_path@ == dev_info.path@
    &&& match key {
        Ok(k) => info.pubkey == k && info.error is None,
        Err(e) => info.pubkey.is_default() && info.error == Some(e),
    }
}

/// The information of a device from its USB descriptor and the result of
/// reading its base key.
pub fn device_info_of(dev_info: &HidDeviceInfo, key: Result<Pubkey, RemoteWalletError>) -> (res:
    RemoteWalletInfo)
    ensures
        spec_device_info_of(res, *dev_info, key),
{
    let manufacturer = match &dev_info.manufacturer_string {
        Some(s) => match Manufacturer::from_name(s.as_str()) {
            Some(m) => m,
            None => Manufacturer::Unknown,
        },
        None => Manufacturer::Unknown,
    };
    let product = match &dev_info.product_string {
        Some(p) => p.clone(),
        None => String::from_str("Unknown"),
    };
    let lower = str_to_lowercase(product.as_str());
    let model = dash_spaces(lower.as_str());
    let serial = match &dev_info.serial_number {
        Some(s) => s.clone(),
        None => String::from_str("Unknown"),
    };
    let host_device_path = dev_info.path.clone();
    let (pubkey, error) = match key {
        Ok(pubkey) => (pubkey, None),
        Err(err) => (Pubkey::default_key(), Some(err)),
    };
    RemoteWalletInfo { model, manufacturer, serial, host_device_path, pubkey, error }
}

/// Keystone wallet device.
pub struct KeystoneWallet {
    pub transport: Box<dyn Transport>,
    pub pretty_path: String,
    pub version: FirmwareVersion,
    pub mfp: Option<[u8; 4]>,
}

impl KeystoneWallet {
    /// What a status word means.
    pub fn parse_status(status: usize) -> (res: Result<(), RemoteWalletError>)
        ensures
            res == spec_parse_status(status),
    {
        if status == APDU_SUCCESS_CODE {
            Ok(())
        } else {
            match KeystoneError::from_usize(status) {
                Some(err) => Err(RemoteWalletError::KeystoneError(err)),
                None => Err(RemoteWalletError::Protocol("Unknown error")),
            }
        }
    }

    /// A wallet over `transport`; no version or master fingerprint is known yet.
    pub fn new(transport: Box<dyn Transport>) -> (res: Self)
        ensures
            res.pretty_path@ == Seq::<char>::empty(),
            res.version == (FirmwareVersion { major: 0, minor: 0, patch: 0 }),
            res.mfp is None,
    {
        KeystoneWallet {
            transport,
            pretty_path: String::new(),
            version: FirmwareVersion { major: 0, minor: 0, patch: 0 },
            mfp: None,
        }
    }

    /// The UR text of a key derivation call for the key path of
    /// `derivation_path`, in fragments of at most 400 bytes.
    fn generate_hardware_call(&self, derivation_path: &DerivationPath) -> (res: Result<
        String,
        RemoteWalletError,
    >)
        ensures
            spec_encoded(
                spec_ur_of_cbor(
                    spec_key_derivation_call_cbor(
                        spec_key_path_components(derivation_path.path@),
                        self.mfp,
                    ),
                    400,
                    "qr-hardware-call"@,
                ),
                res,
            ),
    {
        let key_path = parse_crypto_key_path(derivation_path, self.mfp);
        let bytes = match key_derivation_call_cbor(&key_path.components, key_path.source_fingerprint) {
            Ok(b) => b,
            Err(e) => {
                return Err(RemoteWalletError::InvalidInput(e));
            },
        };
        let ur_type = hardware_call_ur_type();
        match ur_probe_encode(bytes.as_slice(), 400, ur_type.as_str()) {
            Ok(s) => Ok(s),
            Err(e) => Err(RemoteWalletError::InvalidInput(e)),
        }
    }

    /// The UR text of a request to sign `sign_data` with the key of
    /// `derivation_path` (request id of 16 zero bytes, origin `solana cli`),
    /// in one fragment of up to 0xFFFFFFF bytes.
    fn generate_sol_sign_request(&self, derivation_path: &DerivationPath, sign_data: &[u8]) -> (res:
        Result<String, RemoteWalletError>)
        ensures
            spec_encoded(
                spec_ur_of_cbor(
                    spec_sol_sign_request_cbor(
                        spec_key_path_components(derivation_path.path@),
                        self.mfp,
                        Seq::new(16, |i: int| 0u8),
                        sign_data@,
                        "solana cli"@,
                    ),
                    0xFFFFFFF,
                    "sol-sign-request"@,
                ),
                res,
            ),
    {
        let key_path = parse_crypto_key_path(derivation_path, self.mfp);
        let request_id: Vec<u8> = vec![0u8; 16];
        assert(request_id@ =~= Seq::new(16, |i: int| 0u8));
        let bytes = match sol_sign_request_cbor(
            &key_path.components,
            key_path.source_fingerprint,
            request_id.as_slice(),
            sign_data,
            "solana cli",
        ) {
            Ok(b) => b,
            Err(e) => {
                return Err(RemoteWalletError::InvalidInput(e));
            },
        };
        let ur_type = sol_sign_request_ur_type();
        match ur_probe_encode(bytes.as_slice(), 0xFFFFFFF, ur_type.as_str()) {
            Ok(s) => Ok(s),
            Err(e) => Err(RemoteWalletError::InvalidInput(e)),
        }
    }

    /// The key of the first account of a multi-account UR, read in lower case.
    fn parse_ur_pubkey(&self, ur: &str) -> (res: Result<Vec<u8>, RemoteWalletError>)
        ensures
            match spec_decode_multi_accounts(spec_str_to_lowercase(ur@)) {
                Err(e) => res matches Err(RemoteWalletError::InvalidInput(t)) && t@ == e,
                Ok(None) => res matches Err(RemoteWalletError::InvalidInput(t)) && t@
                    == "UR data is incomplete"@,
                Ok(Some(keys)) => if keys.len() == 0 {
                    res matches Err(RemoteWalletError::InvalidInput(t)) && t@ == "UR holds no key"@
                } else {
                    res matches Ok(k) && k@ == keys[0]
                },
            },
    {
        let lower = str_to_lowercase(ur);
        let decoded = decode_multi_accounts(lower.as_str());
        first_account_key(decoded)
    }

    /// The signature of a Solana signature UR, read in lower case.
    fn parse_ur_signature(&self, ur: &str) -> (res: Result<Vec<u8>, RemoteWalletError>)
        ensures
            match spec_decode_sol_signature(spec_str_to_lowercase(ur@)) {
                Err(e) => res matches Err(RemoteWalletError::InvalidInput(t)) && t@ == e,
                Ok(None) => res matches Err(RemoteWalletError::InvalidInput(t)) && t@
                    == "UR data is incomplete"@,
                Ok(Some(b)) => res matches Ok(v) && v@ == b,
            },
    {
        let lower = str_to_lowercase(ur);
        decoded_signature(decode_sol_signature(lower.as_str()))
    }

    /// Sends a command and returns the JSON document of the reply.
    fn _send_apdu(&self, command: CommandType, data: &[u8]) -> (res: Result<
        String,
        RemoteWalletError,
    >)
        ensures
            self.spec_request_answered(command.spec_code(), data@, res),
            res matches Ok(t) ==> exists|r: Seq<u8>| spec_is_reply(r) && t@ == spec_reply_text(r),
    {
        let written = self.write(command, data);
        if let Err(e) = written {
            return Err(e);
        }
        let message = self.read()?;
        let message_str = utf8_lossy(message.as_slice());
        let json = extract_json(message_str.as_str());
        assert(spec_is_reply(message@) && json@ == spec_reply_text(message@));
        Ok(json)
    }

    /// Sends a command and returns the JSON document of the reply.
    fn send_apdu(&self, command: CommandType, data: &[u8]) -> (res: Result<
        String,
        RemoteWalletError,
    >)
        ensures
            self.spec_request_answered(command.spec_code(), data@, res),
            res matches Ok(t) ==> exists|r: Seq<u8>| spec_is_reply(r) && t@ == spec_reply_text(r),
    {
        self._send_apdu(command, data)
    }

    /// The string under `field_name` in a JSON reply.
    pub fn parse_json_field(&self, json_str: &str, field_name: &str) -> (res: Result<
        String,
        RemoteWalletError,
    >)
        ensures
            match spec_parse_json_field(json_str@, field_name@) {
                Ok(v) => res matches Ok(t) && t@ == v,
                Err(e) => res == Err::<String, RemoteWalletError>(e),
            },
    {
        match json_str_field(json_str, field_name) {
            Err(_) => Err(RemoteWalletError::Protocol("Invalid JSON response")),
            Ok(None) => Err(RemoteWalletError::Protocol("Missing required field")),
            Ok(Some(v)) => Ok(v),
        }
    }

    /// Asks the device for its firmware version and master fingerprint.
    fn get_device_info(&self) -> (res: Result<(FirmwareVersion, Option<[u8; 4]>), RemoteWalletError>)
        ensures
            self.spec_request_answered(CommandType::CMD_GET_DEVICE_INFO.spec_code(), Seq::empty(), res),
            res is Ok ==> exists|r: Seq<u8>| #[trigger] spec_device_info_reply(r, res),
    {
        let empty: Vec<u8> = Vec::new();
        assert(empty@ =~= Seq::<u8>::empty());
        let json_str = self._send_apdu(CommandType::CMD_GET_DEVICE_INFO, empty.as_slice())?;
        let res = device_info_from_json(json_str.as_str());
        proof {
            let r = choose|r: Seq<u8>| spec_is_reply(r) && json_str@ == spec_reply_text(r);
            assert(spec_device_info_reply(r, res));
        }
        res
    }

    /// The firmware version and master fingerprint of the device.
    pub fn get_firmware_version(&self) -> (res: Result<
        (FirmwareVersion, Option<[u8; 4]>),
        RemoteWalletError,
    >)
        ensures
            self.spec_request_answered(CommandType::CMD_GET_DEVICE_INFO.spec_code(), Seq::empty(), res),
            res is Ok ==> exists|r: Seq<u8>| #[trigger] spec_device_info_reply(r, res),
    {
        self.get_device_info()
    }

    /// Whether the device's app predates version 0.2.0.
    pub fn outdated_app(&self) -> (res: bool)
        ensures
            res == spec_version_less(self.version, spec_deprecate_version_before()),
    {
        let before = FirmwareVersion { major: 0, minor: 2, patch: 0 };
        version_precedes(&self.version, &before)
    }

    /// The key of a derivation path outside the device's cache, asked for
    /// with a UR key derivation call.
    fn uncached_pubkey(&self, derivation_path: &DerivationPath) -> (res: Result<
        Pubkey,
        RemoteWalletError,
    >)
        ensures
            spec_ur_of_cbor(
                spec_key_derivation_call_cbor(
                    spec_key_path_components(derivation_path.path@),
                    self.mfp,
                ),
                400,
                "qr-hardware-call"@,
            ) matches Err(e) ==> res matches Err(RemoteWalletError::InvalidInput(t)) && t@ == e,
            spec_ur_of_cbor(
                spec_key_derivation_call_cbor(
                    spec_key_path_components(derivation_path.path@),
                    self.mfp,
                ),
                400,
                "qr-hardware-call"@,
            ) matches Ok(u) ==> self.spec_request_answered(
                CommandType::CMD_RESOLVE_UR.spec_code(),
                encode_utf8(u),
                res,
            ),
            res matches Ok(k) ==> exists|r: Seq<u8>, p: Seq<char>| #[trigger]
                spec_key_reply(r, p, k),
    {
        let call = self.generate_hardware_call(derivation_path)?;
        let key = self.send_apdu(CommandType::CMD_RESOLVE_UR, call.as_str().as_bytes())?;
        let payload = self.parse_json_field(key.as_str(), "payload")?;
        let keystone_error = KeystoneError::from_error_message(payload.as_str());
        if !keystone_error.is_communication_error() {
            return Err(RemoteWalletError::KeystoneError(keystone_error));
        }
        let bytes = self.parse_ur_pubkey(payload.as_str())?;
        let k = match Pubkey::try_from_bytes(&bytes) {
            Some(k) => k,
            None => {
                return Err(RemoteWalletError::Protocol("Key packet size mismatch"));
            },
        };
        proof {
            let r = choose|r: Seq<u8>| spec_is_reply(r) && key@ == spec_reply_text(r);
            lemma_communication_error_iff(payload@, keystone_error);
            assert(spec_parse_json_field(spec_reply_text(r), "payload"@) == Ok::<
                Seq<char>,
                RemoteWalletError,
            >(payload@));
            assert(spec_key_reply(r, payload@, k));
        }
        let res: Result<Pubkey, RemoteWalletError> = Ok(k);
        assert(res matches Ok(k2) && k2 == k);
        assert(exists|r: Seq<u8>, p: Seq<char>| #[trigger] spec_key_reply(r, p, k));
        res
    }

    /// Signs with the key of `derivation_path` through a UR signing request
    /// and answers with the signature the device sends back.
    fn sign_with_ur(&self, derivation_path: &DerivationPath, data: &[u8]) -> (res: Result<
        Signature,
        RemoteWalletError,
    >)
        ensures
            self.mfp is None ==> res == Err::<Signature, RemoteWalletError>(
                RemoteWalletError::Protocol("MFP is not set"),
            ),
            self.mfp is Some ==> (spec_ur_of_cbor(
                spec_sol_sign_request_cbor(
                    spec_key_path_components(derivation_path.path@),
                    self.mfp,
                    Seq::new(16, |i: int| 0u8),
                    data@,
                    "solana cli"@,
                ),
                0xFFFFFFF,
                "sol-sign-request"@,
            ) matches Err(e) ==> res matches Err(RemoteWalletError::InvalidInput(t)) && t@ == e),
            self.mfp is Some ==> (spec_ur_of_cbor(
                spec_sol_sign_request_cbor(
                    spec_key_path_components(derivation_path.path@),
                    self.mfp,
                    Seq::new(16, |i: int| 0u8),
                    data@,
                    "solana cli"@,
                ),
                0xFFFFFFF,
                "sol-sign-request"@,
            ) matches Ok(u) ==> self.spec_request_answered(
                CommandType::CMD_RESOLVE_UR.spec_code(),
                encode_utf8(u),
                res,
            )),
            res matches Ok(sig) ==> exists|r: Seq<u8>, p: Seq<char>| #[trigger]
                spec_signature_reply(r, p, sig),
    {
        let key_path = parse_crypto_key_path(derivation_path, self.mfp);
        if self.mfp.is_none() {
            return Err(RemoteWalletError::Protocol("MFP is not set"));
        }
        let request = self.generate_sol_sign_request(derivation_path, data)?;
        let key = self.send_apdu(CommandType::CMD_RESOLVE_UR, request.as_str().as_bytes())?;
        let payload = self.parse_json_field(key.as_str(), "payload")?;
        let keystone_error = KeystoneError::from_error_message(payload.as_str());
        if !keystone_error.is_communication_error() {
            return Err(RemoteWalletError::KeystoneError(keystone_error));
        }
        let bytes = self.parse_ur_signature(payload.as_str())?;
        let sig = match Signature::try_from_bytes(&bytes) {
            Some(s) => s,
            None => {
                return Err(RemoteWalletError::Protocol("Signature packet size mismatch"));
            },
        };
        proof {
            let r = choose|r: Seq<u8>| spec_is_reply(r) && key@ == spec_reply_text(r);
            lemma_communication_error_iff(payload@, keystone_error);
            assert(spec_parse_json_field(spec_reply_text(r), "payload"@) == Ok::<
                Seq<char>,
                RemoteWalletError,
            >(payload@));
            assert(spec_signature_reply(r, payload@, sig));
        }
        let res: Result<Signature, RemoteWalletError> = Ok(sig);
        assert(res matches Ok(s2) && s2 == sig);
        assert(exists|r: Seq<u8>, p: Seq<char>| #[trigger] spec_signature_reply(r, p, sig));
        res
    }

    /// The transport was handed `packets` in order, one write each, and gave
    /// `answers`: writing went on while the answers so far were good (as
    /// `mins` judges them), stopped at the first bad one, and reached every
    /// packet unless one was bad.
    pub open spec fn spec_sent(
        &self,
        packets: Seq<Seq<u8>>,
        mins: Seq<nat>,
        answers: Seq<Result<usize, RemoteWalletError>>,
    ) -> bool {
        &&& answers.len() <= packets.len()
        &&& forall|i: int|
            0 <= i < answers.len() ==> #[trigger] self.transport.spec_write_answer(
                packets[i],
                answers[i],
            )
        &&& forall|i: int|
            0 < i < answers.len() ==> #[trigger] spec_write_outcome(answers.take(i), mins) is Ok
        &&& answers.len() < packets.len() ==> spec_write_outcome(answers, mins) is Err
    }

    /// `res` is what writing the packets of a request with command `code`
    /// and payload `data` to the transport gave.
    pub open spec fn spec_request_written(
        &self,
        code: u16,
        data: Seq<u8>,
        res: Result<(), RemoteWalletError>,
    ) -> bool {
        exists|answers: Seq<Result<usize, RemoteWalletError>>|
            #[trigger] self.spec_sent(
                spec_request_packets(code, data),
                spec_request_mins(data),
                answers,
            ) && res == spec_write_outcome(answers, spec_request_mins(data))
    }

    /// `res` is the answer to a request with command `code` and payload
    /// `data`: a failed write of its packets is passed on, and an answer comes
    /// only after all of them were written.
    pub open spec fn spec_request_answered<T>(
        &self,
        code: u16,
        data: Seq<u8>,
        res: Result<T, RemoteWalletError>,
    ) -> bool {
        exists|w: Result<(), RemoteWalletError>|
            #[trigger] self.spec_request_written(code, data, w) && (w matches Err(e) ==> res
                == Err::<T, RemoteWalletError>(e)) && (res is Ok ==> w is Ok)
    }

    /// `d` is what asking the device for its information gave: the answer
    /// to the request `CMD_GET_DEVICE_INFO` with no payload, and on success
    /// the reading of a complete reply.
    pub open spec fn spec_device_info_answer(
        &self,
        d: Result<(FirmwareVersion, Option<[u8; 4]>), RemoteWalletError>,
    ) -> bool {
        &&& self.spec_request_answered(CommandType::CMD_GET_DEVICE_INFO.spec_code(), Seq::empty(), d)
        &&& d is Ok ==> exists|r: Seq<u8>| #[trigger] spec_device_info_reply(r, d)
    }

    /// `key` is what asking the device for the cached key of `path` gave:
    /// the answer to the request `CMD_GET_DEVICE_USB_PUBKEY` with the
    /// serialized path, and on success the key of a hex payload.
    pub open spec fn spec_cached_key_answer(
        &self,
        path: Seq<ChildIndex>,
        key: Result<Pubkey, RemoteWalletError>,
    ) -> bool {
        &&& self.spec_request_answered(
            CommandType::CMD_GET_DEVICE_USB_PUBKEY.spec_code(),
            spec_extend_and_serialize(path),
            key,
        )
        &&& key is Ok ==> exists|p: Seq<char>| spec_pubkey_from_hex_payload(p, key)
    }

    /// Writes the packets of a request to the transport, in order, stopping
    /// at the first failed or short write.
    fn write(&self, command: CommandType, data: &[u8]) -> (res: Result<(), RemoteWalletError>)
        ensures
            self.spec_request_written(command.spec_code(), data@, res),
            res is Ok ==> spec_total_packets(data@.len()) < 0xffff,
    {
        let packets = request_packets(command, data);
        let ghost pk = packets@.map_values(|p: Vec<u8>| p@);
        let ghost mins = spec_request_mins(data@);
        let ghost mut answers: Seq<Result<usize, RemoteWalletError>> = Seq::empty();
        let mut i: usize = 0;
        while i < packets.len()
            invariant
                i <= packets@.len(),
                answers.len() == i,
                pk == packets@.map_values(|p: Vec<u8>| p@),
                pk == spec_request_packets(command.spec_code(), data@),
                mins == spec_request_mins(data@),
                i < 0xffff,
                forall|j: int|
                    0 <= j < answers.len() ==> #[trigger] self.transport.spec_write_answer(
                        pk[j],
                        answers[j],
                    ),
                forall|j: int|
                    0 < j <= answers.len() ==> #[trigger] spec_write_outcome(answers.take(j), mins)
                        is Ok,
            decreases packets.len() - i,
        {
            assert(pk.len() == packets@.len());
            let answer = self.transport.write(packets[i].as_slice());
            let ghost prev = answers;
            proof {
                answers = answers.push(answer);
                assert(answers.drop_last() =~= prev);
                assert(answers.take(i + 1) =~= answers);
                assert forall|j: int| 0 < j <= i implies #[trigger] answers.take(j) =~= prev.take(j) by {}
                if i > 0 {
                    assert(prev.take(i as int) =~= prev);
                }
                assert(spec_write_outcome(prev, mins) is Ok);
                lemma_packet_start(data@.len(), i as nat);
            }
            let n = match answer {
                Ok(n) => n,
                Err(e) => {
                    assert(self.spec_sent(pk, mins, answers));
                    assert(spec_write_outcome(answers, mins) == Err::<(), RemoteWalletError>(e));
                    return Err(e);
                },
            };
            let offset = 54 * i;
            let size = if data.len() - offset < REQUEST_PAYLOAD_LEN {
                data.len() - offset
            } else {
                REQUEST_PAYLOAD_LEN
            };
            assert(pk.len() == packets@.len());
            assert(mins.len() == pk.len());
            assert(mins[i as int] == 10 + spec_request_chunk(data@, (54 * i) as nat).len());
            assert(size + REQUEST_HEADER_LEN == mins[i as int]);
            match check_written(n, size + REQUEST_HEADER_LEN) {
                Ok(()) => {},
                Err(e) => {
                    assert(self.spec_sent(pk, mins, answers));
                    assert(spec_write_outcome(answers, mins) == Err::<(), RemoteWalletError>(e));
                    return Err(e);
                },
            }
            if i + 1 >= MAX_SEQUENCE {
                assert(self.spec_sent(pk, mins, answers));
                assert(spec_write_outcome(answers, mins) == Err::<(), RemoteWalletError>(
                    RemoteWalletError::Protocol("Maximum sequence number reached"),
                ));
                return Err(RemoteWalletError::Protocol("Maximum sequence number reached"));
            }
            i = i + 1;
        }
        assert(self.spec_sent(pk, mins, answers));
        assert(answers.len() > 0 ==> answers.take(answers.len() as int) =~= answers);
        assert(spec_write_outcome(answers, mins) == Ok::<(), RemoteWalletError>(()));
        Ok(())
    }

    /// Reads a whole response from the transport.
    fn read(&self) -> (res: Result<Vec<u8>, RemoteWalletError>)
        ensures
            res matches Ok(r) ==> spec_is_reply(r@),
    {
        let mut assembler = ResponseAssembler::new();
        let ghost mut chunks: Seq<Seq<u8>> = Seq::empty();
        loop
            invariant
                assembler.has_taken(chunks),
                assembler.wf(),
                !assembler.spec_done(),
            decreases 0xffffu16 - assembler.spec_seq(),
        {
            let chunk = self.transport.read()?;
            let done = assembler.feed(chunk.as_slice())?;
            proof {
                assert(chunks.push(chunk@).drop_last() =~= chunks);
                chunks = chunks.push(chunk@);
            }
            if done {
                let r = assembler.finish();
                proof {
                    if r is Ok {
                        assert(spec_chunks_give_response(chunks, r->Ok_0@));
                    }
                }
                return r;
            }
        }
    }
}


impl RemoteWallet<HidDeviceInfo> for KeystoneWallet {
    fn name(&self) -> (res: &str)
        ensures
            res@ == "Keystone hardware wallet"@,
    {
        "Keystone hardware wallet"
    }

    /// Reads the device's version and master fingerprint, then its base key
    /// (`m/44'/501'`); a failure to read the key is kept in the information.
    fn read_device(&mut self, dev_info: &HidDeviceInfo) -> (res: Result<
        RemoteWalletInfo,
        RemoteWalletError,
    >)
        ensures
            exists|d: Result<(FirmwareVersion, Option<[u8; 4]>), RemoteWalletError>|
                #[trigger] old(self).spec_device_info_answer(d) && match d {
                    Err(e) => res == Err::<RemoteWalletInfo, RemoteWalletError>(e)
                        && final(self).version == old(self).version && final(self).mfp == old(
                        self,
                    ).mfp,
                    Ok((v, m)) => res is Ok && final(self).version == v && final(self).mfp == m,
                },
            res matches Ok(info) ==> exists|key: Result<Pubkey, RemoteWalletError>|
                #[trigger] final(self).spec_cached_key_answer(spec_bip44(None, None), key)
                    && spec_device_info_of(info, *dev_info, key),
            final(self).pretty_path == old(self).pretty_path,
    {
        let info = self.get_device_info();
        let ghost d = info;
        let (version, mfp) = match info {
            Ok(x) => x,
            Err(e) => {
                assert(self.spec_device_info_answer(d));
                return Err(e);
            },
        };
        assert(self.spec_device_info_answer(d));
        self.version = version;
        self.mfp = mfp;
        let default_path = DerivationPath::default_path();
        assert(spec_is_path_in_cached_range(default_path.path@));
        let key = self.get_pubkey(&default_path, false);
        assert(self.spec_cached_key_answer(spec_bip44(None, None), key));
        let ghost k = key;
        let info = device_info_of(dev_info, key);
        assert(spec_device_info_of(info, *dev_info, k));
        Ok(info)
    }

    /// A key from the device's cache when the path is cached, otherwise
    /// through a UR key derivation call.
    fn get_pubkey(&self, derivation_path: &DerivationPath, _confirm_key: bool) -> (res: Result<
        Pubkey,
        RemoteWalletError,
    >)
        ensures
            spec_is_path_in_cached_range(derivation_path.path@) ==> self.spec_request_answered(
                CommandType::CMD_GET_DEVICE_USB_PUBKEY.spec_code(),
                spec_extend_and_serialize(derivation_path.path@),
                res,
            ),
            spec_is_path_in_cached_range(derivation_path.path@) && res is Ok ==> exists|
                p: Seq<char>,
            | spec_pubkey_from_hex_payload(p, res),
            !spec_is_path_in_cached_range(derivation_path.path@) ==> (spec_ur_of_cbor(
                spec_key_derivation_call_cbor(
                    spec_key_path_components(derivation_path.path@),
                    self.mfp,
                ),
                400,
                "qr-hardware-call"@,
            ) matches Err(e) ==> res matches Err(RemoteWalletError::InvalidInput(t)) && t@ == e),
            !spec_is_path_in_cached_range(derivation_path.path@) ==> (spec_ur_of_cbor(
                spec_key_derivation_call_cbor(
                    spec_key_path_components(derivation_path.path@),
                    self.mfp,
                ),
                400,
                "qr-hardware-call"@,
            ) matches Ok(u) ==> self.spec_request_answered(
                CommandType::CMD_RESOLVE_UR.spec_code(),
                encode_utf8(u),
                res,
            )),
            !spec_is_path_in_cached_range(derivation_path.path@) ==> (res matches Ok(k)
                ==> exists|r: Seq<u8>, p: Seq<char>| #[trigger] spec_key_reply(r, p, k)),
    {
        if is_path_in_cached_range(derivation_path) {
            let data = extend_and_serialize(derivation_path);
            let key = self.send_apdu(CommandType::CMD_GET_DEVICE_USB_PUBKEY, data.as_slice())?;
            let payload = self.parse_json_field(key.as_str(), "pubkey")?;
            pubkey_from_hex_payload(payload.as_str())
        } else {
            self.uncached_pubkey(derivation_path)
        }
    }

    /// Off-chain messages (first byte 0xff) are signed as such; other data
    /// through a UR signing request. Needs the master fingerprint.
    fn sign_message(&self, derivation_path: &DerivationPath, data: &[u8]) -> (res: Result<
        Signature,
        RemoteWalletError,
    >)
        ensures
            self.mfp is None ==> res == Err::<Signature, RemoteWalletError>(
                RemoteWalletError::Protocol("MFP is not set"),
            ),
            self.mfp is Some ==> (spec_ur_of_cbor(
                spec_sol_sign_request_cbor(
                    spec_key_path_components(derivation_path.path@),
                    self.mfp,
                    Seq::new(16, |i: int| 0u8),
                    data@,
                    "solana cli"@,
                ),
                0xFFFFFFF,
                "sol-sign-request"@,
            ) matches Err(e) ==> res matches Err(RemoteWalletError::InvalidInput(t)) && t@ == e),
            self.mfp is Some ==> (spec_ur_of_cbor(
                spec_sol_sign_request_cbor(
                    spec_key_path_components(derivation_path.path@),
                    self.mfp,
                    Seq::new(16, |i: int| 0u8),
                    data@,
                    "solana cli"@,
                ),
                0xFFFFFFF,
                "sol-sign-request"@,
            ) matches Ok(u) ==> self.spec_request_answered(
                CommandType::CMD_RESOLVE_UR.spec_code(),
                encode_utf8(u),
                res,
            )),
            res matches Ok(sig) ==> exists|r: Seq<u8>, p: Seq<char>| #[trigger]
                spec_signature_reply(r, p, sig),
    {
        if data.len() > 0 && data[0] == 0xff {
            return self.sign_offchain_message(derivation_path, data);
        }
        self.sign_with_ur(derivation_path, data)
    }

    /// Signs an off-chain message through a UR signing request. Needs the
    /// master fingerprint.
    fn sign_offchain_message(&self, derivation_path: &DerivationPath, message: &[u8]) -> (res:
        Result<Signature, RemoteWalletError>)
        ensures
            self.mfp is None ==> res == Err::<Signature, RemoteWalletError>(
                RemoteWalletError::Protocol("MFP is not set"),
            ),
            self.mfp is Some ==> (spec_ur_of_cbor(
                spec_sol_sign_request_cbor(
                    spec_key_path_components(derivation_path.path@),
                    self.mfp,
                    Seq::new(16, |i: int| 0u8),
                    message@,
                    "solana cli"@,
                ),
                0xFFFFFFF,
                "sol-sign-request"@,
            ) matches Err(e) ==> res matches Err(RemoteWalletError::InvalidInput(t)) && t@ == e),
            self.mfp is Some ==> (spec_ur_of_cbor(
                spec_sol_sign_request_cbor(
                    spec_key_path_components(derivation_path.path@),
                    self.mfp,
                    Seq::new(16, |i: int| 0u8),
                    message@,
                    "solana cli"@,
                ),
                0xFFFFFFF,
                "sol-sign-request"@,
            ) matches Ok(u) ==> self.spec_request_answered(
                CommandType::CMD_RESOLVE_UR.spec_code(),
                encode_utf8(u),
                res,
            )),
            res matches Ok(sig) ==> exists|r: Seq<u8>, p: Seq<char>| #[trigger]
                spec_signature_reply(r, p, sig),
    {
        self.sign_with_ur(derivation_path, message)
    }
}


// ---------------------------------------------------------------------------
// Choosing a device
// ---------------------------------------------------------------------------

/// Texts ordered lexicographically by code point (the order of `str`, whose
/// byte order agrees with code point order in UTF-8).
pub open spec fn spec_text_le(a: Seq<char>, b: Seq<char>) -> bool
    decreases a.len(),
{
    if a.len() == 0 {
        true
    } else if b.len() == 0 {
        false
    } else if a[0] != b[0] {
        (a[0] as int) < (b[0] as int)
    } else {
        spec_text_le(a.drop_first(), b.drop_first())
    }
}

/// Whether `a` comes no later than `b` in lexicographic order.
pub fn text_le(a: &Vec<char>, b: &Vec<char>) -> (res: bool)
    ensures
        res == spec_text_le(a@, b@),
{
    let mut i: usize = 0;
    assert(a@.subrange(0, a@.len() as int) =~= a@);
    assert(b@.subrange(0, b@.len() as int) =~= b@);
    assert(a@.subrange(0, 0) =~= b@.subrange(0, 0));
    while i < a.len() && i < b.len()
        invariant
            i <= a@.len(),
            i <= b@.len(),
            a@.subrange(0, i as int) == b@.subrange(0, i as int),
            spec_text_le(a@, b@) == spec_text_le(
                a@.subrange(i as int, a@.len() as int),
                b@.subrange(i as int, b@.len() as int),
            ),
        decreases a.len() - i,
    {
        let ghost ra = a@.subrange(i as int, a@.len() as int);
        let ghost rb = b@.subrange(i as int, b@.len() as int);
        assert(ra[0] == a@[i as int]);
        assert(rb[0] == b@[i as int]);
        if a[i] != b[i] {
            return a[i] < b[i];
        }
        assert(ra.drop_first() =~= a@.subrange(i + 1, a@.len() as int));
        assert(rb.drop_first() =~= b@.subrange(i + 1, b@.len() as int));
        assert(a@.subrange(0, i + 1) =~= a@.subrange(0, i as int).push(a@[i as int]));
        assert(b@.subrange(0, i + 1) =~= b@.subrange(0, i as int).push(b@[i as int]));
        i = i + 1;
    }
    i == a.len()
}

/// A device to choose: its host path and the line that names it.
pub type Choice = (String, String);

/// The texts of a choice.
pub open spec fn choice_view(c: Choice) -> (Seq<char>, Seq<char>) {
    (c.0@, c.1@)
}

/// Inserts `x` into `sorted` after every entry whose line comes no later.
pub open spec fn spec_insert_choice(sorted: Seq<(Seq<char>, Seq<char>)>, x: (Seq<char>, Seq<char>)) -> Seq<
    (Seq<char>, Seq<char>),
>
    decreases sorted.len(),
{
    if sorted.len() == 0 {
        seq![x]
    } else if spec_text_le(sorted.last().1, x.1) {
        sorted.push(x)
    } else {
        spec_insert_choice(sorted.drop_last(), x).push(sorted.last())
    }
}

/// Choices sorted by their lines, equal lines kept in their order.
pub open spec fn spec_sort_choices(s: Seq<(Seq<char>, Seq<char>)>) -> Seq<(Seq<char>, Seq<char>)>
    decreases s.len(),
{
    if s.len() == 0 {
        Seq::empty()
    } else {
        spec_insert_choice(spec_sort_choices(s.drop_last()), s.last())
    }
}

/// The devices that match `info`, in order.
pub open spec fn spec_matching(devices: Seq<RemoteWalletInfo>, info: RemoteWalletInfo) -> Seq<
    RemoteWalletInfo,
>
    decreases devices.len(),
{
    if devices.len() == 0 {
        Seq::empty()
    } else {
        let rest = spec_matching(devices.drop_last(), info);
        if devices.last().spec_matches(info) {
            rest.push(devices.last())
        } else {
            rest
        }
    }
}

/// The line that names a device: its path, then its model in parentheses.
pub open spec fn spec_choice_line(d: RemoteWalletInfo) -> Seq<char> {
    d.spec_pretty_path() + " ("@ + d.model@ + ")"@
}

/// The choices of the devices without error, in order.
pub open spec fn spec_choices_of(devices: Seq<RemoteWalletInfo>) -> Seq<(Seq<char>, Seq<char>)>
    decreases devices.len(),
{
    if devices.len() == 0 {
        Seq::empty()
    } else {
        let rest = spec_choices_of(devices.drop_last());
        if devices.last().error is None {
            rest.push((devices.last().host_device_path@, spec_choice_line(devices.last())))
        } else {
            rest
        }
    }
}

/// The devices a user may choose from for `info`: when every matching device
/// failed, the error of the first; when no matching device is usable, no
/// device; otherwise the usable ones, sorted by their lines.
pub open spec fn spec_keystone_choices(devices: Seq<RemoteWalletInfo>, info: RemoteWalletInfo) -> Result<
    Seq<(Seq<char>, Seq<char>)>,
    RemoteWalletError,
> {
    let matching = spec_matching(devices, info);
    if matching.len() > 0 && forall|k: int| 0 <= k < matching.len() ==> (#[trigger] matching[k]).error is Some {
        Err(matching[0].error->Some_0)
    } else if spec_choices_of(matching).len() == 0 {
        Err(RemoteWalletError::NoDeviceFound)
    } else {
        Ok(spec_sort_choices(spec_choices_of(matching)))
    }
}

/// Inserts a choice into a sorted list.
fn insert_choice(sorted: &mut Vec<Choice>, x: Choice)
    ensures
        final(sorted)@.map_values(|c: Choice| choice_view(c)) == spec_insert_choice(
            old(sorted)@.map_values(|c: Choice| choice_view(c)),
            choice_view(x),
        ),
    decreases old(sorted)@.len(),
{
    let ghost old_view = sorted@.map_values(|c: Choice| choice_view(c));
    if sorted.len() == 0 {
        sorted.push(x);
        assert(sorted@.map_values(|c: Choice| choice_view(c)) =~= seq![choice_view(x)]);
        return;
    }
    let last_index = sorted.len() - 1;
    let a = chars_of(sorted[last_index].1.as_str());
    let b = chars_of(x.1.as_str());
    assert(old_view.last() == choice_view(sorted@[last_index as int]));
    if text_le(&a, &b) {
        sorted.push(x);
        assert(sorted@.map_values(|c: Choice| choice_view(c)) =~= old_view.push(choice_view(x)));
    } else {
        let last = sorted.pop().unwrap();
        assert(sorted@.map_values(|c: Choice| choice_view(c)) =~= old_view.drop_last());
        insert_choice(sorted, x);
        let ghost mid = sorted@.map_values(|c: Choice| choice_view(c));
        sorted.push(last);
        assert(sorted@.map_values(|c: Choice| choice_view(c)) =~= mid.push(choice_view(last)));
    }
}

/// The devices a user may choose from to get a Keystone wallet matching `info`.
pub fn keystone_choices(devices: &Vec<RemoteWalletInfo>, info: &RemoteWalletInfo) -> (res: Result<
    Vec<Choice>,
    RemoteWalletError,
>)
    ensures
        match spec_keystone_choices(devices@, *info) {
            Ok(cs) => res matches Ok(v) && v@.map_values(|c: Choice| choice_view(c)) == cs,
            Err(e) => res == Err::<Vec<Choice>, RemoteWalletError>(e),
        },
{
    let ghost matching_all = spec_matching(devices@, *info);
    let mut first_match: Option<usize> = None;
    let mut all_failed = true;
    let mut usable: Vec<Choice> = Vec::new();
    let mut i: usize = 0;
    while i < devices.len()
        invariant
            i <= devices@.len(),
            matching_all == spec_matching(devices@, *info),
            ({
                let m = spec_matching(devices@.subrange(0, i as int), *info);
                &&& (first_match is None <==> m.len() == 0)
                &&& first_match matches Some(f) ==> f < i && devices@[f as int] == m[0]
                &&& all_failed == forall|k: int| 0 <= k < m.len() ==> (#[trigger] m[k]).error is Some
                &&& usable@.map_values(|c: Choice| choice_view(c)) == spec_choices_of(m)
            }),
        decreases devices.len() - i,
    {
        let ghost before = spec_matching(devices@.subrange(0, i as int), *info);
        let ghost taken = devices@.subrange(0, i + 1);
        assert(taken.drop_last() =~= devices@.subrange(0, i as int));
        let d = &devices[i];
        if d.matches(info) {
            proof {
                lemma_matches_symmetric_here(*d, *info);
            }
            let ghost after = before.push(*d);
            assert(spec_matching(taken, *info) == after);
            assert(after.drop_last() =~= before);
            if first_match.is_none() {
                first_match = Some(i);
            }
            if d.error.is_none() {
                let mut line = d.get_pretty_path();
                line.append(" (");
                line.append(d.model.as_str());
                line.append(")");
                let path = d.host_device_path.clone();
                usable.push((path, line));
                all_failed = false;
                assert(usable@.map_values(|c: Choice| choice_view(c)) =~= spec_choices_of(before).push(
                    (d.host_device_path@, spec_choice_line(*d)),
                ));
            }
            assert(all_failed == forall|k: int| 0 <= k < after.len() ==> (#[trigger] after[k]).error is Some) by {
                if !all_failed {
                    if d.error.is_none() {
                        assert(after[after.len() - 1].error is None);
                    } else {
                        let w = choose|k: int| 0 <= k < before.len() && (#[trigger] before[k]).error is None;
                        assert(after[w] == before[w]);
                    }
                }
            }
        } else {
            proof {
                lemma_matches_symmetric_here(*d, *info);
            }
            assert(spec_matching(taken, *info) == before);
        }
        i = i + 1;
    }
    assert(devices@.subrange(0, devices@.len() as int) =~= devices@);
    if all_failed {
        match first_match {
            Some(f) => {
                match &devices[f].error {
                    Some(e) => {
                        return Err(e.duplicate());
                    },
                    None => {},
                }
            },
            None => {},
        }
    }
    if usable.len() == 0 {
        return Err(RemoteWalletError::NoDeviceFound);
    }
    let mut sorted: Vec<Choice> = Vec::new();
    let ghost all = usable@.map_values(|c: Choice| choice_view(c));
    let mut j: usize = 0;
    assert(all.subrange(0, 0) =~= Seq::<(Seq<char>, Seq<char>)>::empty());
    while j < usable.len()
        invariant
            j <= usable@.len(),
            all == usable@.map_values(|c: Choice| choice_view(c)),
            sorted@.map_values(|c: Choice| choice_view(c)) == spec_sort_choices(all.subrange(0, j as int)),
        decreases usable.len() - j,
    {
        let ghost taken = all.subrange(0, j + 1);
        assert(taken.drop_last() =~= all.subrange(0, j as int));
        let c = (usable[j].0.clone(), usable[j].1.clone());
        assert(choice_view(c) == all[j as int]);
        insert_choice(&mut sorted, c);
        j = j + 1;
    }
    assert(all.subrange(0, all.len() as int) =~= all);
    Ok(sorted)
}

proof fn lemma_matches_symmetric_here(a: RemoteWalletInfo, b: RemoteWalletInfo)
    ensures
        a.spec_matches(b) == b.spec_matches(a),
{
}


// ---------------------------------------------------------------------------
// The order of the choices
// ---------------------------------------------------------------------------

proof fn lemma_text_le_total(a: Seq<char>, b: Seq<char>)
    ensures
        spec_text_le(a, b) || spec_text_le(b, a),
    decreases a.len(),
{
    if a.len() > 0 && b.len() > 0 {
        if a[0] == b[0] {
            lemma_text_le_total(a.drop_first(), b.drop_first());
        } else {
            assert((a[0] as int) != (b[0] as int));
        }
    }
}

proof fn lemma_text_le_transitive(a: Seq<char>, b: Seq<char>, c: Seq<char>)
    requires
        spec_text_le(a, b),
        spec_text_le(b, c),
    ensures
        spec_text_le(a, c),
    decreases a.len(),
{
    if a.len() > 0 && b.len() > 0 && c.len() > 0 && a[0] == b[0] && b[0] == c[0] {
        lemma_text_le_transitive(a.drop_first(), b.drop_first(), c.drop_first());
    }
}

/// Choices in order of their lines.
pub open spec fn spec_choices_sorted(s: Seq<(Seq<char>, Seq<char>)>) -> bool {
    forall|i: int, j: int| 0 <= i < j < s.len() ==> spec_text_le(#[trigger] s[i].1, #[trigger] s[j].1)
}

/// Every line of `s` comes no later than `bound`.
pub open spec fn spec_all_le(s: Seq<(Seq<char>, Seq<char>)>, bound: Seq<char>) -> bool {
    forall|i: int| 0 <= i < s.len() ==> spec_text_le(#[trigger] s[i].1, bound)
}

proof fn lemma_insert_bounded(s: Seq<(Seq<char>, Seq<char>)>, x: (Seq<char>, Seq<char>), bound: Seq<char>)
    requires
        spec_all_le(s, bound),
        spec_text_le(x.1, bound),
    ensures
        spec_all_le(spec_insert_choice(s, x), bound),
        spec_insert_choice(s, x).len() == s.len() + 1,
    decreases s.len(),
{
    if s.len() > 0 && !spec_text_le(s.last().1, x.1) {
        let d = s.drop_last();
        assert forall|i: int| 0 <= i < d.len() implies spec_text_le(#[trigger] d[i].1, bound) by {
            assert(d[i] == s[i]);
        }
        lemma_insert_bounded(d, x, bound);
        let r = spec_insert_choice(d, x).push(s.last());
        assert forall|i: int| 0 <= i < r.len() implies spec_text_le(#[trigger] r[i].1, bound) by {
            if i < r.len() - 1 {
                assert(r[i] == spec_insert_choice(d, x)[i]);
            } else {
                assert(s[s.len() - 1] == s.last());
            }
        }
    }
}

proof fn lemma_insert_sorted(s: Seq<(Seq<char>, Seq<char>)>, x: (Seq<char>, Seq<char>))
    requires
        spec_choices_sorted(s),
    ensures
        spec_choices_sorted(spec_insert_choice(s, x)),
        spec_insert_choice(s, x).to_multiset() == s.to_multiset().insert(x),
    decreases s.len(),
{
    broadcast use vstd::seq_lib::group_to_multiset_ensures;

    if s.len() == 0 {
        assert(seq![x] =~= Seq::<(Seq<char>, Seq<char>)>::empty().push(x));
        assert(s =~= Seq::<(Seq<char>, Seq<char>)>::empty());
    } else if spec_text_le(s.last().1, x.1) {
        let r = s.push(x);
        assert forall|i: int, j: int| 0 <= i < j < r.len() implies spec_text_le(
            #[trigger] r[i].1,
            #[trigger] r[j].1,
        ) by {
            if j == r.len() - 1 {
                if i < s.len() - 1 {
                    assert(spec_text_le(s[i].1, s[s.len() - 1].1));
                    lemma_text_le_transitive(s[i].1, s.last().1, x.1);
                }
            } else {
                assert(r[i] == s[i] && r[j] == s[j]);
            }
        }
    } else {
        let d = s.drop_last();
        let last = s.last();
        assert forall|i: int, j: int| 0 <= i < j < d.len() implies spec_text_le(
            #[trigger] d[i].1,
            #[trigger] d[j].1,
        ) by {
            assert(d[i] == s[i] && d[j] == s[j]);
        }
        lemma_insert_sorted(d, x);
        lemma_text_le_total(last.1, x.1);
        assert forall|i: int| 0 <= i < d.len() implies spec_text_le(#[trigger] d[i].1, last.1) by {
            assert(d[i] == s[i]);
            assert(s[s.len() - 1] == last);
        }
        lemma_insert_bounded(d, x, last.1);
        let inner = spec_insert_choice(d, x);
        let r = inner.push(last);
        assert forall|i: int, j: int| 0 <= i < j < r.len() implies spec_text_le(
            #[trigger] r[i].1,
            #[trigger] r[j].1,
        ) by {
            if j == r.len() - 1 {
                assert(r[i] == inner[i]);
            } else {
                assert(r[i] == inner[i] && r[j] == inner[j]);
            }
        }
        assert(d.push(last) =~= s);
        assert(r.to_multiset() =~= s.to_multiset().insert(x));
    }
}

/// The devices offered for a choice come in order of their lines, and each
/// usable device is offered exactly once.
pub proof fn lemma_sorted_choices(s: Seq<(Seq<char>, Seq<char>)>)
    ensures
        spec_choices_sorted(spec_sort_choices(s)),
        spec_sort_choices(s).to_multiset() == s.to_multiset(),
    decreases s.len(),
{
    broadcast use vstd::seq_lib::group_to_multiset_ensures;

    if s.len() == 0 {
        assert(s =~= Seq::<(Seq<char>, Seq<char>)>::empty());
    } else {
        lemma_sorted_choices(s.drop_last());
        lemma_insert_sorted(spec_sort_choices(s.drop_last()), s.last());
        assert(s.drop_last().push(s.last()) =~= s);
    }
}

} // verus!
