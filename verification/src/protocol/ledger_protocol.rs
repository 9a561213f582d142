//! The Ledger APDU protocol over a HID transport.
//!
//! A request is cut into 64-byte packets. Each starts with the transport
//! header: channel `0x0101`, tag `0x05`, and the packet's sequence number
//! (two bytes, big endian). The first packet then carries the APDU header:
//! the APDU length (two bytes), class `0xe0`, instruction, `p1`, `p2` and the
//! data length (one byte; two bytes for apps that predate 0.2.0). The data
//! follows, and each packet is padded with zeros.
//!
//! A reply comes in packets with the same transport header; the first one
//! adds the message length (two bytes). The message ends with a status word.
use crate::errors::RemoteWalletError;
use crate::protocol::common::Protocol;
use crate::transport::common::{check_written, spec_write_outcome, Transport};
use std::io::Write;
use vstd::prelude::*;

verus! {

/// Tag of APDU packets.
pub const APDU_TAG: u8 = 0x05;

/// Class of APDU commands.
pub const APDU_CLA: u8 = 0xe0;

/// APDU header length after the transport header.
pub const APDU_PAYLOAD_HEADER_LEN: usize = 7;

/// APDU header length for apps that predate 0.2.0.
pub const DEPRECATED_APDU_PAYLOAD_HEADER_LEN: usize = 8;

/// `p1`: no confirmation on the device.
pub const P1_NON_CONFIRM: u8 = 0x00;

/// `p1`: the user confirms on the device.
pub const P1_CONFIRM: u8 = 0x01;

/// `p2` bit: the request extends an earlier one.
pub const P2_EXTEND: u8 = 0x01;

/// `p2` bit: more parts of the request follow.
pub const P2_MORE: u8 = 0x02;

/// Largest data chunk of one APDU.
pub const MAX_CHUNK_SIZE: usize = 255;

/// Length of the transport header of a packet.
pub const LEDGER_TRANSPORT_HEADER_LEN: usize = 5;

/// Size of a HID packet.
pub const HID_PACKET_SIZE: usize = 64;

/// Instruction: app configuration, apps before 0.2.0.
pub const DEPRECATED_GET_APP_CONFIGURATION: u8 = 0x01;

/// Instruction: public key, apps before 0.2.0.
pub const DEPRECATED_GET_PUBKEY: u8 = 0x02;

/// Instruction: sign a message, apps before 0.2.0.
pub const DEPRECATED_SIGN_MESSAGE: u8 = 0x03;

/// Instruction: app configuration.
pub const GET_APP_CONFIGURATION: u8 = 0x04;

/// Instruction: public key.
pub const GET_PUBKEY: u8 = 0x05;

/// Instruction: sign a message.
pub const SIGN_MESSAGE: u8 = 0x06;

/// Instruction: sign an off-chain message.
pub const SIGN_OFFCHAIN_MESSAGE: u8 = 0x07;

// ---------------------------------------------------------------------------
// Request packets
// ---------------------------------------------------------------------------

/// Data bytes the first packet of a request carries.
pub open spec fn spec_first_capacity(outdated_app: bool) -> nat {
    if outdated_app {
        51
    } else {
        52
    }
}

/// Where the data of packet `seq` starts.
pub open spec fn spec_packet_offset(len: nat, outdated_app: bool, seq: nat) -> nat {
    if seq == 0 {
        0
    } else if spec_first_capacity(outdated_app) + 59 * (seq - 1) <= len {
        (spec_first_capacity(outdated_app) + 59 * (seq - 1)) as nat
    } else {
        len
    }
}

/// How many packets a request with `len` data bytes takes.
pub open spec fn spec_packet_count(len: nat, outdated_app: bool) -> nat {
    let c = spec_first_capacity(outdated_app);
    if len <= c {
        1
    } else {
        (1 + (len - c + 58) / 59) as nat
    }
}

/// The transport header of packet `seq`.
pub open spec fn spec_transport_header(seq: nat) -> Seq<u8> {
    seq![1u8, 1u8, APDU_TAG, ((seq / 256) % 256) as u8, (seq % 256) as u8]
}

/// The APDU header of a request: length of the APDU, class, instruction,
/// parameters and data length.
pub open spec fn spec_apdu_header(command: u8, p1: u8, p2: u8, len: nat, outdated_app: bool) -> Seq<u8> {
    if outdated_app {
        let l = len + 6;
        seq![
            ((l / 256) % 256) as u8,
            (l % 256) as u8,
            APDU_CLA,
            command,
            p1,
            p2,
            ((len / 256) % 256) as u8,
            (len % 256) as u8,
        ]
    } else {
        let l = len + 5;
        seq![((l / 256) % 256) as u8, (l % 256) as u8, APDU_CLA, command, p1, p2, (len % 256) as u8]
    }
}

/// The data bytes packet `seq` carries.
pub open spec fn spec_packet_data(data: Seq<u8>, outdated_app: bool, seq: nat) -> Seq<u8> {
    let from = spec_packet_offset(data.len(), outdated_app, seq);
    let to = spec_packet_offset(data.len(), outdated_app, seq + 1);
    data.subrange(from as int, to as int)
}

/// Packet `seq` of a request, padded with zeros to the packet size.
pub open spec fn spec_request_packet(
    command: u8,
    p1: u8,
    p2: u8,
    data: Seq<u8>,
    outdated_app: bool,
    seq: nat,
) -> Seq<u8> {
    let head = if seq == 0 {
        spec_transport_header(seq) + spec_apdu_header(command, p1, p2, data.len(), outdated_app)
    } else {
        spec_transport_header(seq)
    };
    let body = head + spec_packet_data(data, outdated_app, seq);
    body + Seq::new((64 - body.len()) as nat, |i: int| 0u8)
}

proof fn lemma_offsets(len: nat, outdated_app: bool, seq: nat)
    ensures
        spec_packet_offset(len, outdated_app, seq) <= spec_packet_offset(len, outdated_app, seq + 1),
        spec_packet_offset(len, outdated_app, seq + 1) <= len,
        spec_packet_offset(len, outdated_app, seq + 1) - spec_packet_offset(len, outdated_app, seq)
            <= (if seq == 0 {
            spec_first_capacity(outdated_app)
        } else {
            59
        }),
{
}

/// Every packet of a request fills exactly one 64-byte HID report and opens
/// with the transport header: channel 0x0101, tag 0x05 and the big-endian
/// packet number.
pub proof fn lemma_request_packet_size(
    command: u8,
    p1: u8,
    p2: u8,
    data: Seq<u8>,
    outdated_app: bool,
    seq: nat,
)
    ensures
        spec_request_packet(command, p1, p2, data, outdated_app, seq).len() == 64,
        spec_request_packet(command, p1, p2, data, outdated_app, seq).subrange(0, 5) == seq![
            0x01u8,
            0x01u8,
            0x05u8,
            ((seq / 256) % 256) as u8,
            (seq % 256) as u8,
        ],
{
    lemma_offsets(data.len(), outdated_app, seq);
    let packet = spec_request_packet(command, p1, p2, data, outdated_app, seq);
    let head = if seq == 0 {
        spec_transport_header(seq) + spec_apdu_header(command, p1, p2, data.len(), outdated_app)
    } else {
        spec_transport_header(seq)
    };
    let body = head + spec_packet_data(data, outdated_app, seq);
    assert(body.len() <= 64);
    assert(packet.subrange(0, 5) =~= spec_transport_header(seq));
}

/// The fewest bytes the transport must take of packet `seq`: its headers
/// and the data it carries.
pub open spec fn spec_packet_min(len: nat, outdated_app: bool, seq: nat) -> nat {
    let head: int = if seq == 0 {
        if outdated_app {
            13
        } else {
            12
        }
    } else {
        5
    };
    (head + spec_packet_offset(len, outdated_app, seq + 1) - spec_packet_offset(
        len,
        outdated_app,
        seq,
    )) as nat
}

/// The fewest bytes the transport must take of each packet of a request.
pub open spec fn spec_packet_mins(len: nat, outdated_app: bool) -> Seq<nat> {
    Seq::new(spec_packet_count(len, outdated_app), |k: int| spec_packet_min(len, outdated_app, k as nat))
}

/// Where the data of packet `seq` starts.
pub fn packet_offset(len: usize, outdated_app: bool, seq: usize) -> (res: usize)
    ensures
        res == spec_packet_offset(len as nat, outdated_app, seq as nat),
{
    if seq == 0 {
        return 0;
    }
    let c: usize = if outdated_app {
        51
    } else {
        52
    };
    if len < c {
        return len;
    }
    let q = (len - c) / 59;
    if seq - 1 <= q {
        assert(59 * (seq - 1) <= 59 * q) by (nonlinear_arith)
            requires
                seq - 1 <= q,
        ;
        assert(59 * q <= len - c) by (nonlinear_arith)
            requires
                q == (len - c) / 59,
                len >= c,
        ;
        c + 59 * (seq - 1)
    } else {
        assert(59 * (seq - 1) > len - c) by (nonlinear_arith)
            requires
                seq - 1 > q,
                q == (len - c) / 59,
                len >= c,
        ;
        len
    }
}

/// How many packets a request with `len` data bytes takes.
pub fn packet_count(len: usize, outdated_app: bool) -> (res: usize)
    ensures
        res == spec_packet_count(len as nat, outdated_app),
{
    let c: usize = if outdated_app {
        51
    } else {
        52
    };
    if len <= c {
        1
    } else {
        let q = (len - c) / 59;
        let r = (len - c) % 59;
        assert(q <= len) by (nonlinear_arith)
            requires
                q == (len - c) / 59,
                len >= c,
        ;
        assert((len - c + 58) / 59 == q + (if r == 0 { 0int } else { 1int })) by (nonlinear_arith)
            requires
                q == (len - c) / 59,
                r == (len - c) % 59,
                len > c,
        ;
        if r == 0 {
            1 + q
        } else {
            2 + q
        }
    }
}

/// The packets of a request, in order.
pub fn request_packets(command: u8, p1: u8, p2: u8, data: &[u8], outdated_app: bool) -> (res: Vec<
    Vec<u8>,
>)
    ensures
        res@.map_values(|p: Vec<u8>| p@) == spec_request_packets(command, p1, p2, data@, outdated_app),
{
    let count = packet_count(data.len(), outdated_app);
    let mut packets: Vec<Vec<u8>> = Vec::new();
    let mut k: usize = 0;
    while k < count
        invariant
            k <= count,
            count == spec_packet_count(data@.len(), outdated_app),
            packets@.map_values(|p: Vec<u8>| p@) == spec_request_packets(
                command,
                p1,
                p2,
                data@,
                outdated_app,
            ).take(k as int),
        decreases count - k,
    {
        let packet = request_packet(command, p1, p2, data, outdated_app, k);
        assert(spec_request_packets(command, p1, p2, data@, outdated_app)[k as int] == packet@);
        let ghost before = packets@;
        packets.push(packet);
        assert(packets@.map_values(|p: Vec<u8>| p@) =~= before.map_values(|p: Vec<u8>| p@).push(
            packet@,
        ));
        k = k + 1;
        assert(packets@.map_values(|p: Vec<u8>| p@) =~= spec_request_packets(
            command,
            p1,
            p2,
            data@,
            outdated_app,
        ).take(k as int));
    }
    assert(packets@.map_values(|p: Vec<u8>| p@) =~= spec_request_packets(
        command,
        p1,
        p2,
        data@,
        outdated_app,
    ));
    packets
}

/// Appends `v` to `out`.
fn push_all(out: &mut Vec<u8>, v: &[u8], from: usize, to: usize)
    requires
        from <= to <= v@.len(),
    ensures
        final(out)@ == old(out)@ + v@.subrange(from as int, to as int),
{
    let mut i: usize = from;
    while i < to
        invariant
            from <= i <= to,
            to <= v@.len(),
            out@ == old(out)@ + v@.subrange(from as int, i as int),
        decreases to - i,
    {
        out.push(v[i]);
        i = i + 1;
        assert(out@ =~= old(out)@ + v@.subrange(from as int, i as int));
    }
}

/// Builds packet `seq` of a request whose data starts at `offset`.
pub fn request_packet(
    command: u8,
    p1: u8,
    p2: u8,
    data: &[u8],
    outdated_app: bool,
    seq: usize,
) -> (res: Vec<u8>)
    ensures
        res@ == spec_request_packet(command, p1, p2, data@, outdated_app, seq as nat),
        res@.len() == HID_PACKET_SIZE,
{
    let len = data.len();
    let mut packet: Vec<u8> = Vec::new();
    packet.push(0x01);
    packet.push(0x01);
    packet.push(APDU_TAG);
    packet.push(((seq / 256) % 256) as u8);
    packet.push((seq % 256) as u8);
    if seq == 0 {
        if outdated_app {
            let l = len as u128 + 6;
            packet.push(((l / 256) % 256) as u8);
            packet.push((l % 256) as u8);
            packet.push(APDU_CLA);
            packet.push(command);
            packet.push(p1);
            packet.push(p2);
            packet.push(((len / 256) % 256) as u8);
            packet.push((len % 256) as u8);
        } else {
            let l = len as u128 + 5;
            packet.push(((l / 256) % 256) as u8);
            packet.push((l % 256) as u8);
            packet.push(APDU_CLA);
            packet.push(command);
            packet.push(p1);
            packet.push(p2);
            packet.push((len % 256) as u8);
        }
    }
    let ghost head = packet@;
    let first: usize = if outdated_app {
        51
    } else {
        52
    };
    let from: usize = if seq == 0 {
        0
    } else if (seq as u128 - 1) * 59 + first as u128 <= len as u128 {
        (seq - 1) * 59 + first
    } else {
        len
    };
    let to: usize = if (seq as u128) * 59 + first as u128 <= len as u128 {
        seq * 59 + first
    } else {
        len
    };
    proof {
        assert(from == spec_packet_offset(len as nat, outdated_app, seq as nat));
        assert(to == spec_packet_offset(len as nat, outdated_app, seq as nat + 1));
        lemma_offsets(len as nat, outdated_app, seq as nat);
    }
    proof {
        if seq == 0 {
            assert(head =~= spec_transport_header(seq as nat) + spec_apdu_header(
                command,
                p1,
                p2,
                data@.len(),
                outdated_app,
            ));
        } else {
            assert(head =~= spec_transport_header(seq as nat));
        }
    }
    push_all(&mut packet, data, from, to);
    let ghost body = packet@;
    assert(body =~= head + spec_packet_data(data@, outdated_app, seq as nat));
    assert(body.len() <= HID_PACKET_SIZE);
    while packet.len() < HID_PACKET_SIZE
        invariant
            body.len() <= HID_PACKET_SIZE,
            packet@.len() <= HID_PACKET_SIZE,
            packet@ == body + Seq::new((packet@.len() - body.len()) as nat, |i: int| 0u8),
        decreases HID_PACKET_SIZE - packet.len(),
    {
        packet.push(0);
        assert(packet@ =~= body + Seq::new((packet@.len() - body.len()) as nat, |i: int| 0u8));
    }
    assert(packet@ =~= spec_request_packet(command, p1, p2, data@, outdated_app, seq as nat));
    packet
}

// ---------------------------------------------------------------------------
// Reply packets
// ---------------------------------------------------------------------------

/// A big-endian 16-bit number.
pub open spec fn be16(hi: u8, lo: u8) -> nat {
    hi as nat * 256 + lo as nat
}

/// One reply packet (the bytes the transport filled) folded into the message
/// so far: the message, its announced size, and whether it is complete.
pub open spec fn spec_reply_step(message: Seq<u8>, size: nat, index: nat, chunk: Seq<u8>) -> Result<
    (Seq<u8>, nat, bool),
    RemoteWalletError,
> {
    if chunk.len() < 5 || chunk[0] != 1 || chunk[1] != 1 || chunk[2] != APDU_TAG {
        Err(RemoteWalletError::Protocol("Unexpected chunk header"))
    } else if be16(chunk[3], chunk[4]) != index {
        Err(RemoteWalletError::Protocol("Unexpected chunk header"))
    } else if index == 0 && chunk.len() < 7 {
        Err(RemoteWalletError::Protocol("Unexpected chunk header"))
    } else {
        let new_size = if index == 0 {
            be16(chunk[5], chunk[6])
        } else {
            size
        };
        let from: int = if index == 0 {
            7
        } else {
            5
        };
        let m = message + chunk.subrange(from, chunk.len() as int);
        let kept = if m.len() > new_size {
            m.subrange(0, new_size as int)
        } else {
            m
        };
        Ok((kept, new_size, kept.len() == new_size))
    }
}

/// The reply packets folded in order; a complete message takes no further
/// packets.
pub open spec fn spec_reply_chunks(chunks: Seq<Seq<u8>>) -> Result<
    (Seq<u8>, nat, bool),
    RemoteWalletError,
>
    decreases chunks.len(),
{
    if chunks.len() == 0 {
        Ok((Seq::empty(), 0, false))
    } else {
        match spec_reply_chunks(chunks.drop_last()) {
            Err(e) => Err(e),
            Ok((m, size, done)) => if done {
                Ok((m, size, done))
            } else {
                spec_reply_step(m, size, (chunks.len() - 1) as nat, chunks.last())
            },
        }
    }
}

/// What a status word means.
pub open spec fn spec_parse_status(status: nat) -> Result<(), RemoteWalletError> {
    if status == 0x9000 {
        Ok(())
    } else if status == 0x6d00 {
        Err(RemoteWalletError::Protocol("Invalid instruction"))
    } else if status == 0x6e00 {
        Err(RemoteWalletError::Protocol("Invalid class"))
    } else if status == 0x6f00 {
        Err(RemoteWalletError::Protocol("Invalid parameter"))
    } else if status == 0x6985 {
        Err(RemoteWalletError::UserCancel)
    } else {
        Err(RemoteWalletError::Protocol("Unknown status"))
    }
}

/// The status words of the Ledger app: 0x9000 alone is success, 0x6985 alone
/// is the user cancelling, 0x6D00, 0x6E00 and 0x6F00 are an invalid
/// instruction, class and parameter, and every other word is an unknown status.
pub proof fn lemma_ledger_status_table(status: nat)
    ensures
        spec_parse_status(status) is Ok <==> status == 0x9000,
        spec_parse_status(status) == Err::<(), RemoteWalletError>(RemoteWalletError::UserCancel)
            <==> status == 0x6985,
        status == 0x6d00 ==> spec_parse_status(status) == Err::<(), RemoteWalletError>(
            RemoteWalletError::Protocol("Invalid instruction"),
        ),
        status == 0x6e00 ==> spec_parse_status(status) == Err::<(), RemoteWalletError>(
            RemoteWalletError::Protocol("Invalid class"),
        ),
        status == 0x6f00 ==> spec_parse_status(status) == Err::<(), RemoteWalletError>(
            RemoteWalletError::Protocol("Invalid parameter"),
        ),
        (status != 0x9000 && status != 0x6985 && status != 0x6d00 && status != 0x6e00 && status
            != 0x6f00) ==> spec_parse_status(status) == Err::<(), RemoteWalletError>(
            RemoteWalletError::Protocol("Unknown status"),
        ),
{
}

/// The reply a message carries: the message without its status word, when
/// the status word says success.
pub open spec fn spec_reply_of(message: Seq<u8>) -> Result<Seq<u8>, RemoteWalletError> {
    if message.len() < 2 {
        Err(RemoteWalletError::Protocol("No status word"))
    } else {
        match spec_parse_status(be16(message[message.len() - 2], message[message.len() - 1])) {
            Err(e) => Err(e),
            Ok(_) => Ok(message.subrange(0, message.len() - 2)),
        }
    }
}

/// The packets `chunks` end the reading of a reply whose content is `r`: the
/// message completed with the last of them, or 65536 packets were read.
pub open spec fn spec_chunks_give_reply(chunks: Seq<Seq<u8>>, r: Seq<u8>) -> bool {
    match spec_reply_chunks(chunks) {
        Ok((m, size, done)) => (done || chunks.len() == 0x1_0000) && chunks.len() >= 1
            && spec_reply_of(m) == Ok::<Seq<u8>, RemoteWalletError>(r),
        Err(_) => false,
    }
}

/// `r` is the content of some reply.
pub open spec fn spec_is_reply(r: Seq<u8>) -> bool {
    exists|chunks: Seq<Seq<u8>>| #[trigger] spec_chunks_give_reply(chunks, r)
}

/// Reassembles a reply from its packets, one at a time.
pub struct ReplyAssembler {
    message: Vec<u8>,
    size: usize,
    index: usize,
    done: bool,
}

impl ReplyAssembler {
    pub closed spec fn spec_message(&self) -> Seq<u8> {
        self.message@
    }

    pub closed spec fn spec_size(&self) -> nat {
        self.size as nat
    }

    pub closed spec fn spec_index(&self) -> nat {
        self.index as nat
    }

    pub closed spec fn spec_done(&self) -> bool {
        self.done
    }

    /// The assembler has taken the packets `chunks`.
    pub open spec fn has_taken(&self, chunks: Seq<Seq<u8>>) -> bool {
        &&& spec_reply_chunks(chunks) == Ok::<(Seq<u8>, nat, bool), RemoteWalletError>(
            (self.spec_message(), self.spec_size(), self.spec_done()),
        )
        &&& self.spec_index() == chunks.len()
    }

    pub closed spec fn wf(&self) -> bool {
        self.size <= 0xffff && self.message@.len() <= self.size
    }

    pub fn new() -> (res: Self)
        ensures
            res.has_taken(Seq::empty()),
            res.wf(),
    {
        ReplyAssembler { message: Vec::new(), size: 0, index: 0, done: false }
    }

    pub fn is_done(&self) -> (res: bool)
        ensures
            res == self.spec_done(),
    {
        self.done
    }

    /// Takes the next packet: the first `n` bytes of `chunk`.
    pub fn feed(&mut self, chunk: &[u8], n: usize) -> (res: Result<bool, RemoteWalletError>)
        requires
            !old(self).spec_done(),
            old(self).wf(),
            n <= chunk@.len(),
            old(self).spec_index() <= 0xffff,
        ensures
            match spec_reply_step(
                old(self).spec_message(),
                old(self).spec_size(),
                old(self).spec_index(),
                chunk@.subrange(0, n as int),
            ) {
                Ok((m, size, done)) => res == Ok::<bool, RemoteWalletError>(done)
                    && final(self).spec_message() == m && final(self).spec_size() == size
                    && final(self).spec_done() == done && final(self).spec_index()
                    == old(self).spec_index() + 1 && final(self).wf(),
                Err(e) => res == Err::<bool, RemoteWalletError>(e),
            },
    {
        let ghost c = chunk@.subrange(0, n as int);
        let ghost old_message = self.message@;
        if n < LEDGER_TRANSPORT_HEADER_LEN || chunk[0] != 0x01 || chunk[1] != 0x01 || chunk[2]
            != APDU_TAG {
            return Err(RemoteWalletError::Protocol("Unexpected chunk header"));
        }
        let seq: usize = (chunk[3] as usize) * 256 + chunk[4] as usize;
        assert(seq == be16(c[3], c[4]));
        if seq != self.index {
            return Err(RemoteWalletError::Protocol("Unexpected chunk header"));
        }
        let mut offset: usize = LEDGER_TRANSPORT_HEADER_LEN;
        if seq == 0 {
            if n < 7 {
                return Err(RemoteWalletError::Protocol("Unexpected chunk header"));
            }
            self.size = (chunk[5] as usize) * 256 + chunk[6] as usize;
            assert(self.size == be16(c[5], c[6]));
            offset = offset + 2;
        }
        push_all(&mut self.message, chunk, offset, n);
        assert(chunk@.subrange(offset as int, n as int) =~= c.subrange(offset as int, c.len() as int));
        if self.message.len() > self.size {
            let size = self.size;
            self.message.truncate(size);
            assert(self.message@ =~= (old_message + c.subrange(offset as int, c.len() as int)).subrange(
                0,
                size as int,
            ));
        }
        self.index = self.index + 1;
        self.done = self.message.len() == self.size;
        Ok(self.done)
    }

    /// The reply of the message taken so far.
    pub fn finish(self) -> (res: Result<Vec<u8>, RemoteWalletError>)
        ensures
            match spec_reply_of(self.spec_message()) {
                Ok(r) => res matches Ok(v) && v@ == r,
                Err(e) => res == Err::<Vec<u8>, RemoteWalletError>(e),
            },
    {
        let mut message = self.message;
        let len = message.len();
        if len < 2 {
            return Err(RemoteWalletError::Protocol("No status word"));
        }
        let status: usize = (message[len - 2] as usize) * 256 + message[len - 1] as usize;
        LedgerProtocol::parse_status(status)?;
        message.truncate(len - 2);
        Ok(message)
    }
}

// ---------------------------------------------------------------------------
// The protocol
// ---------------------------------------------------------------------------

/// Prints a message for the user on the standard output.
#[verifier::external_body]
fn notify_user(message: &str) {
    let _ = writeln!(std::io::stdout(), "{}", message);
}

/// The Ledger protocol over a transport.
pub struct LedgerProtocol {
    transport: Box<dyn Transport>,
}

impl LedgerProtocol {
    /// The protocol over `transport`.
    pub fn new(transport: Box<dyn Transport>) -> (res: Self) {
        LedgerProtocol { transport }
    }

    /// Sends an APDU and returns its reply.
    pub fn send_apdu(&self, command: u8, p1: u8, p2: u8, data: &[u8]) -> (res: Result<
        Vec<u8>,
        RemoteWalletError,
    >)
        ensures
            self.spec_request_answered(command, p1, p2, data@, false, res),
            res matches Ok(r) ==> spec_is_reply(r@),
    {
        self._send_apdu(command, p1, p2, data, false)
    }

    /// Sends an APDU and returns its reply; tells the user to approve on the
    /// device when the request asks for confirmation and is complete.
    fn _send_apdu(&self, command: u8, p1: u8, p2: u8, data: &[u8], outdated_app: bool) -> (res:
        Result<Vec<u8>, RemoteWalletError>)
        ensures
            self.spec_request_answered(command, p1, p2, data@, outdated_app, res),
            res matches Ok(r) ==> spec_is_reply(r@),
    {
        let written = self.write(command, p1, p2, data, outdated_app);
        if let Err(e) = written {
            return Err(e);
        }
        if p1 == P1_CONFIRM && self.is_last_part(p2) {
            notify_user("Waiting for your approval on Ledger device");
            let result = self.read()?;
            notify_user("✅ Approved");
            Ok(result)
        } else {
            self.read()
        }
    }

    /// The transport was handed `packets` in order, one write each, and gave
    /// `answers`: writing went on while the answers so far were good (as
    /// `mins` judges them), stopped at the first bad one, and reached every
    /// packet unless one was bad.
    pub open spec fn spec_sent(
        &self,
        packets: Seq<Seq<u8>>,
        mins: Seq<nat>,
        answers: Seq<Result<usize, RemoteWalletError>>,
    ) -> bool {
        &&& answers.len() <= packets.len()
        &&& forall|i: int|
            0 <= i < answers.len() ==> #[trigger] self.spec_write_answered(
                packets[i],
                answers[i],
            )
        &&& forall|i: int|
            0 < i < answers.len() ==> #[trigger] spec_write_outcome(answers.take(i), mins) is Ok
        &&& answers.len() < packets.len() ==> spec_write_outcome(answers, mins) is Err
    }

    /// `res` is what writing the packets of the request `(command, p1, p2,
    /// data)` to the transport gave.
    pub open spec fn spec_request_written(
        &self,
        command: u8,
        p1: u8,
        p2: u8,
        data: Seq<u8>,
        outdated_app: bool,
        res: Result<(), RemoteWalletError>,
    ) -> bool {
        exists|answers: Seq<Result<usize, RemoteWalletError>>|
            #[trigger] self.spec_sent(
                spec_request_packets(command, p1, p2, data, outdated_app),
                spec_packet_mins(data.len(), outdated_app),
                answers,
            ) && res == spec_write_outcome(answers, spec_packet_mins(data.len(), outdated_app))
    }

    /// `res` is an answer the transport gives when `data` is written to it.
    pub closed spec fn spec_write_answered(&self, data: Seq<u8>, res: Result<usize, RemoteWalletError>) -> bool {
        self.transport.spec_write_answer(data, res)
    }

    /// `res` is the answer to the request `(command, p1, p2, data)`: a
    /// failed write of its packets is passed on, and a reply comes only after
    /// all of them were written.
    pub open spec fn spec_request_answered<T>(
        &self,
        command: u8,
        p1: u8,
        p2: u8,
        data: Seq<u8>,
        outdated_app: bool,
        res: Result<T, RemoteWalletError>,
    ) -> bool {
        exists|w: Result<(), RemoteWalletError>|
            #[trigger] self.spec_request_written(command, p1, p2, data, outdated_app, w) && (w matches Err(
                e,
            ) ==> res == Err::<T, RemoteWalletError>(e)) && (res is Ok ==> w is Ok)
    }

    /// Writes the packets of a request to the transport, in order, stopping
    /// at the first failed or short write.
    fn write(&self, command: u8, p1: u8, p2: u8, data: &[u8], outdated_app: bool) -> (res:
        Result<(), RemoteWalletError>)
        ensures
            self.spec_request_written(command, p1, p2, data@, outdated_app, res),
    {
        let packets = request_packets(command, p1, p2, data, outdated_app);
        let ghost pk = packets@.map_values(|p: Vec<u8>| p@);
        let ghost len = data@.len();
        let ghost mins = spec_packet_mins(len, outdated_app);
        let ghost mut answers: Seq<Result<usize, RemoteWalletError>> = Seq::empty();
        let mut i: usize = 0;
        while i < packets.len()
            invariant
                i <= packets@.len(),
                answers.len() == i,
                len == data@.len(),
                pk == packets@.map_values(|p: Vec<u8>| p@),
                pk == spec_request_packets(command, p1, p2, data@, outdated_app),
                mins == spec_packet_mins(len, outdated_app),
                forall|j: int|
                    0 <= j < answers.len() ==> #[trigger] self.spec_write_answered(
                        pk[j],
                        answers[j],
                    ),
                forall|j: int|
                    0 < j <= answers.len() ==> #[trigger] spec_write_outcome(answers.take(j), mins)
                        is Ok,
            decreases packets.len() - i,
        {
            let answer = self.transport.write(packets[i].as_slice());
            assert(self.spec_write_answered(pk[i as int], answer));
            let ghost prev = answers;
            proof {
                answers = answers.push(answer);
                assert(answers.drop_last() =~= prev);
                assert(answers.take(i + 1) =~= answers);
                assert forall|j: int| 0 < j <= i implies #[trigger] answers.take(j) =~= prev.take(j) by {}
                if i > 0 {
                    assert(prev.take(i as int) =~= prev);
                }
                assert(spec_write_outcome(prev, mins) is Ok);
            }
            let n = match answer {
                Ok(n) => n,
                Err(e) => {
                    assert(self.spec_sent(pk, mins, answers));
                    assert(spec_write_outcome(answers, mins) == Err::<(), RemoteWalletError>(e));
                    return Err(e);
                },
            };
            proof {
                lemma_offsets(len, outdated_app, i as nat);
            }
            let head: usize = if i == 0 {
                if outdated_app {
                    13
                } else {
                    12
                }
            } else {
                5
            };
            let min = head + packet_offset(data.len(), outdated_app, i + 1) - packet_offset(
                data.len(),
                outdated_app,
                i,
            );
            assert(pk.len() == packets@.len());
            assert(mins.len() == pk.len());
            assert(mins[i as int] == spec_packet_min(len, outdated_app, i as nat));
            assert(min == mins[i as int]);
            match check_written(n, min) {
                Ok(()) => {},
                Err(e) => {
                    assert(self.spec_sent(pk, mins, answers));
                    assert(spec_write_outcome(answers, mins) == Err::<(), RemoteWalletError>(e));
                    return Err(e);
                },
            }
            if i + 1 >= 0xffff {
                assert(self.spec_sent(pk, mins, answers));
                assert(spec_write_outcome(answers, mins) == Err::<(), RemoteWalletError>(
                    RemoteWalletError::Protocol("Maximum sequence number reached"),
                ));
                return Err(RemoteWalletError::Protocol("Maximum sequence number reached"));
            }
            i = i + 1;
        }
        assert(self.spec_sent(pk, mins, answers));
        assert(answers.len() == 0 || spec_write_outcome(answers.take(answers.len() as int), mins) is Ok);
        assert(answers.len() > 0 ==> answers.take(answers.len() as int) =~= answers);
        assert(spec_write_outcome(answers, mins) == Ok::<(), RemoteWalletError>(()));
        Ok(())
    }

    /// Reads a reply from the transport, packet by packet.
    fn read(&self) -> (res: Result<Vec<u8>, RemoteWalletError>)
        ensures
            res matches Ok(r) ==> spec_is_reply(r@),
    {
        let mut assembler = ReplyAssembler::new();
        let ghost mut chunks: Seq<Seq<u8>> = Seq::empty();
        let mut chunk_index: usize = 0;
        while chunk_index <= 0xffff
            invariant
                assembler.has_taken(chunks),
                assembler.wf(),
                !assembler.spec_done(),
                chunk_index == chunks.len(),
                chunk_index <= 0x1_0000,
            decreases 0x1_0000 - chunk_index,
        {
            let mut buf: Vec<u8> = Vec::new();
            let mut k: usize = 0;
            while k < HID_PACKET_SIZE
                invariant
                    k <= HID_PACKET_SIZE,
                    buf@.len() == k,
                decreases HID_PACKET_SIZE - k,
            {
                buf.push(0);
                k = k + 1;
            }
            let chunk_size = self.transport.read(buf.as_mut_slice())?;
            let done = assembler.feed(buf.as_slice(), chunk_size)?;
            proof {
                let c = buf@.subrange(0, chunk_size as int);
                assert(chunks.push(c).drop_last() =~= chunks);
                chunks = chunks.push(c);
            }
            chunk_index = chunk_index + 1;
            if done {
                let r = assembler.finish();
                proof {
                    if r is Ok {
                        assert(spec_chunks_give_reply(chunks, r->Ok_0@));
                    }
                }
                return r;
            }
        }
        let r = assembler.finish();
        proof {
            if r is Ok {
                assert(spec_chunks_give_reply(chunks, r->Ok_0@));
            }
        }
        r
    }

    /// What a status word means.
    pub fn parse_status(status: usize) -> (res: Result<(), RemoteWalletError>)
        ensures
            res == spec_parse_status(status as nat),
    {
        if status == 0x9000 {
            Ok(())
        } else if status == 0x6d00 {
            Err(RemoteWalletError::Protocol("Invalid instruction"))
        } else if status == 0x6e00 {
            Err(RemoteWalletError::Protocol("Invalid class"))
        } else if status == 0x6f00 {
            Err(RemoteWalletError::Protocol("Invalid parameter"))
        } else if status == 0x6985 {
            Err(RemoteWalletError::UserCancel)
        } else {
            Err(RemoteWalletError::Protocol("Unknown status"))
        }
    }

    /// The transport the protocol runs over.
    pub fn transport(&self) -> &dyn Transport {
        &*self.transport
    }

    /// Whether `p2` marks the last part of a request.
    pub fn is_last_part(&self, p2: u8) -> (res: bool)
        ensures
            res == (p2 & P2_MORE == 0),
    {
        p2 & P2_MORE == 0
    }

    /// Reads the app configuration.
    pub fn get_app_configuration(&self, outdated_app: bool) -> (res: Result<
        Vec<u8>,
        RemoteWalletError,
    >)
        ensures
            self.spec_request_answered(
                if outdated_app {
                    DEPRECATED_GET_APP_CONFIGURATION
                } else {
                    GET_APP_CONFIGURATION
                },
                0,
                0,
                Seq::empty(),
                false,
                res,
            ),
            res matches Ok(r) ==> spec_is_reply(r@),
    {
        let command = if outdated_app {
            DEPRECATED_GET_APP_CONFIGURATION
        } else {
            GET_APP_CONFIGURATION
        };
        let empty: Vec<u8> = Vec::new();
        assert(empty@ =~= Seq::<u8>::empty());
        self.send_apdu(command, 0, 0, empty.as_slice())
    }

    /// Asks for the public key of a serialized derivation path.
    pub fn get_pubkey(&self, derivation_path: &[u8], confirm_key: bool, outdated_app: bool) -> (res:
        Result<Vec<u8>, RemoteWalletError>)
        ensures
            self.spec_request_answered(
                if outdated_app {
                    DEPRECATED_GET_PUBKEY
                } else {
                    GET_PUBKEY
                },
                if confirm_key {
                    P1_CONFIRM
                } else {
                    P1_NON_CONFIRM
                },
                0,
                derivation_path@,
                false,
                res,
            ),
            res matches Ok(r) ==> spec_is_reply(r@),
    {
        let command = if outdated_app {
            DEPRECATED_GET_PUBKEY
        } else {
            GET_PUBKEY
        };
        let p1 = if confirm_key {
            P1_CONFIRM
        } else {
            P1_NON_CONFIRM
        };
        self.send_apdu(command, p1, 0, derivation_path)
    }

    /// Asks the device to sign a payload, with the user's confirmation.
    pub fn sign_message(&self, payload: &[u8], outdated_app: bool) -> (res: Result<
        Vec<u8>,
        RemoteWalletError,
    >)
        ensures
            self.spec_request_answered(
                if outdated_app {
                    DEPRECATED_SIGN_MESSAGE
                } else {
                    SIGN_MESSAGE
                },
                P1_CONFIRM,
                0,
                payload@,
                false,
                res,
            ),
            res matches Ok(r) ==> spec_is_reply(r@),
    {
        let command = if outdated_app {
            DEPRECATED_SIGN_MESSAGE
        } else {
            SIGN_MESSAGE
        };
        self.send_apdu(command, P1_CONFIRM, 0, payload)
    }

    /// Asks the device to sign an off-chain message, with the user's confirmation.
    pub fn sign_offchain_message(&self, payload: &[u8]) -> (res: Result<Vec<u8>, RemoteWalletError>)
        ensures
            self.spec_request_answered(SIGN_OFFCHAIN_MESSAGE, P1_CONFIRM, 0, payload@, false, res),
            res matches Ok(r) ==> spec_is_reply(r@),
    {
        self.send_apdu(SIGN_OFFCHAIN_MESSAGE, P1_CONFIRM, 0, payload)
    }
}

impl Protocol for LedgerProtocol {
    /// Writes a raw command and returns what one read of at most 1024 bytes gives.
    fn send_command(&self, command: &[u8]) -> (res: Result<Vec<u8>, RemoteWalletError>)
        ensures
            exists|w: Result<usize, RemoteWalletError>|
                #[trigger] self.spec_write_answered(command@, w) && (w matches Err(e) ==> res
                    == Err::<Vec<u8>, RemoteWalletError>(e)) && (res is Ok ==> w is Ok),
            res matches Ok(r) ==> r@.len() <= 1024,
    {
        let w = self.transport.write(command);
        assert(self.spec_write_answered(command@, w));
        if let Err(e) = w {
            return Err(e);
        }
        let mut buf: Vec<u8> = Vec::new();
        let mut k: usize = 0;
        while k < 1024
            invariant
                k <= 1024,
                buf@.len() == k,
            decreases 1024 - k,
        {
            buf.push(0);
            k = k + 1;
        }
        let bytes_read = self.transport.read(buf.as_mut_slice())?;
        buf.truncate(bytes_read);
        Ok(buf)
    }
}


// ---------------------------------------------------------------------------
// Requests read back
// ---------------------------------------------------------------------------

/// Length of the APDU header after its two length bytes.
pub open spec fn spec_apdu_head_len(outdated_app: bool) -> nat {
    if outdated_app {
        6
    } else {
        5
    }
}

/// The APDU a request carries: class, instruction, parameters and data
/// length, then the data.
pub open spec fn spec_apdu(command: u8, p1: u8, p2: u8, data: Seq<u8>, outdated_app: bool) -> Seq<u8> {
    spec_apdu_header(command, p1, p2, data.len(), outdated_app).subrange(
        2,
        2 + spec_apdu_head_len(outdated_app) as int,
    ) + data
}

/// The packets of a request.
pub open spec fn spec_request_packets(command: u8, p1: u8, p2: u8, data: Seq<u8>, outdated_app: bool) -> Seq<
    Seq<u8>,
> {
    Seq::new(
        spec_packet_count(data.len(), outdated_app),
        |k: int| spec_request_packet(command, p1, p2, data, outdated_app, k as nat),
    )
}

/// Where in the APDU the bytes of the first `k` packets end.
pub open spec fn spec_apdu_end(len: nat, outdated_app: bool, k: nat) -> nat {
    if k == 0 {
        0
    } else {
        spec_apdu_head_len(outdated_app) + spec_packet_offset(len, outdated_app, k)
    }
}

proof fn lemma_count_offsets(len: nat, outdated_app: bool)
    requires
        len + 5 <= 0xffff,
    ensures
        spec_packet_count(len, outdated_app) >= 1,
        spec_packet_count(len, outdated_app) < 0x1_0000,
        spec_packet_offset(len, outdated_app, spec_packet_count(len, outdated_app)) == len,
        forall|k: nat|
            1 <= k < spec_packet_count(len, outdated_app) ==> #[trigger] spec_packet_offset(
                len,
                outdated_app,
                k,
            ) == spec_first_capacity(outdated_app) + 59 * (k - 1) && spec_packet_offset(
                len,
                outdated_app,
                k,
            ) < len,
{
    let c = spec_first_capacity(outdated_app);
    let n = spec_packet_count(len, outdated_app);
    if len > c {
        let q = (len - c + 58) / 59;
        assert(n == 1 + q);
        assert(c + 59 * (q - 1) < len && len <= c + 59 * q && q <= 0xffff) by (nonlinear_arith)
            requires
                q == (len - c + 58) / 59,
                len > c,
                len + 5 <= 0xffff,
        ;
        assert forall|k: nat| 1 <= k < n implies #[trigger] spec_packet_offset(len, outdated_app, k)
            == c + 59 * (k - 1) && spec_packet_offset(len, outdated_app, k) < len by {
            assert(c + 59 * (k - 1) <= c + 59 * (q - 1)) by (nonlinear_arith)
                requires
                    1 <= k <= q,
            ;
        }
    }
}

/// Packet `k` of a request: the transport header, the two length bytes in
/// the first packet, then the APDU bytes from `spec_apdu_end(k)` to
/// `spec_apdu_end(k + 1)` and zeros.
#[verifier::spinoff_prover]
#[verifier::rlimit(40)]
proof fn lemma_packet_layout(command: u8, p1: u8, p2: u8, data: Seq<u8>, outdated_app: bool, k: nat)
    requires
        data.len() + spec_apdu_head_len(outdated_app) <= 0xffff,
        k < spec_packet_count(data.len(), outdated_app),
    ensures
        ({
            let pk = spec_request_packet(command, p1, p2, data, outdated_app, k);
            let a = spec_apdu(command, p1, p2, data, outdated_app);
            let start: int = if k == 0 {
                7
            } else {
                5
            };
            let from = spec_apdu_end(data.len(), outdated_app, k);
            let to = spec_apdu_end(data.len(), outdated_app, k + 1);
            &&& pk.len() == 64
            &&& pk[0] == 1 && pk[1] == 1 && pk[2] == APDU_TAG
            &&& be16(pk[3], pk[4]) == k
            &&& k == 0 ==> be16(pk[5], pk[6]) == a.len()
            &&& from <= to <= a.len()
            &&& pk.subrange(start, 64) == a.subrange(from as int, to as int) + Seq::new(
                (64 - start - (to - from)) as nat,
                |i: int| 0u8,
            )
            &&& k + 1 < spec_packet_count(data.len(), outdated_app) ==> to - from == 64 - start
        }),
{
    let len = data.len();
    let n = spec_packet_count(len, outdated_app);
    lemma_count_offsets(len, outdated_app);
    lemma_offsets(len, outdated_app, k);
    let pk = spec_request_packet(command, p1, p2, data, outdated_app, k);
    let a = spec_apdu(command, p1, p2, data, outdated_app);
    let h = spec_apdu_header(command, p1, p2, len, outdated_app);
    let hl = spec_apdu_head_len(outdated_app);
    let o0 = spec_packet_offset(len, outdated_app, k);
    let o1 = spec_packet_offset(len, outdated_app, k + 1);
    let d = data.subrange(o0 as int, o1 as int);
    assert(spec_packet_data(data, outdated_app, k) == d);
    assert(k / 256 < 256) by (nonlinear_arith)
        requires
            k < 0x1_0000,
    ;
    assert(be16(((k / 256) % 256) as u8, (k % 256) as u8) == k) by (nonlinear_arith)
        requires
            k < 0x1_0000,
    ;
    if k + 1 < n {
        if k > 0 {
            assert(o1 == spec_first_capacity(outdated_app) + 59 * k);
            assert(o0 == spec_first_capacity(outdated_app) + 59 * (k - 1));
        } else {
            assert(o1 == spec_first_capacity(outdated_app));
        }
    }
    if k == 0 {
        let l = len + hl;
        assert(l <= 0xffff);
        assert(l / 256 < 256) by (nonlinear_arith)
            requires
                l <= 0xffff,
        ;
        assert(be16(((l / 256) % 256) as u8, (l % 256) as u8) == l) by (nonlinear_arith)
            requires
                l <= 0xffff,
        ;
        assert(pk.subrange(7, 64) =~= a.subrange(0, (hl + o1) as int) + Seq::new(
            (64 - 7 - (hl + o1)) as nat,
            |i: int| 0u8,
        ));
    } else {
        assert(pk.subrange(5, 64) =~= a.subrange((hl + o0) as int, (hl + o1) as int) + Seq::new(
            (64 - 5 - (o1 - o0)) as nat,
            |i: int| 0u8,
        ));
    }
}

/// The bytes of the first `k` packets of a request fill the APDU up to
/// `spec_apdu_end(k)`; the message is complete with the last packet.
#[verifier::spinoff_prover]
#[verifier::rlimit(40)]
proof fn lemma_read_prefix(command: u8, p1: u8, p2: u8, data: Seq<u8>, outdated_app: bool, k: nat)
    requires
        data.len() + spec_apdu_head_len(outdated_app) <= 0xffff,
        1 <= k <= spec_packet_count(data.len(), outdated_app),
    ensures
        spec_reply_chunks(spec_request_packets(command, p1, p2, data, outdated_app).subrange(0, k as int))
            == Ok::<(Seq<u8>, nat, bool), RemoteWalletError>(
            (
                spec_apdu(command, p1, p2, data, outdated_app).subrange(
                    0,
                    spec_apdu_end(data.len(), outdated_app, k) as int,
                ),
                spec_apdu(command, p1, p2, data, outdated_app).len(),
                k == spec_packet_count(data.len(), outdated_app),
            ),
        ),
    decreases k,
{
    let len = data.len();
    let n = spec_packet_count(len, outdated_app);
    let all = spec_request_packets(command, p1, p2, data, outdated_app);
    let a = spec_apdu(command, p1, p2, data, outdated_app);
    let l = a.len();
    let q = all.subrange(0, k as int);
    let j = (k - 1) as nat;
    lemma_count_offsets(len, outdated_app);
    lemma_packet_layout(command, p1, p2, data, outdated_app, j);
    let pk = all[j as int];
    let start: int = if j == 0 {
        7
    } else {
        5
    };
    let from = spec_apdu_end(len, outdated_app, j);
    let to = spec_apdu_end(len, outdated_app, k);
    assert(q.drop_last() =~= all.subrange(0, j as int));
    assert(q.last() == pk);
    assert(to == l <==> k == n) by {
        if k < n {
            assert(spec_packet_offset(len, outdated_app, k) < len);
        }
    }
    let prev = a.subrange(0, from as int);
    if j > 0 {
        lemma_read_prefix(command, p1, p2, data, outdated_app, j);
    } else {
        assert(all.subrange(0, 0) =~= Seq::<Seq<u8>>::empty());
        assert(prev =~= Seq::<u8>::empty());
    }
    let z = Seq::new((64 - start - (to - from)) as nat, |i: int| 0u8);
    let m = prev + pk.subrange(start, pk.len() as int);
    assert(m =~= a.subrange(0, to as int) + z);
    if m.len() > l {
        assert(m.subrange(0, l as int) =~= a.subrange(0, to as int));
    } else {
        assert(z.len() == 0);
        assert(m =~= a.subrange(0, to as int));
    }
}

/// Read back with the reply framing, the packets of a request give the APDU
/// they carry, complete with the last packet (for requests whose APDU length
/// fits its two length bytes).
pub proof fn lemma_request_reads_back(command: u8, p1: u8, p2: u8, data: Seq<u8>, outdated_app: bool)
    requires
        data.len() + spec_apdu_head_len(outdated_app) <= 0xffff,
    ensures
        spec_reply_chunks(spec_request_packets(command, p1, p2, data, outdated_app)) == Ok::<
            (Seq<u8>, nat, bool),
            RemoteWalletError,
        >(
            (
                spec_apdu(command, p1, p2, data, outdated_app),
                spec_apdu(command, p1, p2, data, outdated_app).len(),
                true,
            ),
        ),
{
    let n = spec_packet_count(data.len(), outdated_app);
    lemma_count_offsets(data.len(), outdated_app);
    lemma_read_prefix(command, p1, p2, data, outdated_app, n);
    let all = spec_request_packets(command, p1, p2, data, outdated_app);
    assert(all.subrange(0, n as int) =~= all);
    let a = spec_apdu(command, p1, p2, data, outdated_app);
    assert(a.subrange(0, a.len() as int) =~= a);
}

} // verus!
