//! A Ledger wallet over the Ledger APDU protocol.
use crate::api::hardware_wallet::{HardwareWallet, RemoteWalletInfo};
use crate::errors::RemoteWalletError;
use crate::keys::{ChildIndex, DerivationPath, Pubkey, Signature};
use crate::locator::Manufacturer;
use crate::protocol::ledger_protocol::{
    spec_is_reply, LedgerProtocol, DEPRECATED_GET_PUBKEY, DEPRECATED_SIGN_MESSAGE, GET_PUBKEY, P1_CONFIRM,
    P1_NON_CONFIRM, SIGN_MESSAGE, SIGN_OFFCHAIN_MESSAGE,
};
use crate::transport::common::Transport;
use crate::wallet::keystone::keystone::{
    extend_and_serialize, extend_and_serialize_multiple, path_views, spec_deprecate_version_before,
    spec_extend_and_serialize, spec_serialize_paths, spec_version_less, version_precedes,
    FirmwareVersion,
};
use std::rc::Rc;
use vstd::prelude::*;

verus! {

/// `solana_sdk::offchain_message::v0::OffchainMessage::MAX_LEN_LEDGER`, the
/// longest off-chain message a Ledger signs: 1212 bytes.
#[verifier::external_body]
fn offchain_max_len_ledger() -> (res: usize)
    ensures
        res == 1212,
{
    solana_sdk::offchain_message::v0::OffchainMessage::MAX_LEN_LEDGER
}

/// `solana_sdk::offchain_message::v0::OffchainMessage::HEADER_LEN`, the
/// header length of a version 0 off-chain message: 3 bytes.
#[verifier::external_body]
fn offchain_header_len() -> (res: usize)
    ensures
        res == 3,
{
    solana_sdk::offchain_message::v0::OffchainMessage::HEADER_LEN
}

/// The payload of a signing request: the serialized path (alone for apps
/// before 0.2.0, as a list of one path otherwise), then for old apps the
/// data length in two big-endian bytes, then the data.
pub open spec fn spec_sign_payload(path: Seq<ChildIndex>, data: Seq<u8>, outdated_app: bool) -> Seq<
    u8,
> {
    if outdated_app {
        spec_extend_and_serialize(path) + seq![(data.len() / 256) as u8, (data.len() % 256) as u8]
            + data
    } else {
        seq![1u8] + spec_serialize_paths(seq![path]) + data
    }
}

/// The payload of an off-chain signing request: the path as a list of one
/// path, then the message.
pub open spec fn spec_offchain_payload(path: Seq<ChildIndex>, message: Seq<u8>) -> Seq<u8> {
    seq![1u8] + spec_serialize_paths(seq![path]) + message
}

/// A Ledger wallet.
pub struct LedgerWallet {
    protocol: Rc<LedgerProtocol>,
    pretty_path: String,
    version: FirmwareVersion,
}

impl LedgerWallet {
    pub closed spec fn spec_pretty_path(&self) -> Seq<char> {
        self.pretty_path@
    }

    pub closed spec fn spec_version(&self) -> FirmwareVersion {
        self.version
    }

    /// The protocol the wallet talks to its device with.
    pub closed spec fn spec_protocol(&self) -> LedgerProtocol {
        *self.protocol
    }

    /// Whether the device's app predates version 0.2.0.
    pub open spec fn spec_outdated(&self) -> bool {
        spec_version_less(self.spec_version(), spec_deprecate_version_before())
    }

    /// A wallet over an existing transport; its version is not known yet.
    pub fn from_transport(transport: Box<dyn Transport>, pretty_path: String) -> (res: Self)
        ensures
            res.spec_pretty_path() == pretty_path@,
            res.spec_version() == (FirmwareVersion { major: 0, minor: 0, patch: 0 }),
    {
        let protocol = Rc::new(LedgerProtocol::new(transport));
        LedgerWallet {
            protocol,
            pretty_path,
            version: FirmwareVersion { major: 0, minor: 0, patch: 0 },
        }
    }

    /// The firmware version known for the device.
    pub fn get_firmware_version(&self) -> (res: Result<FirmwareVersion, RemoteWalletError>)
        ensures
            res == Ok::<FirmwareVersion, RemoteWalletError>(self.spec_version()),
    {
        Ok(self.version)
    }

    /// Whether the device's app predates version 0.2.0.
    fn outdated_app(&self) -> (res: bool)
        ensures
            res == spec_version_less(self.spec_version(), spec_deprecate_version_before()),
    {
        let before = FirmwareVersion { major: 0, minor: 2, patch: 0 };
        version_precedes(&self.version, &before)
    }

    /// A derivation path as the device reads it.
    fn extend_and_serialize(derivation_path: &DerivationPath) -> (res: Vec<u8>)
        ensures
            res@ == spec_extend_and_serialize(derivation_path.path@),
    {
        extend_and_serialize(derivation_path)
    }

    /// Several derivation paths as the device reads them.
    fn extend_and_serialize_multiple(derivation_paths: &[&DerivationPath]) -> (res: Vec<u8>)
        ensures
            res@ == seq![(derivation_paths@.len() % 256) as u8] + spec_serialize_paths(
                path_views(derivation_paths@),
            ),
    {
        extend_and_serialize_multiple(derivation_paths)
    }

    /// The payload of a signing request for data of at most 65535 bytes.
    pub fn sign_payload(derivation_path: &DerivationPath, data: &[u8], outdated_app: bool) -> (res:
        Vec<u8>)
        requires
            data@.len() <= 0xffff,
        ensures
            res@ == spec_sign_payload(derivation_path.path@, data@, outdated_app),
    {
        let mut payload = if outdated_app {
            Self::extend_and_serialize(derivation_path)
        } else {
            let paths: [&DerivationPath; 1] = [derivation_path];
            let p = Self::extend_and_serialize_multiple(&paths);
            assert(path_views(paths@) =~= seq![derivation_path.path@]);
            p
        };
        if outdated_app {
            let n = data.len();
            payload.push((n / 256) as u8);
            payload.push((n % 256) as u8);
        }
        let ghost before = payload@;
        let mut i: usize = 0;
        while i < data.len()
            invariant
                i <= data@.len(),
                payload@ == before + data@.subrange(0, i as int),
            decreases data.len() - i,
        {
            payload.push(data[i]);
            i = i + 1;
            assert(payload@ =~= before + data@.subrange(0, i as int));
        }
        assert(data@.subrange(0, data@.len() as int) =~= data@);
        assert(payload@ =~= spec_sign_payload(derivation_path.path@, data@, outdated_app));
        payload
    }

    /// The payload of an off-chain signing request.
    pub fn offchain_payload(derivation_path: &DerivationPath, message: &[u8]) -> (res: Vec<u8>)
        ensures
            res@ == spec_offchain_payload(derivation_path.path@, message@),
    {
        let paths: [&DerivationPath; 1] = [derivation_path];
        let mut payload = Self::extend_and_serialize_multiple(&paths);
        assert(path_views(paths@) =~= seq![derivation_path.path@]);
        let ghost before = payload@;
        let mut i: usize = 0;
        while i < message.len()
            invariant
                i <= message@.len(),
                payload@ == before + message@.subrange(0, i as int),
            decreases message.len() - i,
        {
            payload.push(message[i]);
            i = i + 1;
            assert(payload@ =~= before + message@.subrange(0, i as int));
        }
        assert(message@.subrange(0, message@.len() as int) =~= message@);
        payload
    }
}

/// A signature from exactly 64 reply bytes.
fn signature_of(reply: &Vec<u8>) -> (res: Result<Signature, RemoteWalletError>)
    ensures
        reply@.len() == 64 ==> (res matches Ok(s) && s.bytes@ == reply@),
        reply@.len() != 64 ==> res == Err::<Signature, RemoteWalletError>(
            RemoteWalletError::Protocol("Signature packet size mismatch"),
        ),
{
    match Signature::try_from_bytes(reply) {
        Some(s) => Ok(s),
        None => Err(RemoteWalletError::Protocol("Signature packet size mismatch")),
    }
}

impl HardwareWallet for LedgerWallet {
    fn name(&self) -> (res: &str)
        ensures
            res@ == "Ledger hardware wallet"@,
    {
        "Ledger hardware wallet"
    }

    /// The information of a Ledger device: model `ledger`, the wallet's path.
    fn read_device(&mut self) -> (res: Result<RemoteWalletInfo, RemoteWalletError>)
        ensures
            res matches Ok(info) && info.model@ == "ledger"@ && info.manufacturer
                == Manufacturer::Ledger && info.serial@ == Seq::<char>::empty()
                && info.host_device_path@ == old(self).spec_pretty_path() && info.pubkey.is_default()
                && info.error is None,
            final(self).spec_pretty_path() == old(self).spec_pretty_path(),
            final(self).spec_version() == old(self).spec_version(),
    {
        Ok(RemoteWalletInfo {
            model: String::from_str("ledger"),
            manufacturer: Manufacturer::Ledger,
            serial: String::new(),
            host_device_path: self.pretty_path.clone(),
            pubkey: Pubkey::default_key(),
            error: None,
        })
    }

    /// The key the device derives for a path: a 32-byte reply.
    fn get_pubkey(&self, derivation_path: &DerivationPath, confirm_key: bool) -> (res: Result<
        Pubkey,
        RemoteWalletError,
    >)
        ensures
            self.spec_protocol().spec_request_answered(
                if self.spec_outdated() {
                    DEPRECATED_GET_PUBKEY
                } else {
                    GET_PUBKEY
                },
                if confirm_key {
                    P1_CONFIRM
                } else {
                    P1_NON_CONFIRM
                },
                0,
                spec_extend_and_serialize(derivation_path.path@),
                false,
                res,
            ),
            res matches Ok(k) ==> spec_is_reply(k.bytes@),
    {
        let derivation_data = Self::extend_and_serialize(derivation_path);
        let outdated_app = self.outdated_app();
        let key_data = self.protocol.get_pubkey(derivation_data.as_slice(), confirm_key, outdated_app)?;
        match Pubkey::try_from_bytes(&key_data) {
            Some(k) => Ok(k),
            None => Err(RemoteWalletError::Protocol("Key packet size mismatch")),
        }
    }

    /// Signs data; data starting with 0xff is an off-chain message.
    fn sign_message(&self, derivation_path: &DerivationPath, data: &[u8]) -> (res: Result<
        Signature,
        RemoteWalletError,
    >)
        ensures
            (data@.len() == 0 || data@[0] != 0xff) && data@.len() > 0xffff ==> (res matches Err(
                RemoteWalletError::InvalidInput(m),
            ) && m@ == "Message to sign is too long"@),
            (data@.len() == 0 || data@[0] != 0xff) && data@.len() <= 0xffff
                ==> self.spec_protocol().spec_request_answered(
                if self.spec_outdated() {
                    DEPRECATED_SIGN_MESSAGE
                } else {
                    SIGN_MESSAGE
                },
                P1_CONFIRM,
                0,
                spec_sign_payload(derivation_path.path@, data@, self.spec_outdated()),
                false,
                res,
            ),
            res matches Ok(s) ==> spec_is_reply(s.bytes@),
    {
        if data.len() > 0 && data[0] == 0xff {
            return self.sign_offchain_message(derivation_path, data);
        }
        let outdated_app = self.outdated_app();
        if data.len() > 0xffff {
            return Err(
                RemoteWalletError::InvalidInput(String::from_str("Message to sign is too long")),
            );
        }
        let payload = Self::sign_payload(derivation_path, data, outdated_app);
        let result = self.protocol.sign_message(payload.as_slice(), outdated_app)?;
        signature_of(&result)
    }

    /// Signs an off-chain message of at most 1215 bytes.
    fn sign_offchain_message(&self, derivation_path: &DerivationPath, message: &[u8]) -> (res:
        Result<Signature, RemoteWalletError>)
        ensures
            message@.len() > 1215 ==> (res matches Err(RemoteWalletError::InvalidInput(m)) && m@
                == "Off-chain message to sign is too long"@),
            message@.len() <= 1215 ==> self.spec_protocol().spec_request_answered(
                SIGN_OFFCHAIN_MESSAGE,
                P1_CONFIRM,
                0,
                spec_offchain_payload(derivation_path.path@, message@),
                false,
                res,
            ),
            res matches Ok(s) ==> spec_is_reply(s.bytes@),
    {
        let limit = offchain_max_len_ledger() + offchain_header_len();
        if message.len() > limit {
            return Err(
                RemoteWalletError::InvalidInput(
                    String::from_str("Off-chain message to sign is too long"),
                ),
            );
        }
        let payload = Self::offchain_payload(derivation_path, message);
        let result = self.protocol.sign_offchain_message(payload.as_slice())?;
        signature_of(&result)
    }
}

} // verus!
