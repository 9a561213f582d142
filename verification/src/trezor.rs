//! Trezor hardware wallet: device identification and the wallet interface;
//! device communication is not implemented, so key and signing requests fail.
use crate::errors::RemoteWalletError;
use crate::hardware_wallet::{HardwareWallet, HardwareWalletSettings, PubkeyDisplayMode};
use crate::keys::{DerivationPath, Pubkey, Signature};
use crate::locator::Manufacturer;
use crate::remote_wallet::RemoteWalletInfo;
use vstd::prelude::*;

verus! {

/// Trezor vendor id.
pub const TREZOR_VID: u16 = 0x1209;

/// Trezor product ids.
pub const TREZOR_PIDS: [u16; 3] = [0x53c0, 0x53c1, 0x53c2];

/// Trezor hardware wallet implementation
pub struct TrezorWallet {
    device_path: String,
    model: String,
    serial: String,
    firmware_version: String,
    settings: HardwareWalletSettings,
}

impl TrezorWallet {
    pub closed spec fn spec_device_path(&self) -> Seq<char> {
        self.device_path@
    }

    pub closed spec fn spec_model(&self) -> Seq<char> {
        self.model@
    }

    pub closed spec fn spec_serial(&self) -> Seq<char> {
        self.serial@
    }

    pub closed spec fn spec_firmware_version(&self) -> Seq<char> {
        self.firmware_version@
    }

    pub closed spec fn spec_settings(&self) -> HardwareWalletSettings {
        self.settings
    }

    /// A Trezor Model T at `device_path`, firmware 2.6.0, blind signing on,
    /// long key display, locking after ten minutes.
    pub fn new(device_path: String) -> (res: Result<Self, RemoteWalletError>)
        ensures
            res matches Ok(w) && w.spec_device_path() == device_path@ && w.spec_model()
                == "Trezor Model T"@ && w.spec_serial() == "unknown"@ && w.spec_firmware_version()
                == "2.6.0"@ && w.spec_settings() == (HardwareWalletSettings {
                enable_blind_signing: true,
                pubkey_display_mode: PubkeyDisplayMode::Long,
                auto_lock_delay: Some(600u32),
            }),
    {
        Ok(
            TrezorWallet {
                device_path,
                model: String::from_str("Trezor Model T"),
                serial: String::from_str("unknown"),
                firmware_version: String::from_str("2.6.0"),
                settings: HardwareWalletSettings {
                    enable_blind_signing: true,
                    pubkey_display_mode: PubkeyDisplayMode::Long,
                    auto_lock_delay: Some(600),
                },
            },
        )
    }

    /// Message type of a public key request.
    pub const MESSAGE_TYPE_GET_PUBKEY: u16 = 0x1001;

    /// Message type of a signing request.
    pub const MESSAGE_TYPE_SIGN_MESSAGE: u16 = 0x1002;

    /// Message type of a device information request.
    pub const MESSAGE_TYPE_GET_DEVICE_INFO: u16 = 0x1003;
}

impl HardwareWallet for TrezorWallet {
    fn name(&self) -> (res: &str)
        ensures
            res@ == "Trezor hardware wallet"@,
    {
        "Trezor hardware wallet"
    }

    fn manufacturer(&self) -> (res: &str)
        ensures
            res@ == "trezor"@,
    {
        "trezor"
    }

    fn model(&self) -> (res: &str)
        ensures
            res@ == self.spec_model(),
    {
        self.model.as_str()
    }

    fn serial(&self) -> (res: &str)
        ensures
            res@ == self.spec_serial(),
    {
        self.serial.as_str()
    }

    fn device_path(&self) -> (res: &str)
        ensures
            res@ == self.spec_device_path(),
    {
        self.device_path.as_str()
    }

    fn firmware_version(&self) -> (res: Result<String, RemoteWalletError>)
        ensures
            res matches Ok(v) && v@ == self.spec_firmware_version(),
    {
        Ok(self.firmware_version.clone())
    }

    fn get_pubkey(&self, derivation_path: &DerivationPath, confirm_key: bool) -> (res: Result<
        Pubkey,
        RemoteWalletError,
    >)
        ensures
            res == Err::<Pubkey, RemoteWalletError>(
                RemoteWalletError::Protocol("Trezor get_pubkey not implemented"),
            ),
    {
        Err(RemoteWalletError::Protocol("Trezor get_pubkey not implemented"))
    }

    fn sign_message(&self, derivation_path: &DerivationPath, data: &[u8]) -> (res: Result<
        Signature,
        RemoteWalletError,
    >)
        ensures
            res == Err::<Signature, RemoteWalletError>(
                RemoteWalletError::Protocol("Trezor sign_message not implemented"),
            ),
    {
        Err(RemoteWalletError::Protocol("Trezor sign_message not implemented"))
    }

    fn sign_offchain_message(&self, derivation_path: &DerivationPath, message: &[u8]) -> (res:
        Result<Signature, RemoteWalletError>)
        ensures
            res == Err::<Signature, RemoteWalletError>(
                RemoteWalletError::Protocol("Trezor off-chain signing not supported"),
            ),
    {
        Err(RemoteWalletError::Protocol("Trezor off-chain signing not supported"))
    }

    fn get_device_info(&self) -> (res: Result<RemoteWalletInfo, RemoteWalletError>)
        ensures
            res matches Ok(info) && info.model@ == self.spec_model() && info.manufacturer
                == Manufacturer::Trezor && info.serial@ == self.spec_serial()
                && info.host_device_path@ == self.spec_device_path() && info.pubkey.is_default()
                && info.error is None,
    {
        Ok(
            RemoteWalletInfo {
                model: self.model.clone(),
                manufacturer: Manufacturer::Trezor,
                serial: self.serial.clone(),
                host_device_path: self.device_path.clone(),
                pubkey: Pubkey::default_key(),
                error: None,
            },
        )
    }

    fn is_connected(&self) -> (res: bool)
        ensures
            res,
    {
        true
    }
}

/// A device with the Trezor vendor id and one of its product ids.
pub open spec fn spec_is_valid_trezor(vendor_id: u16, product_id: u16) -> bool {
    vendor_id == 0x1209 && (product_id == 0x53c0 || product_id == 0x53c1 || product_id == 0x53c2)
}

/// Whether the detected device is a Trezor device.
pub fn is_valid_trezor(vendor_id: u16, product_id: u16) -> (res: bool)
    ensures
        res == spec_is_valid_trezor(vendor_id, product_id),
{
    if vendor_id != TREZOR_VID {
        return false;
    }
    let pids = TREZOR_PIDS;
    assert(pids@ =~= seq![0x53c0u16, 0x53c1u16, 0x53c2u16]);
    let mut i: usize = 0;
    while i < 3
        invariant
            vendor_id == TREZOR_VID,
            i <= 3,
            pids@ == seq![0x53c0u16, 0x53c1u16, 0x53c2u16],
            forall|j: int| 0 <= j < i ==> pids@[j] != product_id,
        decreases 3 - i,
    {
        if pids[i] == product_id {
            return true;
        }
        i = i + 1;
    }
    false
}

} // verus!
