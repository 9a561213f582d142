//! The interface common to all hardware wallets, their settings and errors.
use crate::errors::RemoteWalletError;
use crate::keys::{DerivationPath, Pubkey, Signature};
use crate::remote_wallet::RemoteWalletInfo;
use vstd::prelude::*;

verus! {

/// Common trait for all hardware wallets
pub trait HardwareWallet {
    /// The name of the hardware wallet
    fn name(&self) -> &str;

    /// The manufacturer of the hardware wallet
    fn manufacturer(&self) -> &str;

    /// The model of the hardware wallet
    fn model(&self) -> &str;

    /// The serial number of the hardware wallet
    fn serial(&self) -> &str;

    /// The device path
    fn device_path(&self) -> &str;

    /// The firmware version
    fn firmware_version(&self) -> Result<String, RemoteWalletError>;

    /// The public key for a derivation path
    fn get_pubkey(&self, derivation_path: &DerivationPath, confirm_key: bool) -> Result<
        Pubkey,
        RemoteWalletError,
    >;

    /// Signs a message with the key of a derivation path
    fn sign_message(&self, derivation_path: &DerivationPath, data: &[u8]) -> Result<
        Signature,
        RemoteWalletError,
    >;

    /// Signs an off-chain message with the key of a derivation path
    fn sign_offchain_message(&self, derivation_path: &DerivationPath, message: &[u8]) -> Result<
        Signature,
        RemoteWalletError,
    >;

    /// Device information
    fn get_device_info(&self) -> Result<RemoteWalletInfo, RemoteWalletError>;

    /// Whether the device is connected and responsive
    fn is_connected(&self) -> bool;
}

/// Common settings that can be configured on hardware wallets
#[derive(Debug, Clone, PartialEq, Eq)]
pub struct HardwareWalletSettings {
    pub enable_blind_signing: bool,
    pub pubkey_display_mode: PubkeyDisplayMode,
    /// in seconds
    pub auto_lock_delay: Option<u32>,
}

#[derive(Debug, Clone, Copy, PartialEq, Eq, Structural)]
pub enum PubkeyDisplayMode {
    Short,
    Long,
    Full,
}

/// Common error types for hardware wallet operations
#[derive(Debug, Clone, PartialEq, Eq)]
pub enum HardwareWalletError {
    DeviceNotConnected,
    DeviceLocked,
    UserCancelled,
    InvalidDerivationPath,
    MessageTooLong,
    UnsupportedOperation,
    Protocol(String),
    Communication(String),
}

impl HardwareWalletError {
    /// The error's display text.
    pub open spec fn spec_message(self) -> Seq<char> {
        match self {
            HardwareWalletError::DeviceNotConnected => "device not connected"@,
            HardwareWalletError::DeviceLocked => "device locked"@,
            HardwareWalletError::UserCancelled => "user cancelled operation"@,
            HardwareWalletError::InvalidDerivationPath => "invalid derivation path"@,
            HardwareWalletError::MessageTooLong => "message too long"@,
            HardwareWalletError::UnsupportedOperation => "unsupported operation"@,
            HardwareWalletError::Protocol(s) => "protocol error: "@ + s@,
            HardwareWalletError::Communication(s) => "communication error: "@ + s@,
        }
    }

    pub fn message(&self) -> (res: String)
        ensures
            res@ == self.spec_message(),
    {
        match self {
            HardwareWalletError::DeviceNotConnected => String::from_str("device not connected"),
            HardwareWalletError::DeviceLocked => String::from_str("device locked"),
            HardwareWalletError::UserCancelled => String::from_str("user cancelled operation"),
            HardwareWalletError::InvalidDerivationPath => String::from_str(
                "invalid derivation path",
            ),
            HardwareWalletError::MessageTooLong => String::from_str("message too long"),
            HardwareWalletError::UnsupportedOperation => String::from_str("unsupported operation"),
            HardwareWalletError::Protocol(s) => {
                let mut m = String::from_str("protocol error: ");
                m.append(s.as_str());
                m
            },
            HardwareWalletError::Communication(s) => {
                let mut m = String::from_str("communication error: ");
                m.append(s.as_str());
                m
            },
        }
    }
}

/// The display texts of hardware wallet errors: a fixed text for each plain
/// error and the given text after a fixed prefix for protocol and
/// communication errors.
pub proof fn lemma_hardware_wallet_error_texts(s: String)
    ensures
        HardwareWalletError::DeviceNotConnected.spec_message() == "device not connected"@,
        HardwareWalletError::DeviceLocked.spec_message() == "device locked"@,
        HardwareWalletError::UserCancelled.spec_message() == "user cancelled operation"@,
        HardwareWalletError::InvalidDerivationPath.spec_message() == "invalid derivation path"@,
        HardwareWalletError::MessageTooLong.spec_message() == "message too long"@,
        HardwareWalletError::UnsupportedOperation.spec_message() == "unsupported operation"@,
        HardwareWalletError::Protocol(s).spec_message() == "protocol error: "@ + s@,
        HardwareWalletError::Communication(s).spec_message() == "communication error: "@ + s@,
{
}

} // verus!
