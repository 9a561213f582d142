//! The error type of remote wallet operations and its mapping onto signer
//! errors.
use crate::keys::DerivationPathError;
use crate::wallet::keystone::error::KeystoneError;
use vstd::prelude::*;

verus! {

/// Remote wallet error.
#[derive(Debug, Clone, PartialEq, Eq)]
pub enum RemoteWalletError {
    Hid(String),
    DeviceTypeMismatch,
    InvalidDevice,
    DerivationPathError(DerivationPathError),
    InvalidInput(String),
    InvalidPath(String),
    KeystoneError(KeystoneError),
    NoDeviceFound,
    Protocol(&'static str),
    PubkeyNotFound,
    UserCancel,
}

impl RemoteWalletError {
    /// A copy of the error.
    pub fn duplicate(&self) -> (res: Self)
        ensures
            res == *self,
    {
        match self {
            RemoteWalletError::Hid(s) => RemoteWalletError::Hid(s.clone()),
            RemoteWalletError::DeviceTypeMismatch => RemoteWalletError::DeviceTypeMismatch,
            RemoteWalletError::InvalidDevice => RemoteWalletError::InvalidDevice,
            RemoteWalletError::DerivationPathError(e) => RemoteWalletError::DerivationPathError(
                e.duplicate(),
            ),
            RemoteWalletError::InvalidInput(s) => RemoteWalletError::InvalidInput(s.clone()),
            RemoteWalletError::InvalidPath(s) => RemoteWalletError::InvalidPath(s.clone()),
            RemoteWalletError::KeystoneError(e) => RemoteWalletError::KeystoneError(e.duplicate()),
            RemoteWalletError::NoDeviceFound => RemoteWalletError::NoDeviceFound,
            RemoteWalletError::Protocol(s) => RemoteWalletError::Protocol(s),
            RemoteWalletError::PubkeyNotFound => RemoteWalletError::PubkeyNotFound,
            RemoteWalletError::UserCancel => RemoteWalletError::UserCancel,
        }
    }

    /// The error's display text.
    pub open spec fn spec_message(self) -> Seq<char> {
        match self {
            RemoteWalletError::Hid(_) => "hidapi error"@,
            RemoteWalletError::DeviceTypeMismatch => "device type mismatch"@,
            RemoteWalletError::InvalidDevice => "device with non-supported product ID or vendor ID was detected"@,
            RemoteWalletError::DerivationPathError(e) => e.spec_message(),
            RemoteWalletError::InvalidInput(s) => "invalid input: "@ + s@,
            RemoteWalletError::InvalidPath(s) => "invalid path: "@ + s@,
            RemoteWalletError::KeystoneError(e) => e.spec_message(),
            RemoteWalletError::NoDeviceFound => "no device found"@,
            RemoteWalletError::Protocol(s) => "protocol error: "@ + s@,
            RemoteWalletError::PubkeyNotFound => "pubkey not found for given address"@,
            RemoteWalletError::UserCancel => "remote wallet operation rejected by the user"@,
        }
    }

    pub fn message(&self) -> (res: String)
        ensures
            res@ == self.spec_message(),
    {
        match self {
            RemoteWalletError::Hid(_) => String::from_str("hidapi error"),
            RemoteWalletError::DeviceTypeMismatch => String::from_str("device type mismatch"),
            RemoteWalletError::InvalidDevice => String::from_str(
                "device with non-supported product ID or vendor ID was detected",
            ),
            RemoteWalletError::DerivationPathError(e) => e.message(),
            RemoteWalletError::InvalidInput(s) => {
                let mut m = String::from_str("invalid input: ");
                m.append(s.as_str());
                m
            },
            RemoteWalletError::InvalidPath(s) => {
                let mut m = String::from_str("invalid path: ");
                m.append(s.as_str());
                m
            },
            RemoteWalletError::KeystoneError(e) => e.message(),
            RemoteWalletError::NoDeviceFound => String::from_str("no device found"),
            RemoteWalletError::Protocol(s) => {
                let mut m = String::from_str("protocol error: ");
                m.append(s);
                m
            },
            RemoteWalletError::PubkeyNotFound => String::from_str(
                "pubkey not found for given address",
            ),
            RemoteWalletError::UserCancel => String::from_str(
                "remote wallet operation rejected by the user",
            ),
        }
    }

    /// Whether `e` is the signer error this error becomes: the variant and its text.
    pub open spec fn spec_becomes_signer_error(self, e: SignerError) -> bool {
        match self {
            RemoteWalletError::Hid(s) => e matches SignerError::Connection(t) && t@ == s@,
            RemoteWalletError::DeviceTypeMismatch => e matches SignerError::Connection(t) && t@
                == self.spec_message(),
            RemoteWalletError::InvalidDevice => e matches SignerError::Connection(t) && t@
                == self.spec_message(),
            RemoteWalletError::InvalidInput(s) => e matches SignerError::InvalidInput(t) && t@
                == s@,
            RemoteWalletError::KeystoneError(k) => e matches SignerError::Protocol(t) && t@
                == k.spec_message(),
            RemoteWalletError::NoDeviceFound => e is NoDeviceFound,
            RemoteWalletError::Protocol(s) => e matches SignerError::Protocol(t) && t@ == s@,
            RemoteWalletError::UserCancel => e matches SignerError::UserCancel(t) && t@
                == "remote wallet operation rejected by the user"@,
            _ => e matches SignerError::Custom(t) && t@ == self.spec_message(),
        }
    }

    pub fn to_signer_error(&self) -> (res: SignerError)
        ensures
            self.spec_becomes_signer_error(res),
    {
        match self {
            RemoteWalletError::Hid(s) => SignerError::Connection(s.clone()),
            RemoteWalletError::DeviceTypeMismatch => SignerError::Connection(self.message()),
            RemoteWalletError::InvalidDevice => SignerError::Connection(self.message()),
            RemoteWalletError::InvalidInput(s) => SignerError::InvalidInput(s.clone()),
            RemoteWalletError::KeystoneError(k) => SignerError::Protocol(k.message()),
            RemoteWalletError::NoDeviceFound => SignerError::NoDeviceFound,
            RemoteWalletError::Protocol(s) => SignerError::Protocol(String::from_str(s)),
            RemoteWalletError::UserCancel => SignerError::UserCancel(
                String::from_str("remote wallet operation rejected by the user"),
            ),
            _ => SignerError::Custom(self.message()),
        }
    }
}

/// A signer error (the variants of `solana_sdk::signature::SignerError` that
/// remote wallet errors map to).
#[derive(Debug, Clone, PartialEq, Eq)]
pub enum SignerError {
    Connection(String),
    InvalidInput(String),
    Protocol(String),
    NoDeviceFound,
    UserCancel(String),
    Custom(String),
}

/// The display texts of remote wallet errors: a fixed text for each plain
/// error, the given text after a fixed prefix for input, path and protocol
/// errors, and the inner error's own text for derivation path and Keystone
/// errors.
pub proof fn lemma_remote_wallet_error_texts(s: String, p: &'static str, k: KeystoneError, d: DerivationPathError)
    ensures
        RemoteWalletError::Hid(s).spec_message() == "hidapi error"@,
        RemoteWalletError::DeviceTypeMismatch.spec_message() == "device type mismatch"@,
        RemoteWalletError::InvalidDevice.spec_message()
            == "device with non-supported product ID or vendor ID was detected"@,
        RemoteWalletError::NoDeviceFound.spec_message() == "no device found"@,
        RemoteWalletError::PubkeyNotFound.spec_message() == "pubkey not found for given address"@,
        RemoteWalletError::UserCancel.spec_message()
            == "remote wallet operation rejected by the user"@,
        RemoteWalletError::InvalidInput(s).spec_message() == "invalid input: "@ + s@,
        RemoteWalletError::InvalidPath(s).spec_message() == "invalid path: "@ + s@,
        RemoteWalletError::Protocol(p).spec_message() == "protocol error: "@ + p@,
        RemoteWalletError::KeystoneError(k).spec_message() == k.spec_message(),
        RemoteWalletError::DerivationPathError(d).spec_message() == d.spec_message(),
{
}

} // verus!
