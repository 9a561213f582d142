//! Connected devices and the wallets that drive them.
use crate::remote_wallet::RemoteWalletInfo;
use crate::wallet::keystone::keystone::KeystoneWallet;
use crate::wallet_impl::ledger::LedgerWallet;
use std::rc::Rc;
use vstd::prelude::*;

verus! {

/// A connected device.
pub struct Device {
    pub(crate) path: String,
    pub(crate) info: RemoteWalletInfo,
    pub wallet_type: RemoteWalletType,
}

impl Device {
    /// The device's path.
    pub closed spec fn spec_path(&self) -> String {
        self.path
    }

    /// What is known of the device.
    pub closed spec fn spec_info(&self) -> RemoteWalletInfo {
        self.info
    }

    /// The wallet that drives the device.
    pub closed spec fn spec_wallet_type(&self) -> RemoteWalletType {
        self.wallet_type
    }

    /// A device at `path` described by `info`, driven by `wallet_type`.
    pub fn new(path: String, info: RemoteWalletInfo, wallet_type: RemoteWalletType) -> (res: Self)
        ensures
            res.spec_path() == path,
            res.spec_info() == info,
            res.spec_wallet_type() == wallet_type,
    {
        Device { path, info, wallet_type }
    }

    /// The wallet that drives the device.
    pub fn wallet_type(&self) -> (res: &RemoteWalletType)
        ensures
            *res == self.spec_wallet_type(),
    {
        &self.wallet_type
    }

    /// What is known of the device.
    pub fn info(&self) -> (res: &RemoteWalletInfo)
        ensures
            *res == self.spec_info(),
    {
        &self.info
    }
}

/// The wallet that drives a device.
pub enum RemoteWalletType {
    Ledger(Rc<LedgerWallet>),
    Keystone(Rc<KeystoneWallet>),
}

/// `Rc::clone`: another pointer to the same value.
#[verifier::external_body]
pub(crate) fn rc_clone<T>(rc: &Rc<T>) -> (res: Rc<T>)
    ensures
        res == *rc,
{
    Rc::clone(rc)
}

} // verus!
