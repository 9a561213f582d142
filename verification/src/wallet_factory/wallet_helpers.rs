//! Names of wallet types.
use crate::wallet::types::RemoteWalletType;
use vstd::prelude::*;

verus! {

/// The display name of a wallet type.
pub fn get_wallet_name(wallet_type: &RemoteWalletType) -> (res: &str)
    ensures
        wallet_type is Ledger ==> res@ == "Ledger"@,
        wallet_type is Keystone ==> res@ == "Keystone"@,
{
    match wallet_type {
        RemoteWalletType::Ledger(_) => "Ledger",
        RemoteWalletType::Keystone(_) => "Keystone",
    }
}

/// The manufacturer name of a wallet type.
pub fn get_wallet_manufacturer(wallet_type: &RemoteWalletType) -> (res: &str)
    ensures
        wallet_type is Ledger ==> res@ == "ledger"@,
        wallet_type is Keystone ==> res@ == "keystone"@,
{
    match wallet_type {
        RemoteWalletType::Ledger(_) => "ledger",
        RemoteWalletType::Keystone(_) => "keystone",
    }
}

} // verus!
