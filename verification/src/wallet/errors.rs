//! The error interface shared by hardware wallets.
use vstd::prelude::*;

verus! {

/// An error a hardware wallet reports: a status code and a description.
pub trait HardwareWalletError {
    spec fn spec_code(&self) -> u16;

    spec fn spec_description(&self) -> Seq<char>;

    fn code(&self) -> (res: u16)
        ensures
            res == self.spec_code(),
    ;

    fn description(&self) -> (res: String)
        ensures
            res@ == self.spec_description(),
    ;
}

} // verus!
