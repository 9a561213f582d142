//! Device manufacturers and the locator that names a wallet by manufacturer
//! and, optionally, by public key.
use crate::keys::Pubkey;
use vstd::prelude::*;

verus! {

/// Hardware wallet manufacturer.
#[derive(Debug, Clone, Copy, PartialEq, Eq, Hash, Structural)]
pub enum Manufacturer {
    Unknown,
    Ledger,
    Keystone,
    Trezor,
}

impl Manufacturer {
    /// The lower-case name that `Display` prints.
    pub open spec fn spec_name(self) -> Seq<char> {
        match self {
            Manufacturer::Unknown => "unknown"@,
            Manufacturer::Ledger => "ledger"@,
            Manufacturer::Keystone => "keystone"@,
            Manufacturer::Trezor => "trezor"@,
        }
    }

    /// The variant name that `Debug` prints.
    pub open spec fn spec_debug_name(self) -> Seq<char> {
        match self {
            Manufacturer::Unknown => "Unknown"@,
            Manufacturer::Ledger => "Ledger"@,
            Manufacturer::Keystone => "Keystone"@,
            Manufacturer::Trezor => "Trezor"@,
        }
    }

    pub fn name(&self) -> (res: &'static str)
        ensures
            res@ == self.spec_name(),
    {
        match self {
            Manufacturer::Unknown => "unknown",
            Manufacturer::Ledger => "ledger",
            Manufacturer::Keystone => "keystone",
            Manufacturer::Trezor => "trezor",
        }
    }

    pub fn debug_name(&self) -> (res: &'static str)
        ensures
            res@ == self.spec_debug_name(),
    {
        match self {
            Manufacturer::Unknown => "Unknown",
            Manufacturer::Ledger => "Ledger",
            Manufacturer::Keystone => "Keystone",
            Manufacturer::Trezor => "Trezor",
        }
    }

    /// The manufacturer a device reports by name: exactly `ledger` or `keystone`.
    pub open spec fn spec_from_name(s: Seq<char>) -> Option<Manufacturer> {
        if s == "ledger"@ {
            Some(Manufacturer::Ledger)
        } else if s == "keystone"@ {
            Some(Manufacturer::Keystone)
        } else {
            None
        }
    }

    pub fn from_name(s: &str) -> (res: Option<Manufacturer>)
        ensures
            res == Self::spec_from_name(s@),
    {
        let v = crate::text::chars_of(s);
        if crate::text::chars_eq_str(&v, "ledger") {
            Some(Manufacturer::Ledger)
        } else if crate::text::chars_eq_str(&v, "keystone") {
            Some(Manufacturer::Keystone)
        } else {
            None
        }
    }

    pub fn is_same(&self, other: &Manufacturer) -> (res: bool)
        ensures
            res == (*self == *other),
    {
        match (self, other) {
            (Manufacturer::Unknown, Manufacturer::Unknown) => true,
            (Manufacturer::Ledger, Manufacturer::Ledger) => true,
            (Manufacturer::Keystone, Manufacturer::Keystone) => true,
            (Manufacturer::Trezor, Manufacturer::Trezor) => true,
            _ => false,
        }
    }
}

impl Default for Manufacturer {
    fn default() -> (res: Manufacturer)
        ensures
            res == Manufacturer::Unknown,
    {
        Manufacturer::Unknown
    }
}

/// A wallet named by its manufacturer and, optionally, its public key.
#[derive(Debug, Clone, PartialEq, Eq)]
pub struct Locator {
    pub manufacturer: Manufacturer,
    pub pubkey: Option<Pubkey>,
}

/// The names of the manufacturers: each prints its lower-case name and its
/// variant name, and reading a printed name back gives the manufacturer for
/// Ledger and Keystone, the two a device reports, and nothing for the others.
pub proof fn lemma_manufacturer_names(m: Manufacturer)
    ensures
        Manufacturer::Unknown.spec_name() == "unknown"@,
        Manufacturer::Ledger.spec_name() == "ledger"@,
        Manufacturer::Keystone.spec_name() == "keystone"@,
        Manufacturer::Trezor.spec_name() == "trezor"@,
        Manufacturer::Unknown.spec_debug_name() == "Unknown"@,
        Manufacturer::Ledger.spec_debug_name() == "Ledger"@,
        Manufacturer::Keystone.spec_debug_name() == "Keystone"@,
        Manufacturer::Trezor.spec_debug_name() == "Trezor"@,
        Manufacturer::spec_from_name(m.spec_name()) == (if m is Ledger || m is Keystone {
            Some(m)
        } else {
            None::<Manufacturer>
        }),
{
    reveal_strlit("unknown");
    reveal_strlit("ledger");
    reveal_strlit("keystone");
    reveal_strlit("trezor");
    assert("unknown"@[0] != "ledger"@[0] && "unknown"@[0] != "keystone"@[0]);
    assert("trezor"@[0] != "ledger"@[0] && "trezor"@[0] != "keystone"@[0]);
    assert("keystone"@[0] != "ledger"@[0]);
}

} // verus!
