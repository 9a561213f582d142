//! Keys, signatures and BIP44 derivation paths as this library handles them:
//! public keys and signatures are fixed-size byte arrays, a derivation path is
//! its list of child indices. Base58 text and key-string parsing are done by
//! `solana_sdk`.
use crate::text::{chars_of, decimal_chars, spec_decimal};
use vstd::prelude::*;

verus! {

/// Length in bytes of a public key.
pub const PUBKEY_BYTES: usize = 32;

/// Length in bytes of a signature.
pub const SIGNATURE_BYTES: usize = 64;

/// An ed25519 public key.
#[derive(Debug, Clone, Copy, PartialEq, Eq, Hash)]
pub struct Pubkey {
    pub bytes: [u8; 32],
}

impl Pubkey {
    pub fn new_from_array(bytes: [u8; 32]) -> (res: Pubkey)
        ensures
            res.bytes@ == bytes@,
    {
        Pubkey { bytes }
    }

    /// The all-zero key that stands for "no key".
    pub open spec fn spec_default() -> Seq<u8> {
        Seq::new(32, |i: int| 0u8)
    }

    pub open spec fn is_default(self) -> bool {
        self.bytes@ == Self::spec_default()
    }

    pub fn default_key() -> (res: Pubkey)
        ensures
            res.is_default(),
    {
        let res = Pubkey { bytes: [0u8; 32] };
        assert(res.bytes@ =~= Self::spec_default());
        res
    }

    /// Whether both keys hold the same bytes.
    pub fn equals(&self, other: &Pubkey) -> (res: bool)
        ensures
            res == (self.bytes@ == other.bytes@),
    {
        let mut i: usize = 0;
        while i < 32
            invariant
                i <= 32,
                forall|j: int| 0 <= j < i ==> self.bytes@[j] == other.bytes@[j],
            decreases 32 - i,
        {
            if self.bytes[i] != other.bytes[i] {
                return false;
            }
            i = i + 1;
        }
        assert(self.bytes@ =~= other.bytes@);
        true
    }

    /// Whether this is the all-zero key.
    pub fn is_default_key(&self) -> (res: bool)
        ensures
            res == self.is_default(),
    {
        let d = Pubkey::default_key();
        self.equals(&d)
    }

    /// A key from exactly 32 bytes (`Pubkey::try_from` on a byte vector).
    pub fn try_from_bytes(v: &Vec<u8>) -> (res: Option<Pubkey>)
        ensures
            res is Some <==> v@.len() == 32,
            res matches Some(k) ==> k.bytes@ == v@,
    {
        if v.len() != 32 {
            return None;
        }
        let mut a = [0u8; 32];
        let mut i: usize = 0;
        while i < 32
            invariant
                v@.len() == 32,
                i <= 32,
                forall|j: int| 0 <= j < i ==> a@[j] == v@[j],
            decreases 32 - i,
        {
            a[i] = v[i];
            i = i + 1;
        }
        assert(a@ =~= v@);
        Some(Pubkey { bytes: a })
    }
}

impl Default for Pubkey {
    fn default() -> (res: Pubkey)
        ensures
            res.is_default(),
    {
        Pubkey::default_key()
    }
}

/// The base58 text of a key, as `solana_sdk`'s `Pubkey` displays it.
pub uninterp spec fn spec_pubkey_to_string(bytes: Seq<u8>) -> Seq<char>;

/// `Display` of `solana_sdk::pubkey::Pubkey` (base58 of the 32 bytes).
#[verifier::external_body]
pub(crate) fn pubkey_to_string(key: &Pubkey) -> (res: String)
    ensures
        res@ == spec_pubkey_to_string(key.bytes@),
{
    solana_sdk::pubkey::Pubkey::new_from_array(key.bytes).to_string()
}

/// Why text is no public key (`solana_sdk::pubkey::ParsePubkeyError`).
#[derive(Debug, Clone, Copy, PartialEq, Eq, Structural)]
pub enum ParsePubkeyError {
    WrongSize,
    Invalid,
}

impl ParsePubkeyError {
    pub open spec fn spec_message(self) -> Seq<char> {
        match self {
            ParsePubkeyError::WrongSize => "String is the wrong size"@,
            ParsePubkeyError::Invalid => "Invalid Base58 string"@,
        }
    }

    pub fn message(&self) -> (res: String)
        ensures
            res@ == self.spec_message(),
    {
        match self {
            ParsePubkeyError::WrongSize => String::from_str("String is the wrong size"),
            ParsePubkeyError::Invalid => String::from_str("Invalid Base58 string"),
        }
    }
}

/// What `solana_sdk`'s `Pubkey::from_str` makes of a text: 32 bytes, or the error.
pub uninterp spec fn spec_pubkey_from_str(s: Seq<char>) -> Result<Seq<u8>, ParsePubkeyError>;

/// `Pubkey::from_str` of `solana_sdk` (base58 decoding of a 32-byte key).
#[verifier::external_body]
pub(crate) fn pubkey_from_str(s: &str) -> (res: Result<Pubkey, ParsePubkeyError>)
    ensures
        match spec_pubkey_from_str(s@) {
            Ok(b) => res matches Ok(k) && k.bytes@ == b,
            Err(e) => res == Err::<Pubkey, ParsePubkeyError>(e),
        },
{
    match <solana_sdk::pubkey::Pubkey as std::str::FromStr>::from_str(s) {
        Ok(k) => Ok(Pubkey { bytes: k.to_bytes() }),
        Err(solana_sdk::pubkey::ParsePubkeyError::WrongSize) => Err(ParsePubkeyError::WrongSize),
        Err(solana_sdk::pubkey::ParsePubkeyError::Invalid) => Err(ParsePubkeyError::Invalid),
    }
}

/// An ed25519 signature.
#[derive(Debug, Clone, Copy, PartialEq, Eq)]
pub struct Signature {
    pub bytes: [u8; 64],
}

impl Signature {
    pub open spec fn spec_default() -> Seq<u8> {
        Seq::new(64, |i: int| 0u8)
    }

    /// The all-zero signature.
    pub fn default_signature() -> (res: Signature)
        ensures
            res.bytes@ == Self::spec_default(),
    {
        let res = Signature { bytes: [0u8; 64] };
        assert(res.bytes@ =~= Self::spec_default());
        res
    }

    /// A signature from exactly 64 bytes (`Signature::try_from` on a byte vector).
    pub fn try_from_bytes(v: &Vec<u8>) -> (res: Option<Signature>)
        ensures
            res is Some <==> v@.len() == 64,
            res matches Some(s) ==> s.bytes@ == v@,
    {
        if v.len() != 64 {
            return None;
        }
        let mut a = [0u8; 64];
        let mut i: usize = 0;
        while i < 64
            invariant
                v@.len() == 64,
                i <= 64,
                forall|j: int| 0 <= j < i ==> a@[j] == v@[j],
            decreases 64 - i,
        {
            a[i] = v[i];
            i = i + 1;
        }
        assert(a@ =~= v@);
        Some(Signature { bytes: a })
    }
}

impl Default for Signature {
    fn default() -> (res: Signature)
        ensures
            res.bytes@ == Signature::spec_default(),
    {
        Signature::default_signature()
    }
}

/// One step of a BIP32 derivation path.
#[derive(Debug, Clone, Copy, PartialEq, Eq, Structural)]
pub enum ChildIndex {
    Normal(u32),
    Hardened(u32),
}

/// Bit that marks a hardened index in its 32-bit encoding.
pub const HARDENED_BIT: u32 = 0x8000_0000;

impl ChildIndex {
    pub open spec fn spec_to_u32(self) -> u32 {
        match self {
            ChildIndex::Normal(i) => i,
            ChildIndex::Hardened(i) => i,
        }
    }

    pub open spec fn spec_is_hardened(self) -> bool {
        self is Hardened
    }

    /// The 32-bit encoding: the index, with the top bit set when hardened.
    pub open spec fn spec_to_bits(self) -> u32 {
        match self {
            ChildIndex::Normal(i) => i,
            ChildIndex::Hardened(i) => i | HARDENED_BIT,
        }
    }

    pub fn to_u32(&self) -> (res: u32)
        ensures
            res == self.spec_to_u32(),
    {
        match self {
            ChildIndex::Normal(i) => *i,
            ChildIndex::Hardened(i) => *i,
        }
    }

    pub fn is_hardened(&self) -> (res: bool)
        ensures
            res == self.spec_is_hardened(),
    {
        match self {
            ChildIndex::Normal(_) => false,
            ChildIndex::Hardened(_) => true,
        }
    }

    pub fn to_bits(&self) -> (res: u32)
        ensures
            res == self.spec_to_bits(),
    {
        match self {
            ChildIndex::Normal(i) => *i,
            ChildIndex::Hardened(i) => *i | HARDENED_BIT,
        }
    }

    /// How the index prints: its number, then `'` when hardened.
    pub open spec fn spec_display(self) -> Seq<char> {
        if self.spec_is_hardened() {
            spec_decimal(self.spec_to_u32() as nat).push('\'')
        } else {
            spec_decimal(self.spec_to_u32() as nat)
        }
    }

    pub fn display_chars(&self) -> (res: Vec<char>)
        ensures
            res@ == self.spec_display(),
    {
        let mut v = decimal_chars(self.to_u32() as u64);
        if self.is_hardened() {
            v.push('\'');
        }
        v
    }
}

/// Derivation path error.
#[derive(Debug, Clone, PartialEq, Eq)]
pub enum DerivationPathError {
    InvalidDerivationPath(String),
    Infallible,
}

impl DerivationPathError {
    /// A copy of the error.
    pub fn duplicate(&self) -> (res: Self)
        ensures
            res == *self,
    {
        match self {
            DerivationPathError::InvalidDerivationPath(s) => DerivationPathError::InvalidDerivationPath(
                s.clone(),
            ),
            DerivationPathError::Infallible => DerivationPathError::Infallible,
        }
    }

    /// The error's display text.
    pub open spec fn spec_message(self) -> Seq<char> {
        match self {
            DerivationPathError::InvalidDerivationPath(s) => "invalid derivation path: "@ + s@,
            DerivationPathError::Infallible => "infallible"@,
        }
    }

    pub fn message(&self) -> (res: String)
        ensures
            res@ == self.spec_message(),
    {
        match self {
            DerivationPathError::InvalidDerivationPath(s) => {
                let mut m = String::from_str("invalid derivation path: ");
                m.append(s.as_str());
                m
            },
            DerivationPathError::Infallible => String::from_str("infallible"),
        }
    }
}

/// Position of the account index in a BIP44 path.
pub const ACCOUNT_INDEX: usize = 2;

/// Position of the change index in a BIP44 path.
pub const CHANGE_INDEX: usize = 3;

/// BIP44 purpose of every Solana path.
pub const BIP44_PURPOSE: u32 = 44;

/// BIP44 coin type of Solana.
pub const SOLANA_COIN: u32 = 501;

/// A BIP32 derivation path, as its list of child indices.
#[derive(Debug, Clone, PartialEq, Eq)]
pub struct DerivationPath {
    pub path: Vec<ChildIndex>,
}

/// The indices of `m/44'/501'[/account'[/change']]`.
pub open spec fn spec_bip44(account: Option<u32>, change: Option<u32>) -> Seq<ChildIndex> {
    let base = seq![ChildIndex::Hardened(44), ChildIndex::Hardened(501)];
    match account {
        None => base,
        Some(a) => match change {
            None => base.push(ChildIndex::Hardened(a)),
            Some(c) => base.push(ChildIndex::Hardened(a)).push(ChildIndex::Hardened(c)),
        },
    }
}

/// A BIP44 path for Solana is `44'/501'`, then the account and, when an
/// account is given, the change, every index hardened.
pub proof fn lemma_bip44_shape(account: Option<u32>, change: Option<u32>)
    ensures
        spec_bip44(account, change).len() == 2 + (if account is Some {
            1int
        } else {
            0int
        }) + (if account is Some && change is Some {
            1int
        } else {
            0int
        }),
        forall|i: int|
            0 <= i < spec_bip44(account, change).len() ==> (#[trigger] spec_bip44(
                account,
                change,
            )[i]) is Hardened,
        spec_bip44(account, change)[0] == ChildIndex::Hardened(44),
        spec_bip44(account, change)[1] == ChildIndex::Hardened(501),
        account matches Some(a) ==> spec_bip44(account, change)[2] == ChildIndex::Hardened(a),
        (account is Some && change is Some) ==> spec_bip44(account, change)[3]
            == ChildIndex::Hardened(change->0),
{
}

impl DerivationPath {
    /// The account index: the third index, if any.
    pub open spec fn spec_account(self) -> Option<ChildIndex> {
        if self.path@.len() > 2 {
            Some(self.path@[2])
        } else {
            None
        }
    }

    /// The change index: the fourth index, if any.
    pub open spec fn spec_change(self) -> Option<ChildIndex> {
        if self.path@.len() > 3 {
            Some(self.path@[3])
        } else {
            None
        }
    }

    /// `m/44'/501'[/account'[/change']]`; a change without an account is dropped.
    pub fn new_bip44(account: Option<u32>, change: Option<u32>) -> (res: DerivationPath)
        ensures
            res.path@ == spec_bip44(account, change),
    {
        let mut path: Vec<ChildIndex> = Vec::new();
        path.push(ChildIndex::Hardened(BIP44_PURPOSE));
        path.push(ChildIndex::Hardened(SOLANA_COIN));
        match account {
            Some(a) => {
                path.push(ChildIndex::Hardened(a));
                match change {
                    Some(c) => {
                        path.push(ChildIndex::Hardened(c));
                    },
                    None => {},
                }
            },
            None => {},
        }
        assert(path@ =~= spec_bip44(account, change));
        DerivationPath { path }
    }

    /// The default path `m/44'/501'`.
    pub fn default_path() -> (res: DerivationPath)
        ensures
            res.path@ == spec_bip44(None, None),
    {
        Self::new_bip44(None, None)
    }

    pub fn account(&self) -> (res: Option<ChildIndex>)
        ensures
            res == self.spec_account(),
    {
        if self.path.len() > ACCOUNT_INDEX {
            Some(self.path[ACCOUNT_INDEX])
        } else {
            None
        }
    }

    pub fn change(&self) -> (res: Option<ChildIndex>)
        ensures
            res == self.spec_change(),
    {
        if self.path.len() > CHANGE_INDEX {
            Some(self.path[CHANGE_INDEX])
        } else {
            None
        }
    }

    pub fn path(&self) -> (res: &Vec<ChildIndex>)
        ensures
            res@ == self.path@,
    {
        &self.path
    }

    /// The `key` query of this path: `?key=<account>[/<change>]`, or nothing
    /// when the path has no account.
    pub open spec fn spec_get_query(self) -> Seq<char> {
        match self.spec_account() {
            None => Seq::empty(),
            Some(a) => match self.spec_change() {
                None => "?key="@ + a.spec_display(),
                Some(c) => "?key="@ + a.spec_display() + seq!['/'] + c.spec_display(),
            },
        }
    }

    pub fn get_query(&self) -> (res: Vec<char>)
        ensures
            res@ == self.spec_get_query(),
    {
        match self.account() {
            None => Vec::new(),
            Some(a) => {
                let mut q = chars_of("?key=");
                let mut ad = a.display_chars();
                q.append(&mut ad);
                match self.change() {
                    None => {},
                    Some(c) => {
                        q.push('/');
                        let mut cd = c.display_chars();
                        q.append(&mut cd);
                    },
                }
                q
            },
        }
    }

    /// Parses `<account>[/<change>]` (or `m`) into a Solana BIP44 path.
    pub fn from_key_str(path: &str) -> (res: Result<DerivationPath, DerivationPathError>)
        ensures
            match spec_derivation_path_bits_from_key_str(path@) {
                Ok(bits) => res matches Ok(d) && d.path@ == bits.map_values(
                    |b: u32| spec_child_from_bits(b),
                ),
                Err(e) => res == Err::<DerivationPath, DerivationPathError>(e),
            },
    {
        match derivation_path_bits_from_key_str(path) {
            Ok(bits) => {
                let mut p: Vec<ChildIndex> = Vec::new();
                let mut i: usize = 0;
                while i < bits.len()
                    invariant
                        i <= bits@.len(),
                        p@ == bits@.subrange(0, i as int).map_values(
                            |b: u32| spec_child_from_bits(b),
                        ),
                    decreases bits.len() - i,
                {
                    p.push(child_from_bits(bits[i]));
                    i = i + 1;
                    assert(p@ =~= bits@.subrange(0, i as int).map_values(
                        |b: u32| spec_child_from_bits(b),
                    ));
                }
                assert(bits@.subrange(0, bits@.len() as int) =~= bits@);
                Ok(DerivationPath { path: p })
            },
            Err(e) => Err(e),
        }
    }
}

/// The index a 32-bit encoding stands for.
pub open spec fn spec_child_from_bits(b: u32) -> ChildIndex {
    if b & HARDENED_BIT != 0 {
        ChildIndex::Hardened(b & !HARDENED_BIT)
    } else {
        ChildIndex::Normal(b)
    }
}

pub fn child_from_bits(b: u32) -> (res: ChildIndex)
    ensures
        res == spec_child_from_bits(b),
{
    if b & HARDENED_BIT != 0 {
        ChildIndex::Hardened(b & !HARDENED_BIT)
    } else {
        ChildIndex::Normal(b)
    }
}

impl Default for DerivationPath {
    fn default() -> (res: DerivationPath)
        ensures
            res.path@ == spec_bip44(None, None),
    {
        DerivationPath::default_path()
    }
}

/// What `DerivationPath::from_key_str` of `solana_sdk` makes of a key string:
/// the 32-bit encodings of the path's indices, or the error.
pub uninterp spec fn spec_derivation_path_bits_from_key_str(path: Seq<char>) -> Result<
    Seq<u32>,
    DerivationPathError,
>;

/// `solana_sdk::derivation_path::DerivationPath::from_key_str`, giving the
/// `to_bits` encoding of each index of the parsed path.
#[verifier::external_body]
fn derivation_path_bits_from_key_str(path: &str) -> (res: Result<Vec<u32>, DerivationPathError>)
    ensures
        match spec_derivation_path_bits_from_key_str(path@) {
            Ok(p) => res matches Ok(v) && v@ == p,
            Err(e) => res == Err::<Vec<u32>, DerivationPathError>(e),
        },
{
    match solana_sdk::derivation_path::DerivationPath::from_key_str(path) {
        Ok(d) => Ok(d.path().iter().map(|c| c.to_bits()).collect()),
        Err(solana_sdk::derivation_path::DerivationPathError::InvalidDerivationPath(m)) => {
            Err(DerivationPathError::InvalidDerivationPath(m))
        },
        Err(solana_sdk::derivation_path::DerivationPathError::Infallible) => {
            Err(DerivationPathError::Infallible)
        },
    }
}

} // verus!
