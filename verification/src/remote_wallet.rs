//! Information about connected wallets, the wallet interface, and the manager
//! that keeps the list of connected devices.
use crate::errors::RemoteWalletError;
use crate::keys::{pubkey_to_string, spec_pubkey_to_string, DerivationPath, Pubkey, Signature};
use crate::locator::{Locator, Manufacturer};
use crate::text::{chars_eq_str, chars_of};
use crate::wallet::keystone::keystone::KeystoneWallet;
use crate::wallet::types::{rc_clone, Device, RemoteWalletType};
use crate::wallet_impl::ledger::LedgerWallet;
use std::rc::Rc;
use vstd::prelude::*;

verus! {

/// HID usage page of hardware wallets.
pub const HID_GLOBAL_USAGE_PAGE: u16 = 0xFF00;

/// USB device class of hardware wallets.
pub const HID_USB_DEVICE_CLASS: u8 = 0;

/// What the USB subsystem reports of a HID device.
#[derive(Debug, Clone, PartialEq, Eq)]
pub struct HidDeviceInfo {
    pub path: String,
    pub vendor_id: u16,
    pub product_id: u16,
    pub usage_page: u16,
    pub interface_number: i32,
    pub manufacturer_string: Option<String>,
    pub product_string: Option<String>,
    pub serial_number: Option<String>,
}

/// Interface of hardware wallet implementations over a device of type `T`.
pub trait RemoteWallet<T> {
    /// The human-readable name of this wallet implementation.
    fn name(&self) -> (res: &str)
        default_ensures
            res@ == "unimplemented"@,
    {
        "unimplemented"
    }

    /// Reads the device's information and sets up communication.
    fn read_device(&mut self, dev_info: &T) -> Result<RemoteWalletInfo, RemoteWalletError>;

    /// Derives a public key on the device.
    fn get_pubkey(&self, derivation_path: &DerivationPath, confirm_key: bool) -> Result<
        Pubkey,
        RemoteWalletError,
    >;

    /// Signs transaction data on the device.
    fn sign_message(&self, derivation_path: &DerivationPath, data: &[u8]) -> Result<
        Signature,
        RemoteWalletError,
    >;

    /// Signs an off-chain message on the device.
    fn sign_offchain_message(&self, derivation_path: &DerivationPath, message: &[u8]) -> Result<
        Signature,
        RemoteWalletError,
    >;
}

/// Information about a connected hardware wallet device.
#[derive(Debug, Clone, PartialEq, Eq)]
pub struct RemoteWalletInfo {
    /// Device model name
    pub model: String,
    /// Device manufacturer
    pub manufacturer: Manufacturer,
    /// Device serial number
    pub serial: String,
    /// Host system path to the USB device
    pub host_device_path: String,
    /// Base public key of the device
    pub pubkey: Pubkey,
    /// Error met while initializing the device, if any
    pub error: Option<RemoteWalletError>,
}

impl RemoteWalletInfo {
    /// The empty information: unknown manufacturer, empty texts, the default key.
    pub open spec fn spec_is_empty(self) -> bool {
        &&& self.model@ == Seq::<char>::empty()
        &&& self.manufacturer == Manufacturer::Unknown
        &&& self.serial@ == Seq::<char>::empty()
        &&& self.host_device_path@ == Seq::<char>::empty()
        &&& self.pubkey.is_default()
        &&& self.error is None
    }

    pub fn empty() -> (res: Self)
        ensures
            res.spec_is_empty(),
    {
        RemoteWalletInfo {
            model: String::new(),
            manufacturer: Manufacturer::Unknown,
            serial: String::new(),
            host_device_path: String::new(),
            pubkey: Pubkey::default_key(),
            error: None,
        }
    }

    /// Information naming the locator's manufacturer and key (the default key
    /// when the locator has none); everything else empty.
    pub fn parse_locator(locator: Locator) -> (res: Self)
        ensures
            res.manufacturer == locator.manufacturer,
            match locator.pubkey {
                Some(k) => res.pubkey == k,
                None => res.pubkey.is_default(),
            },
            res.model@ == Seq::<char>::empty(),
            res.serial@ == Seq::<char>::empty(),
            res.host_device_path@ == Seq::<char>::empty(),
            res.error is None,
    {
        let pubkey = match locator.pubkey {
            Some(k) => k,
            None => Pubkey::default_key(),
        };
        RemoteWalletInfo {
            model: String::new(),
            manufacturer: locator.manufacturer,
            serial: String::new(),
            host_device_path: String::new(),
            pubkey,
            error: None,
        }
    }

    /// `usb://<manufacturer>/<base58 key>`.
    pub open spec fn spec_pretty_path(self) -> Seq<char> {
        "usb://"@ + self.manufacturer.spec_name() + "/"@ + spec_pubkey_to_string(self.pubkey.bytes@)
    }

    /// A path naming this device: `usb://<manufacturer>/<base58 key>`.
    pub fn get_pretty_path(&self) -> (res: String)
        ensures
            res@ == self.spec_pretty_path(),
    {
        let mut s = String::from_str("usb://");
        s.append(self.manufacturer.name());
        s.append("/");
        let k = pubkey_to_string(&self.pubkey);
        s.append(k.as_str());
        s
    }

    /// Two devices match when they have the same manufacturer and the same key,
    /// or when either key is the default one.
    pub open spec fn spec_matches(self, other: Self) -> bool {
        &&& self.manufacturer == other.manufacturer
        &&& (self.pubkey.bytes@ == other.pubkey.bytes@ || self.pubkey.is_default()
            || other.pubkey.is_default())
    }

    pub fn matches(&self, other: &Self) -> (res: bool)
        ensures
            res == self.spec_matches(*other),
    {
        self.manufacturer.is_same(&other.manufacturer) && (self.pubkey.equals(&other.pubkey)
            || self.pubkey.is_default_key() || other.pubkey.is_default_key())
    }

    /// A copy of the information.
    pub fn duplicate(&self) -> (res: Self)
        ensures
            res == *self,
    {
        RemoteWalletInfo {
            model: self.model.clone(),
            manufacturer: self.manufacturer,
            serial: self.serial.clone(),
            host_device_path: self.host_device_path.clone(),
            pubkey: self.pubkey,
            error: match &self.error {
                Some(e) => Some(e.duplicate()),
                None => None,
            },
        }
    }

    pub fn has_error(&self) -> (res: bool)
        ensures
            res == self.error is Some,
    {
        self.error.is_some()
    }

    /// The text of the error, if any.
    pub fn error_message(&self) -> (res: Option<String>)
        ensures
            match self.error {
                Some(e) => res matches Some(m) && m@ == e.spec_message(),
                None => res is None,
            },
    {
        match &self.error {
            Some(e) => Some(e.message()),
            None => None,
        }
    }

    /// Ready: no error and a key other than the default one.
    pub fn is_ready(&self) -> (res: bool)
        ensures
            res == (self.error is None && !self.pubkey.is_default()),
    {
        self.error.is_none() && !self.pubkey.is_default_key()
    }
}

impl Default for RemoteWalletInfo {
    fn default() -> (res: Self)
        ensures
            res.spec_is_empty(),
    {
        RemoteWalletInfo::empty()
    }
}

/// Matching is symmetric.
pub proof fn lemma_matches_symmetric(a: RemoteWalletInfo, b: RemoteWalletInfo)
    ensures
        a.spec_matches(b) == b.spec_matches(a),
{
}

/// Every device matches itself.
pub proof fn lemma_matches_reflexive(a: RemoteWalletInfo)
    ensures
        a.spec_matches(a),
{
}

/// Information parsed from a locator without a key matches every device of
/// the locator's manufacturer.
pub proof fn lemma_keyless_locator_matches(locator: Locator, parsed: RemoteWalletInfo, other: RemoteWalletInfo)
    requires
        locator.pubkey is None,
        parsed.manufacturer == locator.manufacturer,
        parsed.pubkey.is_default(),
        other.manufacturer == locator.manufacturer,
    ensures
        parsed.spec_matches(other),
{
}

/// A device with the HID usage page of wallets, or with the wallet device class.
pub open spec fn spec_is_valid_hid_device(usage_page: u16, interface_number: i32) -> bool {
    usage_page == HID_GLOBAL_USAGE_PAGE || interface_number == HID_USB_DEVICE_CLASS as i32
}

/// Whether a USB device has the HID characteristics of a hardware wallet.
pub fn is_valid_hid_device(usage_page: u16, interface_number: i32) -> (res: bool)
    ensures
        res == spec_is_valid_hid_device(usage_page, interface_number),
{
    usage_page == HID_GLOBAL_USAGE_PAGE || interface_number == HID_USB_DEVICE_CLASS as i32
}


// ---------------------------------------------------------------------------
// The manager of connected devices
// ---------------------------------------------------------------------------

/// The first device at `path`.
pub open spec fn spec_find_device(devices: Seq<Device>, path: Seq<char>) -> Option<int>
    decreases devices.len(),
{
    if devices.len() == 0 {
        None
    } else if devices[0].spec_info().host_device_path@ == path {
        Some(0)
    } else {
        match spec_find_device(devices.drop_first(), path) {
            Some(i) => Some(i + 1),
            None => None,
        }
    }
}

/// The first device with key `key`.
pub open spec fn spec_find_key(devices: Seq<Device>, key: Seq<u8>) -> Option<int>
    decreases devices.len(),
{
    if devices.len() == 0 {
        None
    } else if devices[0].spec_info().pubkey.bytes@ == key {
        Some(0)
    } else {
        match spec_find_key(devices.drop_first(), key) {
            Some(i) => Some(i + 1),
            None => None,
        }
    }
}

/// The information of the devices of manufacturer `m`, in order.
pub open spec fn spec_infos_of(devices: Seq<Device>, m: Manufacturer) -> Seq<RemoteWalletInfo>
    decreases devices.len(),
{
    if devices.len() == 0 {
        Seq::empty()
    } else {
        let rest = spec_infos_of(devices.drop_last(), m);
        if devices.last().spec_info().manufacturer == m {
            rest.push(devices.last().spec_info())
        } else {
            rest
        }
    }
}

/// The information of each device, in order.
pub open spec fn spec_infos(devices: Seq<Device>) -> Seq<RemoteWalletInfo> {
    devices.map_values(|d: Device| d.spec_info())
}

/// Looking up a key finds the first device with that key, and none when no
/// device has it.
pub proof fn lemma_find_key_is_first(devices: Seq<Device>, key: Seq<u8>)
    ensures
        match spec_find_key(devices, key) {
            Some(i) => 0 <= i < devices.len() && devices[i].spec_info().pubkey.bytes@ == key
                && forall|j: int| 0 <= j < i ==> devices[j].spec_info().pubkey.bytes@ != key,
            None => forall|j: int| 0 <= j < devices.len() ==> devices[j].spec_info().pubkey.bytes@ != key,
        },
    decreases devices.len(),
{
    if devices.len() > 0 {
        lemma_find_key_is_first(devices.drop_first(), key);
        if devices[0].spec_info().pubkey.bytes@ != key {
            assert forall|j: int| 1 <= j < devices.len() implies devices[j] == devices.drop_first()[j - 1] by {}
        }
    }
}

/// The devices of a manufacturer are the list's devices filtered by
/// manufacturer, in list order.
pub proof fn lemma_infos_of_is_filter(devices: Seq<Device>, m: Manufacturer)
    ensures
        spec_infos_of(devices, m) == spec_infos(devices).filter(
            |i: RemoteWalletInfo| i.manufacturer == m,
        ),
    decreases devices.len(),
{
    reveal(Seq::filter);
    if devices.len() > 0 {
        lemma_infos_of_is_filter(devices.drop_last(), m);
        assert(spec_infos(devices).drop_last() =~= spec_infos(devices.drop_last()));
    }
}

/// The Ledger wallet of a wallet type.
fn ledger_of(wallet_type: &RemoteWalletType) -> (r: Result<Rc<LedgerWallet>, RemoteWalletError>)
    ensures
        match *wallet_type {
            RemoteWalletType::Ledger(w) => r == Ok::<Rc<LedgerWallet>, RemoteWalletError>(w),
            _ => r == Err::<Rc<LedgerWallet>, RemoteWalletError>(
                RemoteWalletError::DeviceTypeMismatch,
            ),
        },
{
    match wallet_type {
        RemoteWalletType::Ledger(ledger) => Ok(rc_clone(ledger)),
        _ => Err(RemoteWalletError::DeviceTypeMismatch),
    }
}

/// The Keystone wallet of a wallet type.
fn keystone_of(wallet_type: &RemoteWalletType) -> (r: Result<Rc<KeystoneWallet>, RemoteWalletError>)
    ensures
        match *wallet_type {
            RemoteWalletType::Keystone(w) => r == Ok::<Rc<KeystoneWallet>, RemoteWalletError>(w),
            _ => r == Err::<Rc<KeystoneWallet>, RemoteWalletError>(
                RemoteWalletError::DeviceTypeMismatch,
            ),
        },
{
    match wallet_type {
        RemoteWalletType::Keystone(keystone) => Ok(rc_clone(keystone)),
        _ => Err(RemoteWalletError::DeviceTypeMismatch),
    }
}

/// What the manager does after one attempt to find devices while polling.
#[derive(Debug, Clone, Copy, PartialEq, Eq, Structural)]
pub enum PollStep {
    /// Devices are connected: polling succeeds.
    Connected,
    /// No device yet: wait and try again while time is left.
    Retry,
}

/// Keeps the list of connected devices.
pub struct RemoteWalletManager {
    devices: Vec<Device>,
}

impl RemoteWalletManager {
    /// The connected devices.
    pub closed spec fn spec_devices(&self) -> Seq<Device> {
        self.devices@
    }

    /// A manager with no device.
    pub fn new() -> (res: Self)
        ensures
            res.spec_devices().len() == 0,
    {
        RemoteWalletManager { devices: Vec::new() }
    }

    /// Replaces the device list with a freshly scanned one; returns how many
    /// devices were added, negative when devices were removed. (A vector of
    /// devices holds at most `isize::MAX` of them.)
    pub fn replace_devices(&mut self, new_devices: Vec<Device>) -> (res: isize)
        requires
            new_devices@.len() <= isize::MAX,
            old(self).spec_devices().len() <= isize::MAX,
        ensures
            final(self).spec_devices() == new_devices@,
            res == new_devices@.len() - old(self).spec_devices().len(),
    {
        let prev_device_count = self.devices.len();
        self.devices = new_devices;
        let now = self.devices.len();
        if now >= prev_device_count {
            (now - prev_device_count) as isize
        } else {
            -((prev_device_count - now) as isize)
        }
    }

    /// The information of each connected device, in order.
    pub fn list_devices(&self) -> (res: Vec<RemoteWalletInfo>)
        ensures
            res@ == self.spec_devices().map_values(|d: Device| d.spec_info()),
    {
        let mut out: Vec<RemoteWalletInfo> = Vec::new();
        let mut i: usize = 0;
        while i < self.devices.len()
            invariant
                i <= self.devices@.len(),
                out@ == self.devices@.subrange(0, i as int).map_values(|d: Device| d.spec_info()),
            decreases self.devices.len() - i,
        {
            out.push(self.devices[i].info().duplicate());
            i = i + 1;
            assert(out@ =~= self.devices@.subrange(0, i as int).map_values(
                |d: Device| d.spec_info(),
            ));
        }
        assert(self.devices@.subrange(0, self.devices@.len() as int) =~= self.devices@);
        out
    }

    /// The position of the first device at `host_device_path`.
    fn find_device(&self, host_device_path: &str) -> (res: Option<usize>)
        ensures
            match spec_find_device(self.spec_devices(), host_device_path@) {
                Some(i) => res matches Some(j) && j == i && i < self.spec_devices().len(),
                None => res is None,
            },
    {
        let mut i: usize = 0;
        assert(self.devices@.subrange(0, self.devices@.len() as int) =~= self.devices@);
        while i < self.devices.len()
            invariant
                i <= self.devices@.len(),
                spec_find_device(self.devices@, host_device_path@) == (match spec_find_device(
                    self.devices@.subrange(i as int, self.devices@.len() as int),
                    host_device_path@,
                ) {
                    Some(j) => Some(j + i),
                    None => None::<int>,
                }),
            decreases self.devices.len() - i,
        {
            let here = chars_of(self.devices[i].info().host_device_path.as_str());
            assert(self.devices@.subrange(i as int, self.devices@.len() as int)[0]
                == self.devices@[i as int]);
            if chars_eq_str(&here, host_device_path) {
                return Some(i);
            }
            assert(self.devices@.subrange(i as int, self.devices@.len() as int).drop_first()
                =~= self.devices@.subrange(i + 1, self.devices@.len() as int));
            i = i + 1;
        }
        None
    }

    /// The wallet of the first device at `host_device_path`, as `extractor`
    /// takes it from the device's wallet type; no such device means no key.
    fn get_wallet_by_path<T, F: FnOnce(&RemoteWalletType) -> Result<T, RemoteWalletError>>(
        &self,
        host_device_path: &str,
        extractor: F,
    ) -> (res: Result<T, RemoteWalletError>)
        requires
            forall|w: &RemoteWalletType| extractor.requires((w,)),
        ensures
            match spec_find_device(self.spec_devices(), host_device_path@) {
                Some(i) => extractor.ensures((&self.spec_devices()[i].spec_wallet_type(),), res),
                None => res == Err::<T, RemoteWalletError>(RemoteWalletError::PubkeyNotFound),
            },
    {
        match self.find_device(host_device_path) {
            Some(i) => extractor(self.devices[i].wallet_type()),
            None => Err(RemoteWalletError::PubkeyNotFound),
        }
    }

    /// The Ledger wallet at `host_device_path`.
    pub fn get_ledger(&self, host_device_path: &str) -> (res: Result<
        Rc<LedgerWallet>,
        RemoteWalletError,
    >)
        ensures
            match spec_find_device(self.spec_devices(), host_device_path@) {
                Some(i) => match self.spec_devices()[i].spec_wallet_type() {
                    RemoteWalletType::Ledger(w) => res == Ok::<
                        Rc<LedgerWallet>,
                        RemoteWalletError,
                    >(w),
                    _ => res == Err::<Rc<LedgerWallet>, RemoteWalletError>(
                        RemoteWalletError::DeviceTypeMismatch,
                    ),
                },
                None => res == Err::<Rc<LedgerWallet>, RemoteWalletError>(
                    RemoteWalletError::PubkeyNotFound,
                ),
            },
    {
        self.get_wallet_by_path(host_device_path, ledger_of)
    }

    /// The Keystone wallet at `host_device_path`.
    pub fn get_keystone(&self, host_device_path: &str) -> (res: Result<
        Rc<KeystoneWallet>,
        RemoteWalletError,
    >)
        ensures
            match spec_find_device(self.spec_devices(), host_device_path@) {
                Some(i) => match self.spec_devices()[i].spec_wallet_type() {
                    RemoteWalletType::Keystone(w) => res == Ok::<
                        Rc<KeystoneWallet>,
                        RemoteWalletError,
                    >(w),
                    _ => res == Err::<Rc<KeystoneWallet>, RemoteWalletError>(
                        RemoteWalletError::DeviceTypeMismatch,
                    ),
                },
                None => res == Err::<Rc<KeystoneWallet>, RemoteWalletError>(
                    RemoteWalletError::PubkeyNotFound,
                ),
            },
    {
        self.get_wallet_by_path(host_device_path, keystone_of)
    }

    /// The information of the first device with key `pubkey`.
    pub fn get_wallet_info(&self, pubkey: &Pubkey) -> (res: Option<RemoteWalletInfo>)
        ensures
            match spec_find_key(self.spec_devices(), pubkey.bytes@) {
                Some(i) => res == Some(self.spec_devices()[i].spec_info()),
                None => res is None,
            },
    {
        let mut i: usize = 0;
        assert(self.devices@.subrange(0, self.devices@.len() as int) =~= self.devices@);
        while i < self.devices.len()
            invariant
                i <= self.devices@.len(),
                spec_find_key(self.devices@, pubkey.bytes@) == (match spec_find_key(
                    self.devices@.subrange(i as int, self.devices@.len() as int),
                    pubkey.bytes@,
                ) {
                    Some(j) => Some(j + i),
                    None => None::<int>,
                }),
            decreases self.devices.len() - i,
        {
            assert(self.devices@.subrange(i as int, self.devices@.len() as int)[0]
                == self.devices@[i as int]);
            if self.devices[i].info().pubkey.equals(pubkey) {
                return Some(self.devices[i].info().duplicate());
            }
            assert(self.devices@.subrange(i as int, self.devices@.len() as int).drop_first()
                =~= self.devices@.subrange(i + 1, self.devices@.len() as int));
            i = i + 1;
        }
        None
    }

    /// The number of connected devices.
    pub fn device_count(&self) -> (res: usize)
        ensures
            res == self.spec_devices().len(),
    {
        self.devices.len()
    }

    /// Whether any device is connected.
    pub fn has_devices(&self) -> (res: bool)
        ensures
            res == (self.spec_devices().len() > 0),
    {
        self.devices.len() > 0
    }

    /// The information of the devices of one manufacturer, in order.
    pub fn get_devices_by_manufacturer(&self, manufacturer: &Manufacturer) -> (res: Vec<
        RemoteWalletInfo,
    >)
        ensures
            res@ == spec_infos_of(self.spec_devices(), *manufacturer),
    {
        let mut out: Vec<RemoteWalletInfo> = Vec::new();
        let mut i: usize = 0;
        while i < self.devices.len()
            invariant
                i <= self.devices@.len(),
                out@ == spec_infos_of(self.devices@.subrange(0, i as int), *manufacturer),
            decreases self.devices.len() - i,
        {
            let ghost taken = self.devices@.subrange(0, i + 1);
            assert(taken.drop_last() =~= self.devices@.subrange(0, i as int));
            if self.devices[i].info().manufacturer.is_same(manufacturer) {
                out.push(self.devices[i].info().duplicate());
            }
            i = i + 1;
        }
        assert(self.devices@.subrange(0, self.devices@.len() as int) =~= self.devices@);
        out
    }

    /// The information of the first connected device.
    pub fn get_first_available_wallet(&self) -> (res: Option<RemoteWalletInfo>)
        ensures
            self.spec_devices().len() > 0 ==> res == Some(self.spec_devices()[0].spec_info()),
            self.spec_devices().len() == 0 ==> res is None,
    {
        if self.devices.len() > 0 {
            Some(self.devices[0].info().duplicate())
        } else {
            None
        }
    }

    /// What polling does after an attempt to find devices: succeed once any
    /// device is connected, otherwise try again (an attempt that failed is
    /// retried too).
    pub fn poll_step(&self, update: &Result<isize, RemoteWalletError>) -> (res: PollStep)
        ensures
            update is Ok && self.spec_devices().len() > 0 ==> res == PollStep::Connected,
            !(update is Ok && self.spec_devices().len() > 0) ==> res == PollStep::Retry,
    {
        match update {
            Ok(_) => {
                if self.devices.len() > 0 {
                    PollStep::Connected
                } else {
                    PollStep::Retry
                }
            },
            Err(_) => PollStep::Retry,
        }
    }
}

} // verus!
