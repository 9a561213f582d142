//! Errors a Keystone device reports: by status code or by message text.
use crate::text::{
    ascii_lower, ascii_lower_char, chars_eq_str, chars_of, contains_str, decimal_chars,
    is_whitespace_char, lemma_decimal_digits, lemma_parse_decimal, lemma_split_append,
    is_digit, occurs_at, parse_unsigned, seq_contains, spec_decimal,
    spec_parse_unsigned, spec_split, spec_str_to_lowercase, spec_trim, spec_trim_end, spec_trim_start, split_chars, str_to_lowercase,
    string_of, trim_chars,
};
use crate::wallet::errors::HardwareWalletError;
use vstd::prelude::*;

verus! {

/// Keystone device error.
#[derive(Debug, Clone, PartialEq, Eq)]
pub enum KeystoneError {
    NoAppResponse,
    PreviousRequestNotFinished,
    InvalidJson,
    KeySizeMismatch,
    DeviceNotConnected,
    UserRejected,
    InvalidDerivationPath,
    TransactionSigningFailed,
    MessageSigningFailed,
    DeviceTimeout,
    InvalidTransactionData,
    UnsupportedOperation,
    DeviceLocked,
    InvalidSignature,
    URParsingRejected,
    CommunicationError { message: String },
    Unknown { code: u16 },
}

/// The error a status code stands for: the codes 0x6700 to 0x670D.
pub open spec fn spec_from_code(n: int) -> Option<KeystoneError> {
    if n == 0x6700 {
        Some(KeystoneError::NoAppResponse)
    } else if n == 0x6701 {
        Some(KeystoneError::PreviousRequestNotFinished)
    } else if n == 0x6702 {
        Some(KeystoneError::InvalidJson)
    } else if n == 0x6703 {
        Some(KeystoneError::KeySizeMismatch)
    } else if n == 0x6704 {
        Some(KeystoneError::DeviceNotConnected)
    } else if n == 0x6705 {
        Some(KeystoneError::UserRejected)
    } else if n == 0x6706 {
        Some(KeystoneError::InvalidDerivationPath)
    } else if n == 0x6707 {
        Some(KeystoneError::TransactionSigningFailed)
    } else if n == 0x6708 {
        Some(KeystoneError::MessageSigningFailed)
    } else if n == 0x6709 {
        Some(KeystoneError::DeviceTimeout)
    } else if n == 0x670A {
        Some(KeystoneError::InvalidTransactionData)
    } else if n == 0x670B {
        Some(KeystoneError::UnsupportedOperation)
    } else if n == 0x670C {
        Some(KeystoneError::DeviceLocked)
    } else if n == 0x670D {
        Some(KeystoneError::InvalidSignature)
    } else {
        None
    }
}

impl KeystoneError {
    /// The status code of each error.
    pub open spec fn spec_code(self) -> u16 {
        match self {
            KeystoneError::NoAppResponse => 0x6700,
            KeystoneError::PreviousRequestNotFinished => 0x6701,
            KeystoneError::InvalidJson => 0x6702,
            KeystoneError::KeySizeMismatch => 0x6703,
            KeystoneError::DeviceNotConnected => 0x6704,
            KeystoneError::UserRejected => 0x6705,
            KeystoneError::InvalidDerivationPath => 0x6706,
            KeystoneError::TransactionSigningFailed => 0x6707,
            KeystoneError::MessageSigningFailed => 0x6708,
            KeystoneError::DeviceTimeout => 0x6709,
            KeystoneError::InvalidTransactionData => 0x670A,
            KeystoneError::UnsupportedOperation => 0x670B,
            KeystoneError::DeviceLocked => 0x670C,
            KeystoneError::InvalidSignature => 0x670D,
            KeystoneError::URParsingRejected => 0x670E,
            KeystoneError::CommunicationError { .. } => 0x67FF,
            KeystoneError::Unknown { code } => code,
        }
    }

    /// The error's display text.
    pub open spec fn spec_message(self) -> Seq<char> {
        match self {
            KeystoneError::NoAppResponse => "Solana app not open on Ledger device"@,
            KeystoneError::PreviousRequestNotFinished => "Previous request not finished"@,
            KeystoneError::InvalidJson => "Invalid JSON response"@,
            KeystoneError::KeySizeMismatch => "Key packet size mismatch"@,
            KeystoneError::DeviceNotConnected => "Device not connected"@,
            KeystoneError::UserRejected => "User rejected the request"@,
            KeystoneError::InvalidDerivationPath => "Invalid derivation path"@,
            KeystoneError::TransactionSigningFailed => "Transaction signing failed"@,
            KeystoneError::MessageSigningFailed => "Message signing failed"@,
            KeystoneError::DeviceTimeout => "Device timeout"@,
            KeystoneError::InvalidTransactionData => "Invalid transaction data"@,
            KeystoneError::UnsupportedOperation => "Unsupported operation"@,
            KeystoneError::DeviceLocked => "Device locked"@,
            KeystoneError::InvalidSignature => "Invalid signature"@,
            KeystoneError::URParsingRejected => "UR parsing rejected"@,
            KeystoneError::CommunicationError { message } => "Communication error: "@ + message@,
            KeystoneError::Unknown { code } => "Unknown error: "@ + spec_decimal(code as nat),
        }
    }

    pub fn from_u64(n: u64) -> (res: Option<Self>)
        ensures
            res == spec_from_code(n as int),
    {
        match n {
            0x6700 => Some(KeystoneError::NoAppResponse),
            0x6701 => Some(KeystoneError::PreviousRequestNotFinished),
            0x6702 => Some(KeystoneError::InvalidJson),
            0x6703 => Some(KeystoneError::KeySizeMismatch),
            0x6704 => Some(KeystoneError::DeviceNotConnected),
            0x6705 => Some(KeystoneError::UserRejected),
            0x6706 => Some(KeystoneError::InvalidDerivationPath),
            0x6707 => Some(KeystoneError::TransactionSigningFailed),
            0x6708 => Some(KeystoneError::MessageSigningFailed),
            0x6709 => Some(KeystoneError::DeviceTimeout),
            0x670A => Some(KeystoneError::InvalidTransactionData),
            0x670B => Some(KeystoneError::UnsupportedOperation),
            0x670C => Some(KeystoneError::DeviceLocked),
            0x670D => Some(KeystoneError::InvalidSignature),
            _ => None,
        }
    }

    pub fn from_i64(n: i64) -> (res: Option<Self>)
        ensures
            res == (if n >= 0 {
                spec_from_code(n as int)
            } else {
                None
            }),
    {
        if n >= 0 {
            Self::from_u64(n as u64)
        } else {
            None
        }
    }

    /// The error a status word stands for.
    pub fn from_usize(status: usize) -> (res: Option<Self>)
        ensures
            res == spec_from_code(status as int),
    {
        Self::from_u64(status as u64)
    }

    pub fn message(&self) -> (res: String)
        ensures
            res@ == self.spec_message(),
    {
        match self {
            KeystoneError::NoAppResponse => String::from_str("Solana app not open on Ledger device"),
            KeystoneError::PreviousRequestNotFinished => String::from_str("Previous request not finished"),
            KeystoneError::InvalidJson => String::from_str("Invalid JSON response"),
            KeystoneError::KeySizeMismatch => String::from_str("Key packet size mismatch"),
            KeystoneError::DeviceNotConnected => String::from_str("Device not connected"),
            KeystoneError::UserRejected => String::from_str("User rejected the request"),
            KeystoneError::InvalidDerivationPath => String::from_str("Invalid derivation path"),
            KeystoneError::TransactionSigningFailed => String::from_str("Transaction signing failed"),
            KeystoneError::MessageSigningFailed => String::from_str("Message signing failed"),
            KeystoneError::DeviceTimeout => String::from_str("Device timeout"),
            KeystoneError::InvalidTransactionData => String::from_str("Invalid transaction data"),
            KeystoneError::UnsupportedOperation => String::from_str("Unsupported operation"),
            KeystoneError::DeviceLocked => String::from_str("Device locked"),
            KeystoneError::InvalidSignature => String::from_str("Invalid signature"),
            KeystoneError::URParsingRejected => String::from_str("UR parsing rejected"),
            KeystoneError::CommunicationError { message } => {
                let mut s = String::from_str("Communication error: ");
                s.append(message.as_str());
                s
            },
            KeystoneError::Unknown { code } => {
                let mut v = chars_of("Unknown error: ");
                let mut d = decimal_chars(*code as u64);
                v.append(&mut d);
                string_of(&v)
            },
        }
    }

    /// The code in an "unknown error" text: the number after its last `:`, or
    /// 0xFFFF when there is none.
    pub open spec fn spec_unknown_code(l: Seq<char>) -> u16 {
        match spec_parse_unsigned(spec_trim(spec_split(l, ':').last()), 0xffff) {
            Ok(n) => n as u16,
            Err(_) => 0xffff,
        }
    }

    /// What a text names, matched on its lower-case form: first the exact
    /// names, then texts that mention a previous unfinished request, a
    /// communication error or an unknown error.
    pub open spec fn spec_from_string(s: Seq<char>, r: Result<KeystoneError, String>) -> bool {
        let l = spec_str_to_lowercase(s);
        if l == "previous request is not finished"@ || l == "previous request not finished"@ {
            r == Ok::<KeystoneError, String>(KeystoneError::PreviousRequestNotFinished)
        } else if l == "solana app not open on ledger device"@ || l == "no app response"@ {
            r == Ok::<KeystoneError, String>(KeystoneError::NoAppResponse)
        } else if l == "invalid json response"@ || l == "invalid json"@ {
            r == Ok::<KeystoneError, String>(KeystoneError::InvalidJson)
        } else if l == "key packet size mismatch"@ || l == "key size mismatch"@ {
            r == Ok::<KeystoneError, String>(KeystoneError::KeySizeMismatch)
        } else if l == "device not connected"@ {
            r == Ok::<KeystoneError, String>(KeystoneError::DeviceNotConnected)
        } else if l == "user rejected the request"@ || l == "user rejected"@ {
            r == Ok::<KeystoneError, String>(KeystoneError::UserRejected)
        } else if l == "invalid derivation path"@ {
            r == Ok::<KeystoneError, String>(KeystoneError::InvalidDerivationPath)
        } else if l == "transaction signing failed"@ {
            r == Ok::<KeystoneError, String>(KeystoneError::TransactionSigningFailed)
        } else if l == "message signing failed"@ {
            r == Ok::<KeystoneError, String>(KeystoneError::MessageSigningFailed)
        } else if l == "device timeout"@ {
            r == Ok::<KeystoneError, String>(KeystoneError::DeviceTimeout)
        } else if l == "invalid transaction data"@ {
            r == Ok::<KeystoneError, String>(KeystoneError::InvalidTransactionData)
        } else if l == "unsupported operation"@ {
            r == Ok::<KeystoneError, String>(KeystoneError::UnsupportedOperation)
        } else if l == "device locked"@ {
            r == Ok::<KeystoneError, String>(KeystoneError::DeviceLocked)
        } else if l == "invalid signature"@ {
            r == Ok::<KeystoneError, String>(KeystoneError::InvalidSignature)
        } else if l == "UR parsing rejected"@ {
            r == Ok::<KeystoneError, String>(KeystoneError::URParsingRejected)
        } else if seq_contains(l, "previous request"@) && seq_contains(l, "not finished"@) {
            r == Ok::<KeystoneError, String>(KeystoneError::PreviousRequestNotFinished)
        } else if seq_contains(l, "communication error"@) {
            r matches Ok(KeystoneError::CommunicationError { message }) && message@ == l
        } else if seq_contains(l, "unknown error"@) {
            r == Ok::<KeystoneError, String>(
                KeystoneError::Unknown { code: Self::spec_unknown_code(l) },
            )
        } else {
            r matches Err(m) && m@ == "Unknown Keystone error: "@ + s
        }
    }

    fn unknown_code(l: &Vec<char>) -> (res: u16)
        ensures
            res == Self::spec_unknown_code(l@),
    {
        let parts = split_chars(l, ':');
        let last = parts.len() - 1;
        let piece = trim_chars(&parts[last]);
        match parse_unsigned(&piece, 0xffff) {
            Ok(n) => n as u16,
            Err(_) => 0xffff,
        }
    }

    /// Parses an error from its text.
    pub fn from_string(s: &str) -> (res: Result<Self, String>)
        ensures
            Self::spec_from_string(s@, res),
    {
        let lower = str_to_lowercase(s);
        let l = chars_of(lower.as_str());
        if chars_eq_str(&l, "previous request is not finished") || chars_eq_str(&l, "previous request not finished") {
            Ok(KeystoneError::PreviousRequestNotFinished)
        } else if chars_eq_str(&l, "solana app not open on ledger device") || chars_eq_str(&l, "no app response") {
            Ok(KeystoneError::NoAppResponse)
        } else if chars_eq_str(&l, "invalid json response") || chars_eq_str(&l, "invalid json") {
            Ok(KeystoneError::InvalidJson)
        } else if chars_eq_str(&l, "key packet size mismatch") || chars_eq_str(&l, "key size mismatch") {
            Ok(KeystoneError::KeySizeMismatch)
        } else if chars_eq_str(&l, "device not connected") {
            Ok(KeystoneError::DeviceNotConnected)
        } else if chars_eq_str(&l, "user rejected the request") || chars_eq_str(&l, "user rejected") {
            Ok(KeystoneError::UserRejected)
        } else if chars_eq_str(&l, "invalid derivation path") {
            Ok(KeystoneError::InvalidDerivationPath)
        } else if chars_eq_str(&l, "transaction signing failed") {
            Ok(KeystoneError::TransactionSigningFailed)
        } else if chars_eq_str(&l, "message signing failed") {
            Ok(KeystoneError::MessageSigningFailed)
        } else if chars_eq_str(&l, "device timeout") {
            Ok(KeystoneError::DeviceTimeout)
        } else if chars_eq_str(&l, "invalid transaction data") {
            Ok(KeystoneError::InvalidTransactionData)
        } else if chars_eq_str(&l, "unsupported operation") {
            Ok(KeystoneError::UnsupportedOperation)
        } else if chars_eq_str(&l, "device locked") {
            Ok(KeystoneError::DeviceLocked)
        } else if chars_eq_str(&l, "invalid signature") {
            Ok(KeystoneError::InvalidSignature)
        } else if chars_eq_str(&l, "UR parsing rejected") {
            Ok(KeystoneError::URParsingRejected)
        } else if contains_str(&l, "previous request") && contains_str(&l, "not finished") {
            Ok(KeystoneError::PreviousRequestNotFinished)
        } else if contains_str(&l, "communication error") {
            Ok(KeystoneError::CommunicationError { message: lower })
        } else if contains_str(&l, "unknown error") {
            Ok(KeystoneError::Unknown { code: Self::unknown_code(&l) })
        } else {
            let mut m = String::from_str("Unknown Keystone error: ");
            m.append(s);
            Err(m)
        }
    }

    /// What an error message means, judged by its lower-case form: the first
    /// matching phrase decides, and a message with none of them is a
    /// communication error carrying the message.
    pub open spec fn spec_from_error_message(message: Seq<char>, r: KeystoneError) -> bool {
        let l = spec_str_to_lowercase(message);
        if seq_contains(l, "previous request"@) && seq_contains(l, "not finished"@) {
            r == KeystoneError::PreviousRequestNotFinished
        } else if seq_contains(l, "device not connected"@) || seq_contains(l, "connection failed"@) {
            r == KeystoneError::DeviceNotConnected
        } else if seq_contains(l, "user rejected"@) || seq_contains(l, "cancelled"@) {
            r == KeystoneError::UserRejected
        } else if seq_contains(l, "timeout"@) {
            r == KeystoneError::DeviceTimeout
        } else if seq_contains(l, "locked"@) {
            r == KeystoneError::DeviceLocked
        } else if seq_contains(l, "invalid signature"@) {
            r == KeystoneError::InvalidSignature
        } else if seq_contains(l, "invalid json"@) {
            r == KeystoneError::InvalidJson
        } else if seq_contains(l, "communication error"@) {
            r matches KeystoneError::CommunicationError { message: m } && m@ == message
        } else if seq_contains(l, "ur parsing rejected"@) {
            r == KeystoneError::URParsingRejected
        } else {
            r matches KeystoneError::CommunicationError { message: m } && m@ == message
        }
    }

    /// Classifies an error message.
    pub fn from_error_message(message: &str) -> (res: Self)
        ensures
            Self::spec_from_error_message(message@, res),
    {
        let lower = str_to_lowercase(message);
        let l = chars_of(lower.as_str());
        if contains_str(&l, "previous request") && contains_str(&l, "not finished") {
            KeystoneError::PreviousRequestNotFinished
        } else if contains_str(&l, "device not connected") || contains_str(&l, "connection failed") {
            KeystoneError::DeviceNotConnected
        } else if contains_str(&l, "user rejected") || contains_str(&l, "cancelled") {
            KeystoneError::UserRejected
        } else if contains_str(&l, "timeout") {
            KeystoneError::DeviceTimeout
        } else if contains_str(&l, "locked") {
            KeystoneError::DeviceLocked
        } else if contains_str(&l, "invalid signature") {
            KeystoneError::InvalidSignature
        } else if contains_str(&l, "invalid json") {
            KeystoneError::InvalidJson
        } else if contains_str(&l, "communication error") {
            KeystoneError::CommunicationError { message: String::from_str(message) }
        } else if contains_str(&l, "ur parsing rejected") {
            KeystoneError::URParsingRejected
        } else {
            KeystoneError::CommunicationError { message: String::from_str(message) }
        }
    }

    /// A copy of the error.
    pub fn duplicate(&self) -> (res: Self)
        ensures
            res == *self,
    {
        match self {
            KeystoneError::NoAppResponse => KeystoneError::NoAppResponse,
            KeystoneError::PreviousRequestNotFinished => KeystoneError::PreviousRequestNotFinished,
            KeystoneError::InvalidJson => KeystoneError::InvalidJson,
            KeystoneError::KeySizeMismatch => KeystoneError::KeySizeMismatch,
            KeystoneError::DeviceNotConnected => KeystoneError::DeviceNotConnected,
            KeystoneError::UserRejected => KeystoneError::UserRejected,
            KeystoneError::InvalidDerivationPath => KeystoneError::InvalidDerivationPath,
            KeystoneError::TransactionSigningFailed => KeystoneError::TransactionSigningFailed,
            KeystoneError::MessageSigningFailed => KeystoneError::MessageSigningFailed,
            KeystoneError::DeviceTimeout => KeystoneError::DeviceTimeout,
            KeystoneError::InvalidTransactionData => KeystoneError::InvalidTransactionData,
            KeystoneError::UnsupportedOperation => KeystoneError::UnsupportedOperation,
            KeystoneError::DeviceLocked => KeystoneError::DeviceLocked,
            KeystoneError::InvalidSignature => KeystoneError::InvalidSignature,
            KeystoneError::URParsingRejected => KeystoneError::URParsingRejected,
            KeystoneError::CommunicationError { message } => KeystoneError::CommunicationError {
                message: message.clone(),
            },
            KeystoneError::Unknown { code } => KeystoneError::Unknown { code: *code },
        }
    }

    pub fn is_communication_error(&self) -> (res: bool)
        ensures
            res == (self is CommunicationError),
    {
        match self {
            KeystoneError::CommunicationError { .. } => true,
            _ => false,
        }
    }
}

impl std::str::FromStr for KeystoneError {
    type Err = String;

    fn from_str(s: &str) -> (res: Result<Self, String>)
        ensures
            Self::spec_from_string(s@, res),
    {
        KeystoneError::from_string(s)
    }
}

impl HardwareWalletError for KeystoneError {
    open spec fn spec_code(&self) -> u16 {
        KeystoneError::spec_code(*self)
    }

    open spec fn spec_description(&self) -> Seq<char> {
        self.spec_message()
    }

    fn code(&self) -> (res: u16) {
        match self {
            KeystoneError::NoAppResponse => 0x6700,
            KeystoneError::PreviousRequestNotFinished => 0x6701,
            KeystoneError::InvalidJson => 0x6702,
            KeystoneError::KeySizeMismatch => 0x6703,
            KeystoneError::DeviceNotConnected => 0x6704,
            KeystoneError::UserRejected => 0x6705,
            KeystoneError::InvalidDerivationPath => 0x6706,
            KeystoneError::TransactionSigningFailed => 0x6707,
            KeystoneError::MessageSigningFailed => 0x6708,
            KeystoneError::DeviceTimeout => 0x6709,
            KeystoneError::InvalidTransactionData => 0x670A,
            KeystoneError::UnsupportedOperation => 0x670B,
            KeystoneError::DeviceLocked => 0x670C,
            KeystoneError::InvalidSignature => 0x670D,
            KeystoneError::URParsingRejected => 0x670E,
            KeystoneError::CommunicationError { .. } => 0x67FF,
            KeystoneError::Unknown { code } => *code,
        }
    }

    fn description(&self) -> (res: String) {
        self.message()
    }
}

/// Decoding the status code of an error reported by code gives the error back.
pub proof fn lemma_code_roundtrip(e: KeystoneError)
    requires
        0x6700 <= e.spec_code() <= 0x670D,
        !(e is CommunicationError),
        !(e is Unknown),
    ensures
        spec_from_code(e.spec_code() as int) == Some(e),
{
}

/// The error a status code decodes to has that status code.
pub proof fn lemma_from_code_roundtrip(n: int)
    requires
        spec_from_code(n) is Some,
    ensures
        spec_from_code(n)->0.spec_code() == n,
        0x6700 <= n <= 0x670D,
{
}


/// Reading the text of an error back gives the error, for the errors with a
/// fixed text other than `UR parsing rejected` (whose lower-case form is not
/// among the names read), given that lower-casing the text maps its ASCII
/// capitals to small letters.
pub proof fn lemma_message_reads_back(e: KeystoneError, r: Result<KeystoneError, String>)
    requires
        !(e is CommunicationError),
        !(e is Unknown),
        !(e is URParsingRejected),
        spec_str_to_lowercase(e.spec_message()) == ascii_lower(e.spec_message()),
        KeystoneError::spec_from_string(e.spec_message(), r),
    ensures
        r == Ok::<KeystoneError, String>(e),
{
    reveal_strlit("previous request is not finished");
    reveal_strlit("previous request not finished");
    reveal_strlit("solana app not open on ledger device");
    reveal_strlit("no app response");
    reveal_strlit("invalid json response");
    reveal_strlit("invalid json");
    reveal_strlit("key packet size mismatch");
    reveal_strlit("key size mismatch");
    reveal_strlit("device not connected");
    reveal_strlit("user rejected the request");
    reveal_strlit("user rejected");
    reveal_strlit("invalid derivation path");
    reveal_strlit("transaction signing failed");
    reveal_strlit("message signing failed");
    reveal_strlit("device timeout");
    reveal_strlit("invalid transaction data");
    reveal_strlit("unsupported operation");
    reveal_strlit("device locked");
    reveal_strlit("invalid signature");
    reveal_strlit("UR parsing rejected");
    match e {
        KeystoneError::NoAppResponse => {
            reveal_strlit("Solana app not open on Ledger device");
            assert(ascii_lower("Solana app not open on Ledger device"@) =~= "solana app not open on ledger device"@);
        },
        KeystoneError::PreviousRequestNotFinished => {
            reveal_strlit("Previous request not finished");
            assert(ascii_lower("Previous request not finished"@) =~= "previous request not finished"@);
        },
        KeystoneError::InvalidJson => {
            reveal_strlit("Invalid JSON response");
            assert(ascii_lower("Invalid JSON response"@) =~= "invalid json response"@);
        },
        KeystoneError::KeySizeMismatch => {
            reveal_strlit("Key packet size mismatch");
            assert(ascii_lower("Key packet size mismatch"@) =~= "key packet size mismatch"@);
        },
        KeystoneError::DeviceNotConnected => {
            reveal_strlit("Device not connected");
            assert(ascii_lower("Device not connected"@) =~= "device not connected"@);
        },
        KeystoneError::UserRejected => {
            reveal_strlit("User rejected the request");
            assert(ascii_lower("User rejected the request"@) =~= "user rejected the request"@);
        },
        KeystoneError::InvalidDerivationPath => {
            reveal_strlit("Invalid derivation path");
            assert(ascii_lower("Invalid derivation path"@) =~= "invalid derivation path"@);
        },
        KeystoneError::TransactionSigningFailed => {
            reveal_strlit("Transaction signing failed");
            assert(ascii_lower("Transaction signing failed"@) =~= "transaction signing failed"@);
        },
        KeystoneError::MessageSigningFailed => {
            reveal_strlit("Message signing failed");
            assert(ascii_lower("Message signing failed"@) =~= "message signing failed"@);
        },
        KeystoneError::DeviceTimeout => {
            reveal_strlit("Device timeout");
            assert(ascii_lower("Device timeout"@) =~= "device timeout"@);
        },
        KeystoneError::InvalidTransactionData => {
            reveal_strlit("Invalid transaction data");
            assert(ascii_lower("Invalid transaction data"@) =~= "invalid transaction data"@);
            assert("invalid transaction data"@[0] != "key packet size mismatch"@[0]);
        },
        KeystoneError::UnsupportedOperation => {
            reveal_strlit("Unsupported operation");
            assert(ascii_lower("Unsupported operation"@) =~= "unsupported operation"@);
            assert("unsupported operation"@[0] != "invalid json response"@[0]);
        },
        KeystoneError::DeviceLocked => {
            reveal_strlit("Device locked");
            assert(ascii_lower("Device locked"@) =~= "device locked"@);
            assert("device locked"@[0] != "user rejected"@[0]);
        },
        KeystoneError::InvalidSignature => {
            reveal_strlit("Invalid signature");
            assert(ascii_lower("Invalid signature"@) =~= "invalid signature"@);
            assert("invalid signature"@[0] != "key size mismatch"@[0]);
        },
        _ => {},
    }
}


/// Text in which the first character of `pat` never occurs does not contain `pat`.
proof fn lemma_absent_first_char(s: Seq<char>, pat: Seq<char>)
    requires
        pat.len() > 0,
        forall|j: int| 0 <= j < s.len() ==> s[j] != pat[0],
    ensures
        !seq_contains(s, pat),
{
    assert forall|i: int| !occurs_at(s, pat, i) by {
        if occurs_at(s, pat, i) {
            assert(s.subrange(i, i + pat.len())[0] == s[i]);
        }
    }
}

/// The lower-case text of an unknown error: `unknown error`, a colon, a
/// space and the code's digits.
pub open spec fn spec_unknown_lower(code: u16) -> Seq<char> {
    "unknown error"@ + seq![':'] + (seq![' '] + spec_decimal(code as nat))
}

proof fn lemma_unknown_lower(code: u16)
    ensures
        ascii_lower(KeystoneError::Unknown { code }.spec_message()) == spec_unknown_lower(code),
{
    let e = KeystoneError::Unknown { code };
    let d = spec_decimal(code as nat);
    reveal_strlit("Unknown error: ");
    reveal_strlit("unknown error: ");
    reveal_strlit("unknown error");
    lemma_decimal_digits(code as nat);
    assert(ascii_lower("Unknown error: "@) =~= "unknown error: "@);
    assert(ascii_lower(d) =~= d) by {
        assert forall|i: int| 0 <= i < d.len() implies ascii_lower_char(d[i]) == d[i] by {
            assert(is_digit(d[i]));
        }
    }
    assert(ascii_lower(e.spec_message()) =~= ascii_lower("Unknown error: "@) + ascii_lower(d));
    assert(spec_unknown_lower(code) =~= "unknown error: "@ + d);
}

proof fn lemma_unknown_lower_facts(code: u16)
    ensures
        spec_unknown_lower(code).len() >= 16,
        spec_unknown_lower(code)[0] == 'u',
        spec_unknown_lower(code)[1] == 'n',
        spec_unknown_lower(code)[2] == 'k',
        !seq_contains(spec_unknown_lower(code), "previous request"@),
        !seq_contains(spec_unknown_lower(code), "communication error"@),
        seq_contains(spec_unknown_lower(code), "unknown error"@),
        KeystoneError::spec_unknown_code(spec_unknown_lower(code)) == code,
{
    let d = spec_decimal(code as nat);
    let head = "unknown error"@;
    let tail = seq![' '] + d;
    let l = spec_unknown_lower(code);
    reveal_strlit("unknown error");
    reveal_strlit("previous request");
    reveal_strlit("communication error");
    lemma_decimal_digits(code as nat);
    assert forall|j: int| 0 <= j < l.len() implies l[j] != 'p' && l[j] != 'c' by {
        if j >= 15 {
            assert(l[j] == d[j - 15]);
            assert(is_digit(d[j - 15]));
        }
    }
    lemma_absent_first_char(l, "previous request"@);
    lemma_absent_first_char(l, "communication error"@);
    assert(l.subrange(0, 13) =~= head);
    assert(occurs_at(l, head, 0));
    assert forall|i: int| 0 <= i < tail.len() implies tail[i] != ':' by {
        if i >= 1 {
            assert(tail[i] == d[i - 1]);
            assert(is_digit(d[i - 1]));
        }
    }
    lemma_split_append(head, tail, ':');
    assert(spec_split(l, ':').last() == tail);
    assert(tail.drop_first() =~= d);
    assert(!is_whitespace_char(d[0]));
    assert(!is_whitespace_char(d.last()));
    assert(spec_trim_start(d) == d);
    assert(spec_trim_start(tail) == spec_trim_start(d));
    assert(spec_trim_end(d) == d);
    lemma_parse_decimal(code as nat, 0xffff);
}

/// Reading the text of an unknown error back gives the same error, its code
/// included, given that lower-casing the text maps its ASCII capitals to
/// small letters.
pub proof fn lemma_unknown_message_reads_back(code: u16, r: Result<KeystoneError, String>)
    requires
        spec_str_to_lowercase(KeystoneError::Unknown { code }.spec_message()) == ascii_lower(
            KeystoneError::Unknown { code }.spec_message(),
        ),
        KeystoneError::spec_from_string(KeystoneError::Unknown { code }.spec_message(), r),
    ensures
        r == Ok::<KeystoneError, String>(KeystoneError::Unknown { code }),
{
    lemma_unknown_lower(code);
    lemma_unknown_lower_facts(code);
    let l = spec_unknown_lower(code);
    reveal_strlit("previous request is not finished");
    reveal_strlit("previous request not finished");
    reveal_strlit("solana app not open on ledger device");
    reveal_strlit("no app response");
    reveal_strlit("invalid json response");
    reveal_strlit("invalid json");
    reveal_strlit("key packet size mismatch");
    reveal_strlit("key size mismatch");
    reveal_strlit("device not connected");
    reveal_strlit("user rejected the request");
    reveal_strlit("user rejected");
    reveal_strlit("invalid derivation path");
    reveal_strlit("transaction signing failed");
    reveal_strlit("message signing failed");
    reveal_strlit("device timeout");
    reveal_strlit("invalid transaction data");
    reveal_strlit("unsupported operation");
    reveal_strlit("device locked");
    reveal_strlit("invalid signature");
    reveal_strlit("UR parsing rejected");
}


/// Whether a message names a device error other than a communication error:
/// one of the phrases `from_error_message` looks for, in its lower-case form.
pub open spec fn spec_names_device_error(message: Seq<char>) -> bool {
    let l = spec_str_to_lowercase(message);
    ||| seq_contains(l, "previous request"@) && seq_contains(l, "not finished"@)
    ||| seq_contains(l, "device not connected"@) || seq_contains(l, "connection failed"@)
    ||| seq_contains(l, "user rejected"@) || seq_contains(l, "cancelled"@)
    ||| seq_contains(l, "timeout"@)
    ||| seq_contains(l, "locked"@)
    ||| seq_contains(l, "invalid signature"@)
    ||| seq_contains(l, "invalid json"@)
    ||| !seq_contains(l, "communication error"@) && seq_contains(l, "ur parsing rejected"@)
}

/// A message is read as a communication error exactly when it names no other
/// device error.
pub(crate) proof fn lemma_communication_error_iff(message: Seq<char>, e: KeystoneError)
    requires
        KeystoneError::spec_from_error_message(message, e),
    ensures
        e is CommunicationError <==> !spec_names_device_error(message),
{
}

/// The Keystone status-code table: each code from 0x6700 to 0x670D names
/// exactly one error, no other code names one, and each error reports its
/// own code and display text.
pub proof fn lemma_status_code_table(n: int)
    ensures
        (spec_from_code(n) == Some(KeystoneError::NoAppResponse)) <==> n == 0x6700,
        (spec_from_code(n) == Some(KeystoneError::PreviousRequestNotFinished)) <==> n == 0x6701,
        (spec_from_code(n) == Some(KeystoneError::InvalidJson)) <==> n == 0x6702,
        (spec_from_code(n) == Some(KeystoneError::KeySizeMismatch)) <==> n == 0x6703,
        (spec_from_code(n) == Some(KeystoneError::DeviceNotConnected)) <==> n == 0x6704,
        (spec_from_code(n) == Some(KeystoneError::UserRejected)) <==> n == 0x6705,
        (spec_from_code(n) == Some(KeystoneError::InvalidDerivationPath)) <==> n == 0x6706,
        (spec_from_code(n) == Some(KeystoneError::TransactionSigningFailed)) <==> n == 0x6707,
        (spec_from_code(n) == Some(KeystoneError::MessageSigningFailed)) <==> n == 0x6708,
        (spec_from_code(n) == Some(KeystoneError::DeviceTimeout)) <==> n == 0x6709,
        (spec_from_code(n) == Some(KeystoneError::InvalidTransactionData)) <==> n == 0x670A,
        (spec_from_code(n) == Some(KeystoneError::UnsupportedOperation)) <==> n == 0x670B,
        (spec_from_code(n) == Some(KeystoneError::DeviceLocked)) <==> n == 0x670C,
        (spec_from_code(n) == Some(KeystoneError::InvalidSignature)) <==> n == 0x670D,
        spec_from_code(n) is None <==> (n < 0x6700 || n > 0x670D),
        KeystoneError::NoAppResponse.spec_code() == 0x6700,
        KeystoneError::PreviousRequestNotFinished.spec_code() == 0x6701,
        KeystoneError::InvalidJson.spec_code() == 0x6702,
        KeystoneError::KeySizeMismatch.spec_code() == 0x6703,
        KeystoneError::DeviceNotConnected.spec_code() == 0x6704,
        KeystoneError::UserRejected.spec_code() == 0x6705,
        KeystoneError::InvalidDerivationPath.spec_code() == 0x6706,
        KeystoneError::TransactionSigningFailed.spec_code() == 0x6707,
        KeystoneError::MessageSigningFailed.spec_code() == 0x6708,
        KeystoneError::DeviceTimeout.spec_code() == 0x6709,
        KeystoneError::InvalidTransactionData.spec_code() == 0x670A,
        KeystoneError::UnsupportedOperation.spec_code() == 0x670B,
        KeystoneError::DeviceLocked.spec_code() == 0x670C,
        KeystoneError::InvalidSignature.spec_code() == 0x670D,
        KeystoneError::URParsingRejected.spec_code() == 0x670E,
        forall|m: String| (KeystoneError::CommunicationError { message: m }).spec_code() == 0x67FF,
        forall|c: u16| (KeystoneError::Unknown { code: c }).spec_code() == c,
        KeystoneError::NoAppResponse.spec_message() == "Solana app not open on Ledger device"@,
        KeystoneError::PreviousRequestNotFinished.spec_message() == "Previous request not finished"@,
        KeystoneError::InvalidJson.spec_message() == "Invalid JSON response"@,
        KeystoneError::KeySizeMismatch.spec_message() == "Key packet size mismatch"@,
        KeystoneError::DeviceNotConnected.spec_message() == "Device not connected"@,
        KeystoneError::UserRejected.spec_message() == "User rejected the request"@,
        KeystoneError::InvalidDerivationPath.spec_message() == "Invalid derivation path"@,
        KeystoneError::TransactionSigningFailed.spec_message() == "Transaction signing failed"@,
        KeystoneError::MessageSigningFailed.spec_message() == "Message signing failed"@,
        KeystoneError::DeviceTimeout.spec_message() == "Device timeout"@,
        KeystoneError::InvalidTransactionData.spec_message() == "Invalid transaction data"@,
        KeystoneError::UnsupportedOperation.spec_message() == "Unsupported operation"@,
        KeystoneError::DeviceLocked.spec_message() == "Device locked"@,
        KeystoneError::InvalidSignature.spec_message() == "Invalid signature"@,
        KeystoneError::URParsingRejected.spec_message() == "UR parsing rejected"@,
{
}

/// Whether the lower-case form of a message contains a phrase.
pub open spec fn spec_mentions(message: Seq<char>, phrase: Seq<char>) -> bool {
    seq_contains(spec_str_to_lowercase(message), phrase)
}

/// How `from_error_message` classifies a message: the phrases are tried in
/// order (a previous request not finished; device not connected or connection
/// failed; user rejected or cancelled; timeout; locked; invalid signature;
/// invalid json; communication error; ur parsing rejected), the first present
/// in the message's lower-case form names the error, and a message with none of
/// them, or one that mentions a communication error first, is a communication
/// error carrying the message as given.
pub proof fn lemma_error_message_phrases(message: Seq<char>, e: KeystoneError)
    requires
        KeystoneError::spec_from_error_message(message, e),
    ensures
        (e == KeystoneError::PreviousRequestNotFinished) <==> (spec_mentions(
            message,
            "previous request"@,
        ) && spec_mentions(message, "not finished"@)),
        (e == KeystoneError::DeviceNotConnected) <==> (!(spec_mentions(message, "previous request"@)
            && spec_mentions(message, "not finished"@)) && (spec_mentions(
            message,
            "device not connected"@,
        ) || spec_mentions(message, "connection failed"@))),
        (e == KeystoneError::UserRejected) <==> (!(spec_mentions(message, "previous request"@)
            && spec_mentions(message, "not finished"@)) && !spec_mentions(
            message,
            "device not connected"@,
        ) && !spec_mentions(message, "connection failed"@) && (spec_mentions(
            message,
            "user rejected"@,
        ) || spec_mentions(message, "cancelled"@))),
        (e == KeystoneError::DeviceTimeout) <==> (!(spec_mentions(message, "previous request"@)
            && spec_mentions(message, "not finished"@)) && !spec_mentions(
            message,
            "device not connected"@,
        ) && !spec_mentions(message, "connection failed"@) && !spec_mentions(
            message,
            "user rejected"@,
        ) && !spec_mentions(message, "cancelled"@) && spec_mentions(message, "timeout"@)),
        (e == KeystoneError::DeviceLocked) <==> (!(spec_mentions(message, "previous request"@)
            && spec_mentions(message, "not finished"@)) && !spec_mentions(
            message,
            "device not connected"@,
        ) && !spec_mentions(message, "connection failed"@) && !spec_mentions(
            message,
            "user rejected"@,
        ) && !spec_mentions(message, "cancelled"@) && !spec_mentions(message, "timeout"@)
            && spec_mentions(message, "locked"@)),
        (e == KeystoneError::InvalidSignature) <==> (!(spec_mentions(message, "previous request"@)
            && spec_mentions(message, "not finished"@)) && !spec_mentions(
            message,
            "device not connected"@,
        ) && !spec_mentions(message, "connection failed"@) && !spec_mentions(
            message,
            "user rejected"@,
        ) && !spec_mentions(message, "cancelled"@) && !spec_mentions(message, "timeout"@)
            && !spec_mentions(message, "locked"@) && spec_mentions(message, "invalid signature"@)),
        (e == KeystoneError::InvalidJson) <==> (!(spec_mentions(message, "previous request"@)
            && spec_mentions(message, "not finished"@)) && !spec_mentions(
            message,
            "device not connected"@,
        ) && !spec_mentions(message, "connection failed"@) && !spec_mentions(
            message,
            "user rejected"@,
        ) && !spec_mentions(message, "cancelled"@) && !spec_mentions(message, "timeout"@)
            && !spec_mentions(message, "locked"@) && !spec_mentions(message, "invalid signature"@)
            && spec_mentions(message, "invalid json"@)),
        (e == KeystoneError::URParsingRejected) <==> (!(spec_mentions(message, "previous request"@)
            && spec_mentions(message, "not finished"@)) && !spec_mentions(
            message,
            "device not connected"@,
        ) && !spec_mentions(message, "connection failed"@) && !spec_mentions(
            message,
            "user rejected"@,
        ) && !spec_mentions(message, "cancelled"@) && !spec_mentions(message, "timeout"@)
            && !spec_mentions(message, "locked"@) && !spec_mentions(message, "invalid signature"@)
            && !spec_mentions(message, "invalid json"@) && !spec_mentions(
            message,
            "communication error"@,
        ) && spec_mentions(message, "ur parsing rejected"@)),
        !(e is NoAppResponse),
        !(e is InvalidDerivationPath),
        !(e is Unknown),
        e is CommunicationError ==> e->message@ == message,
{
}

} // verus!
