//! Keystone EAPDU protocol definitions: command types, status codes,
//! request/response payloads and UR view types.
use vstd::prelude::*;

verus! {

/// Keystone EAPDU protocol header
pub const KEYSTONE_PROTOCOL_HEADER: u8 = 0x00;

/// Command types for the Keystone EAPDU protocol
#[derive(Debug, Clone, Copy, PartialEq, Eq, Structural)]
pub enum CommandType {
    EchoTest,
    ResolveUr,
    CheckLockStatus,
    ExportAddress,
    GetDeviceInfo,
    GetDeviceUsbPubkey,
}

impl CommandType {
    /// The wire code of each command.
    pub open spec fn spec_code(self) -> u32 {
        match self {
            CommandType::EchoTest => 1,
            CommandType::ResolveUr => 2,
            CommandType::CheckLockStatus => 3,
            CommandType::ExportAddress => 4,
            CommandType::GetDeviceInfo => 5,
            CommandType::GetDeviceUsbPubkey => 6,
        }
    }

    /// The command a wire code denotes; unknown codes fall back to `EchoTest`.
    pub open spec fn spec_from_code(value: u32) -> CommandType {
        if value == 2 {
            CommandType::ResolveUr
        } else if value == 3 {
            CommandType::CheckLockStatus
        } else if value == 4 {
            CommandType::ExportAddress
        } else if value == 5 {
            CommandType::GetDeviceInfo
        } else if value == 6 {
            CommandType::GetDeviceUsbPubkey
        } else {
            CommandType::EchoTest
        }
    }

    pub fn from_u32(value: u32) -> (res: Self)
        ensures
            res == Self::spec_from_code(value),
    {
        match value {
            0x00000001 => CommandType::EchoTest,
            0x00000002 => CommandType::ResolveUr,
            0x00000003 => CommandType::CheckLockStatus,
            0x00000004 => CommandType::ExportAddress,
            0x00000005 => CommandType::GetDeviceInfo,
            0x00000006 => CommandType::GetDeviceUsbPubkey,
            _ => CommandType::EchoTest,
        }
    }

    pub fn as_u32(&self) -> (res: u32)
        ensures
            res == self.spec_code(),
    {
        match self {
            CommandType::EchoTest => 0x00000001,
            CommandType::ResolveUr => 0x00000002,
            CommandType::CheckLockStatus => 0x00000003,
            CommandType::ExportAddress => 0x00000004,
            CommandType::GetDeviceInfo => 0x00000005,
            CommandType::GetDeviceUsbPubkey => 0x00000006,
        }
    }
}

/// Decoding the code of a command gives the command back.
pub proof fn lemma_command_type_code_roundtrip(c: CommandType)
    ensures
        CommandType::spec_from_code(c.spec_code()) == c,
        1 <= c.spec_code() <= 6,
{
}

/// Every code from 1 to 6 names exactly one command, whose code is that value.
pub proof fn lemma_command_type_from_code_roundtrip(v: u32)
    requires
        1 <= v <= 6,
    ensures
        CommandType::spec_from_code(v).spec_code() == v,
{
}

/// Status codes for Keystone EAPDU protocol responses
#[derive(Debug, Clone, Copy, PartialEq, Eq, Structural)]
pub enum StatusEnum {
    RspSuccessCode,
    RspFailureCode,
    PrsInvalidTotalPackets,
    PrsInvalidIndex,
    PrsParsingRejected,
    PrsParsingError,
    PrsParsingDisallowed,
    PrsParsingUnmatched,
    PrsParsingMismatchedWallet,
    PrsParsingVerifyPasswordError,
    PrsExportAddressUnsupportedChain,
    PrsExportAddressInvalidParams,
    PrsExportAddressError,
    PrsExportAddressDisallowed,
    PrsExportAddressRejected,
    PrsExportAddressBusy,
    PrsExportHardwareCallSuccess,
}

impl StatusEnum {
    /// The variant's name, as `Debug` prints it.
    pub open spec fn spec_debug_name(self) -> Seq<char> {
        match self {
            StatusEnum::RspSuccessCode => "RspSuccessCode"@,
            StatusEnum::RspFailureCode => "RspFailureCode"@,
            StatusEnum::PrsInvalidTotalPackets => "PrsInvalidTotalPackets"@,
            StatusEnum::PrsInvalidIndex => "PrsInvalidIndex"@,
            StatusEnum::PrsParsingRejected => "PrsParsingRejected"@,
            StatusEnum::PrsParsingError => "PrsParsingError"@,
            StatusEnum::PrsParsingDisallowed => "PrsParsingDisallowed"@,
            StatusEnum::PrsParsingUnmatched => "PrsParsingUnmatched"@,
            StatusEnum::PrsParsingMismatchedWallet => "PrsParsingMismatchedWallet"@,
            StatusEnum::PrsParsingVerifyPasswordError => "PrsParsingVerifyPasswordError"@,
            StatusEnum::PrsExportAddressUnsupportedChain => "PrsExportAddressUnsupportedChain"@,
            StatusEnum::PrsExportAddressInvalidParams => "PrsExportAddressInvalidParams"@,
            StatusEnum::PrsExportAddressError => "PrsExportAddressError"@,
            StatusEnum::PrsExportAddressDisallowed => "PrsExportAddressDisallowed"@,
            StatusEnum::PrsExportAddressRejected => "PrsExportAddressRejected"@,
            StatusEnum::PrsExportAddressBusy => "PrsExportAddressBusy"@,
            StatusEnum::PrsExportHardwareCallSuccess => "PrsExportHardwareCallSuccess"@,
        }
    }

    pub fn debug_name(&self) -> (res: &'static str)
        ensures
            res@ == self.spec_debug_name(),
    {
        match self {
            StatusEnum::RspSuccessCode => "RspSuccessCode",
            StatusEnum::RspFailureCode => "RspFailureCode",
            StatusEnum::PrsInvalidTotalPackets => "PrsInvalidTotalPackets",
            StatusEnum::PrsInvalidIndex => "PrsInvalidIndex",
            StatusEnum::PrsParsingRejected => "PrsParsingRejected",
            StatusEnum::PrsParsingError => "PrsParsingError",
            StatusEnum::PrsParsingDisallowed => "PrsParsingDisallowed",
            StatusEnum::PrsParsingUnmatched => "PrsParsingUnmatched",
            StatusEnum::PrsParsingMismatchedWallet => "PrsParsingMismatchedWallet",
            StatusEnum::PrsParsingVerifyPasswordError => "PrsParsingVerifyPasswordError",
            StatusEnum::PrsExportAddressUnsupportedChain => "PrsExportAddressUnsupportedChain",
            StatusEnum::PrsExportAddressInvalidParams => "PrsExportAddressInvalidParams",
            StatusEnum::PrsExportAddressError => "PrsExportAddressError",
            StatusEnum::PrsExportAddressDisallowed => "PrsExportAddressDisallowed",
            StatusEnum::PrsExportAddressRejected => "PrsExportAddressRejected",
            StatusEnum::PrsExportAddressBusy => "PrsExportAddressBusy",
            StatusEnum::PrsExportHardwareCallSuccess => "PrsExportHardwareCallSuccess",
        }
    }
    /// The wire code of each variant.
    pub open spec fn spec_code(self) -> u32 {
        match self {
            StatusEnum::RspSuccessCode => 0,
            StatusEnum::RspFailureCode => 1,
            StatusEnum::PrsInvalidTotalPackets => 2,
            StatusEnum::PrsInvalidIndex => 3,
            StatusEnum::PrsParsingRejected => 4,
            StatusEnum::PrsParsingError => 5,
            StatusEnum::PrsParsingDisallowed => 6,
            StatusEnum::PrsParsingUnmatched => 7,
            StatusEnum::PrsParsingMismatchedWallet => 8,
            StatusEnum::PrsParsingVerifyPasswordError => 9,
            StatusEnum::PrsExportAddressUnsupportedChain => 10,
            StatusEnum::PrsExportAddressInvalidParams => 11,
            StatusEnum::PrsExportAddressError => 12,
            StatusEnum::PrsExportAddressDisallowed => 13,
            StatusEnum::PrsExportAddressRejected => 14,
            StatusEnum::PrsExportAddressBusy => 15,
            StatusEnum::PrsExportHardwareCallSuccess => 16,
        }
    }

    /// The variant a wire code denotes; unknown codes fall back to `RspFailureCode`.
    pub open spec fn spec_from_code(value: u32) -> StatusEnum {
        if value == 0 {
            StatusEnum::RspSuccessCode
        } else if value == 1 {
            StatusEnum::RspFailureCode
        } else if value == 2 {
            StatusEnum::PrsInvalidTotalPackets
        } else if value == 3 {
            StatusEnum::PrsInvalidIndex
        } else if value == 4 {
            StatusEnum::PrsParsingRejected
        } else if value == 5 {
            StatusEnum::PrsParsingError
        } else if value == 6 {
            StatusEnum::PrsParsingDisallowed
        } else if value == 7 {
            StatusEnum::PrsParsingUnmatched
        } else if value == 8 {
            StatusEnum::PrsParsingMismatchedWallet
        } else if value == 9 {
            StatusEnum::PrsParsingVerifyPasswordError
        } else if value == 10 {
            StatusEnum::PrsExportAddressUnsupportedChain
        } else if value == 11 {
            StatusEnum::PrsExportAddressInvalidParams
        } else if value == 12 {
            StatusEnum::PrsExportAddressError
        } else if value == 13 {
            StatusEnum::PrsExportAddressDisallowed
        } else if value == 14 {
            StatusEnum::PrsExportAddressRejected
        } else if value == 15 {
            StatusEnum::PrsExportAddressBusy
        } else if value == 16 {
            StatusEnum::PrsExportHardwareCallSuccess
        } else {
            StatusEnum::RspFailureCode
        }
    }

    pub fn from_u32(value: u32) -> (res: Self)
        ensures
            res == Self::spec_from_code(value),
    {
        match value {
            0x00000000 => StatusEnum::RspSuccessCode,
            0x00000001 => StatusEnum::RspFailureCode,
            0x00000002 => StatusEnum::PrsInvalidTotalPackets,
            0x00000003 => StatusEnum::PrsInvalidIndex,
            0x00000004 => StatusEnum::PrsParsingRejected,
            0x00000005 => StatusEnum::PrsParsingError,
            0x00000006 => StatusEnum::PrsParsingDisallowed,
            0x00000007 => StatusEnum::PrsParsingUnmatched,
            0x00000008 => StatusEnum::PrsParsingMismatchedWallet,
            0x00000009 => StatusEnum::PrsParsingVerifyPasswordError,
            0x0000000A => StatusEnum::PrsExportAddressUnsupportedChain,
            0x0000000B => StatusEnum::PrsExportAddressInvalidParams,
            0x0000000C => StatusEnum::PrsExportAddressError,
            0x0000000D => StatusEnum::PrsExportAddressDisallowed,
            0x0000000E => StatusEnum::PrsExportAddressRejected,
            0x0000000F => StatusEnum::PrsExportAddressBusy,
            0x00000010 => StatusEnum::PrsExportHardwareCallSuccess,
            _ => StatusEnum::RspFailureCode,
        }
    }

    pub fn as_u32(&self) -> (res: u32)
        ensures
            res == self.spec_code(),
    {
        match self {
            StatusEnum::RspSuccessCode => 0x00000000,
            StatusEnum::RspFailureCode => 0x00000001,
            StatusEnum::PrsInvalidTotalPackets => 0x00000002,
            StatusEnum::PrsInvalidIndex => 0x00000003,
            StatusEnum::PrsParsingRejected => 0x00000004,
            StatusEnum::PrsParsingError => 0x00000005,
            StatusEnum::PrsParsingDisallowed => 0x00000006,
            StatusEnum::PrsParsingUnmatched => 0x00000007,
            StatusEnum::PrsParsingMismatchedWallet => 0x00000008,
            StatusEnum::PrsParsingVerifyPasswordError => 0x00000009,
            StatusEnum::PrsExportAddressUnsupportedChain => 0x0000000A,
            StatusEnum::PrsExportAddressInvalidParams => 0x0000000B,
            StatusEnum::PrsExportAddressError => 0x0000000C,
            StatusEnum::PrsExportAddressDisallowed => 0x0000000D,
            StatusEnum::PrsExportAddressRejected => 0x0000000E,
            StatusEnum::PrsExportAddressBusy => 0x0000000F,
            StatusEnum::PrsExportHardwareCallSuccess => 0x00000010,
        }
    }
}

/// Decoding the code of a `StatusEnum` gives the same variant back.
pub proof fn lemma_status_enum_code_roundtrip(s: StatusEnum)
    ensures
        StatusEnum::spec_from_code(s.spec_code()) == s,
        s.spec_code() < 17,
{
}

/// Every code below 17 names the variant whose code it is.
pub proof fn lemma_status_enum_from_code_roundtrip(v: u32)
    requires
        v < 17,
    ensures
        StatusEnum::spec_from_code(v).spec_code() == v,
{
}

/// UR (Uniform Resource) call types for Keystone
#[derive(Debug, Clone, Copy, PartialEq, Eq, Structural)]
pub enum UrType {
    QrHardwareCall,
    QrNormalCall,
}

impl UrType {
    /// The wire code of each variant.
    pub open spec fn spec_code(self) -> u32 {
        match self {
            UrType::QrHardwareCall => 0,
            UrType::QrNormalCall => 1,
        }
    }

    /// The variant a wire code denotes; unknown codes fall back to `QrNormalCall`.
    pub open spec fn spec_from_code(value: u32) -> UrType {
        if value == 0 {
            UrType::QrHardwareCall
        } else if value == 1 {
            UrType::QrNormalCall
        } else {
            UrType::QrNormalCall
        }
    }

    pub fn from_u32(value: u32) -> (res: Self)
        ensures
            res == Self::spec_from_code(value),
    {
        match value {
            0 => UrType::QrHardwareCall,
            1 => UrType::QrNormalCall,
            _ => UrType::QrNormalCall,
        }
    }

    pub fn as_u32(&self) -> (res: u32)
        ensures
            res == self.spec_code(),
    {
        match self {
            UrType::QrHardwareCall => 0,
            UrType::QrNormalCall => 1,
        }
    }
}

/// Decoding the code of a `UrType` gives the same variant back.
pub proof fn lemma_ur_type_code_roundtrip(s: UrType)
    ensures
        UrType::spec_from_code(s.spec_code()) == s,
        s.spec_code() < 2,
{
}

/// Every code below 2 names the variant whose code it is.
pub proof fn lemma_ur_type_from_code_roundtrip(v: u32)
    requires
        v < 2,
    ensures
        UrType::spec_from_code(v).spec_code() == v,
{
}

/// UR view types
#[derive(Debug, Clone, Copy, PartialEq, Eq, Structural)]
pub enum UrViewType {
    CryptoAccount,
    CryptoOutput,
    CryptoPSBT,
    CryptoSignRequest,
    CryptoKeypath,
    CryptoCoin,
    CryptoSeed,
    CryptoHDKey,
    CryptoMultiKey,
    CryptoECKey,
    CryptoAddress,
    CryptoSignature,
    CryptoTransaction,
}

impl UrViewType {
    /// The wire code of each variant.
    pub open spec fn spec_code(self) -> u32 {
        match self {
            UrViewType::CryptoAccount => 0,
            UrViewType::CryptoOutput => 1,
            UrViewType::CryptoPSBT => 2,
            UrViewType::CryptoSignRequest => 3,
            UrViewType::CryptoKeypath => 4,
            UrViewType::CryptoCoin => 5,
            UrViewType::CryptoSeed => 6,
            UrViewType::CryptoHDKey => 7,
            UrViewType::CryptoMultiKey => 8,
            UrViewType::CryptoECKey => 9,
            UrViewType::CryptoAddress => 10,
            UrViewType::CryptoSignature => 11,
            UrViewType::CryptoTransaction => 12,
        }
    }

    /// The variant a wire code denotes; unknown codes fall back to `CryptoAccount`.
    pub open spec fn spec_from_code(value: u32) -> UrViewType {
        if value == 0 {
            UrViewType::CryptoAccount
        } else if value == 1 {
            UrViewType::CryptoOutput
        } else if value == 2 {
            UrViewType::CryptoPSBT
        } else if value == 3 {
            UrViewType::CryptoSignRequest
        } else if value == 4 {
            UrViewType::CryptoKeypath
        } else if value == 5 {
            UrViewType::CryptoCoin
        } else if value == 6 {
            UrViewType::CryptoSeed
        } else if value == 7 {
            UrViewType::CryptoHDKey
        } else if value == 8 {
            UrViewType::CryptoMultiKey
        } else if value == 9 {
            UrViewType::CryptoECKey
        } else if value == 10 {
            UrViewType::CryptoAddress
        } else if value == 11 {
            UrViewType::CryptoSignature
        } else if value == 12 {
            UrViewType::CryptoTransaction
        } else {
            UrViewType::CryptoAccount
        }
    }

    pub fn from_u32(value: u32) -> (res: Self)
        ensures
            res == Self::spec_from_code(value),
    {
        match value {
            0 => UrViewType::CryptoAccount,
            1 => UrViewType::CryptoOutput,
            2 => UrViewType::CryptoPSBT,
            3 => UrViewType::CryptoSignRequest,
            4 => UrViewType::CryptoKeypath,
            5 => UrViewType::CryptoCoin,
            6 => UrViewType::CryptoSeed,
            7 => UrViewType::CryptoHDKey,
            8 => UrViewType::CryptoMultiKey,
            9 => UrViewType::CryptoECKey,
            10 => UrViewType::CryptoAddress,
            11 => UrViewType::CryptoSignature,
            12 => UrViewType::CryptoTransaction,
            _ => UrViewType::CryptoAccount,
        }
    }

    pub fn as_u32(&self) -> (res: u32)
        ensures
            res == self.spec_code(),
    {
        match self {
            UrViewType::CryptoAccount => 0,
            UrViewType::CryptoOutput => 1,
            UrViewType::CryptoPSBT => 2,
            UrViewType::CryptoSignRequest => 3,
            UrViewType::CryptoKeypath => 4,
            UrViewType::CryptoCoin => 5,
            UrViewType::CryptoSeed => 6,
            UrViewType::CryptoHDKey => 7,
            UrViewType::CryptoMultiKey => 8,
            UrViewType::CryptoECKey => 9,
            UrViewType::CryptoAddress => 10,
            UrViewType::CryptoSignature => 11,
            UrViewType::CryptoTransaction => 12,
        }
    }
}

/// Decoding the code of a `UrViewType` gives the same variant back.
pub proof fn lemma_ur_view_type_code_roundtrip(s: UrViewType)
    ensures
        UrViewType::spec_from_code(s.spec_code()) == s,
        s.spec_code() < 13,
{
}

/// Every code below 13 names the variant whose code it is.
pub proof fn lemma_ur_view_type_from_code_roundtrip(v: u32)
    requires
        v < 13,
    ensures
        UrViewType::spec_from_code(v).spec_code() == v,
{
}

/// EAPDU request payload structure
#[derive(Debug, Clone)]
pub struct EAPDURequestPayload {
    pub cla: u8,
    pub data: Vec<u8>,
    pub data_len: u32,
    pub request_id: u16,
    pub command_type: CommandType,
}

/// EAPDU response payload structure
#[derive(Debug, Clone)]
pub struct EAPDUResponsePayload {
    pub cla: u8,
    pub data: Vec<u8>,
    pub data_len: u32,
    pub status: StatusEnum,
    pub request_id: u16,
    pub command_type: CommandType,
}

/// Constants for protocol parsing
pub const MAX_PACKETS: usize = 200;

pub const MAX_PACKETS_LENGTH: usize = 64;

pub const MAX_EAPDU_DATA_SIZE: usize = MAX_PACKETS_LENGTH - 9;

pub const MAX_EAPDU_RESPONSE_DATA_SIZE: usize = MAX_PACKETS_LENGTH - 9 - 2;

/// Request ID constants
pub const REQUEST_ID_IDLE: u16 = 0xFFFF;

/// Error codes
pub const ERROR_CODE_SUCCESS: u32 = 0;

pub const ERROR_CODE_FAILURE: u32 = 1;

pub const ERROR_CODE_INVALID_PARAMS: u32 = 2;

pub const ERROR_CODE_DEVICE_LOCKED: u32 = 3;

pub const ERROR_CODE_OPERATION_REJECTED: u32 = 4;

pub const ERROR_CODE_UNSUPPORTED_OPERATION: u32 = 5;

/// The wire table of response statuses: each code from 0x00 to 0x10 denotes
/// its documented status (0x0C an address export error, 0x0D an address
/// export the device disallows, ...), any larger code falls back to a failure,
/// and each status carries its code and its name.
pub proof fn lemma_status_wire_table(v: u32)
    ensures
        (StatusEnum::spec_from_code(v) == StatusEnum::RspSuccessCode) <==> v == 0x00,
        (StatusEnum::spec_from_code(v) == StatusEnum::RspFailureCode) <==> (v == 0x01 || v > 0x10),
        (StatusEnum::spec_from_code(v) == StatusEnum::PrsInvalidTotalPackets) <==> v == 0x02,
        (StatusEnum::spec_from_code(v) == StatusEnum::PrsInvalidIndex) <==> v == 0x03,
        (StatusEnum::spec_from_code(v) == StatusEnum::PrsParsingRejected) <==> v == 0x04,
        (StatusEnum::spec_from_code(v) == StatusEnum::PrsParsingError) <==> v == 0x05,
        (StatusEnum::spec_from_code(v) == StatusEnum::PrsParsingDisallowed) <==> v == 0x06,
        (StatusEnum::spec_from_code(v) == StatusEnum::PrsParsingUnmatched) <==> v == 0x07,
        (StatusEnum::spec_from_code(v) == StatusEnum::PrsParsingMismatchedWallet) <==> v == 0x08,
        (StatusEnum::spec_from_code(v) == StatusEnum::PrsParsingVerifyPasswordError) <==> v == 0x09,
        (StatusEnum::spec_from_code(v) == StatusEnum::PrsExportAddressUnsupportedChain) <==> v == 0x0A,
        (StatusEnum::spec_from_code(v) == StatusEnum::PrsExportAddressInvalidParams) <==> v == 0x0B,
        (StatusEnum::spec_from_code(v) == StatusEnum::PrsExportAddressError) <==> v == 0x0C,
        (StatusEnum::spec_from_code(v) == StatusEnum::PrsExportAddressDisallowed) <==> v == 0x0D,
        (StatusEnum::spec_from_code(v) == StatusEnum::PrsExportAddressRejected) <==> v == 0x0E,
        (StatusEnum::spec_from_code(v) == StatusEnum::PrsExportAddressBusy) <==> v == 0x0F,
        (StatusEnum::spec_from_code(v) == StatusEnum::PrsExportHardwareCallSuccess) <==> v == 0x10,
        StatusEnum::RspSuccessCode.spec_code() == 0x00,
        StatusEnum::RspFailureCode.spec_code() == 0x01,
        StatusEnum::PrsInvalidTotalPackets.spec_code() == 0x02,
        StatusEnum::PrsInvalidIndex.spec_code() == 0x03,
        StatusEnum::PrsParsingRejected.spec_code() == 0x04,
        StatusEnum::PrsParsingError.spec_code() == 0x05,
        StatusEnum::PrsParsingDisallowed.spec_code() == 0x06,
        StatusEnum::PrsParsingUnmatched.spec_code() == 0x07,
        StatusEnum::PrsParsingMismatchedWallet.spec_code() == 0x08,
        StatusEnum::PrsParsingVerifyPasswordError.spec_code() == 0x09,
        StatusEnum::PrsExportAddressUnsupportedChain.spec_code() == 0x0A,
        StatusEnum::PrsExportAddressInvalidParams.spec_code() == 0x0B,
        StatusEnum::PrsExportAddressError.spec_code() == 0x0C,
        StatusEnum::PrsExportAddressDisallowed.spec_code() == 0x0D,
        StatusEnum::PrsExportAddressRejected.spec_code() == 0x0E,
        StatusEnum::PrsExportAddressBusy.spec_code() == 0x0F,
        StatusEnum::PrsExportHardwareCallSuccess.spec_code() == 0x10,
        StatusEnum::RspSuccessCode.spec_debug_name() == "RspSuccessCode"@,
        StatusEnum::RspFailureCode.spec_debug_name() == "RspFailureCode"@,
        StatusEnum::PrsInvalidTotalPackets.spec_debug_name() == "PrsInvalidTotalPackets"@,
        StatusEnum::PrsInvalidIndex.spec_debug_name() == "PrsInvalidIndex"@,
        StatusEnum::PrsParsingRejected.spec_debug_name() == "PrsParsingRejected"@,
        StatusEnum::PrsParsingError.spec_debug_name() == "PrsParsingError"@,
        StatusEnum::PrsParsingDisallowed.spec_debug_name() == "PrsParsingDisallowed"@,
        StatusEnum::PrsParsingUnmatched.spec_debug_name() == "PrsParsingUnmatched"@,
        StatusEnum::PrsParsingMismatchedWallet.spec_debug_name() == "PrsParsingMismatchedWallet"@,
        StatusEnum::PrsParsingVerifyPasswordError.spec_debug_name() == "PrsParsingVerifyPasswordError"@,
        StatusEnum::PrsExportAddressUnsupportedChain.spec_debug_name() == "PrsExportAddressUnsupportedChain"@,
        StatusEnum::PrsExportAddressInvalidParams.spec_debug_name() == "PrsExportAddressInvalidParams"@,
        StatusEnum::PrsExportAddressError.spec_debug_name() == "PrsExportAddressError"@,
        StatusEnum::PrsExportAddressDisallowed.spec_debug_name() == "PrsExportAddressDisallowed"@,
        StatusEnum::PrsExportAddressRejected.spec_debug_name() == "PrsExportAddressRejected"@,
        StatusEnum::PrsExportAddressBusy.spec_debug_name() == "PrsExportAddressBusy"@,
        StatusEnum::PrsExportHardwareCallSuccess.spec_debug_name() == "PrsExportHardwareCallSuccess"@,
{
}

/// The wire table of commands: each code from 0x01 to 0x06 denotes its
/// documented command, any other code falls back to the echo test, and each
/// command carries its code.
pub proof fn lemma_command_wire_table(v: u32)
    ensures
        (CommandType::spec_from_code(v) == CommandType::EchoTest) <==> (v == 0x01 || v == 0 || v > 0x06),
        (CommandType::spec_from_code(v) == CommandType::ResolveUr) <==> v == 0x02,
        (CommandType::spec_from_code(v) == CommandType::CheckLockStatus) <==> v == 0x03,
        (CommandType::spec_from_code(v) == CommandType::ExportAddress) <==> v == 0x04,
        (CommandType::spec_from_code(v) == CommandType::GetDeviceInfo) <==> v == 0x05,
        (CommandType::spec_from_code(v) == CommandType::GetDeviceUsbPubkey) <==> v == 0x06,
        CommandType::EchoTest.spec_code() == 0x01,
        CommandType::ResolveUr.spec_code() == 0x02,
        CommandType::CheckLockStatus.spec_code() == 0x03,
        CommandType::ExportAddress.spec_code() == 0x04,
        CommandType::GetDeviceInfo.spec_code() == 0x05,
        CommandType::GetDeviceUsbPubkey.spec_code() == 0x06,
{
}

/// The wire table of UR call types: 0 is a hardware call, every other code a
/// normal call; and the wire table of UR view types: each code from 0 to 12
/// denotes its documented view type, any larger code falls back to an account.
pub proof fn lemma_ur_type_wire_tables(v: u32)
    ensures
        (UrType::spec_from_code(v) == UrType::QrHardwareCall) <==> v == 0,
        (UrType::spec_from_code(v) == UrType::QrNormalCall) <==> v != 0,
        UrType::QrHardwareCall.spec_code() == 0,
        UrType::QrNormalCall.spec_code() == 1,
        (UrViewType::spec_from_code(v) == UrViewType::CryptoAccount) <==> (v == 0 || v > 12),
        (UrViewType::spec_from_code(v) == UrViewType::CryptoOutput) <==> v == 1,
        (UrViewType::spec_from_code(v) == UrViewType::CryptoPSBT) <==> v == 2,
        (UrViewType::spec_from_code(v) == UrViewType::CryptoSignRequest) <==> v == 3,
        (UrViewType::spec_from_code(v) == UrViewType::CryptoKeypath) <==> v == 4,
        (UrViewType::spec_from_code(v) == UrViewType::CryptoCoin) <==> v == 5,
        (UrViewType::spec_from_code(v) == UrViewType::CryptoSeed) <==> v == 6,
        (UrViewType::spec_from_code(v) == UrViewType::CryptoHDKey) <==> v == 7,
        (UrViewType::spec_from_code(v) == UrViewType::CryptoMultiKey) <==> v == 8,
        (UrViewType::spec_from_code(v) == UrViewType::CryptoECKey) <==> v == 9,
        (UrViewType::spec_from_code(v) == UrViewType::CryptoAddress) <==> v == 10,
        (UrViewType::spec_from_code(v) == UrViewType::CryptoSignature) <==> v == 11,
        (UrViewType::spec_from_code(v) == UrViewType::CryptoTransaction) <==> v == 12,
        UrViewType::CryptoAccount.spec_code() == 0,
        UrViewType::CryptoOutput.spec_code() == 1,
        UrViewType::CryptoPSBT.spec_code() == 2,
        UrViewType::CryptoSignRequest.spec_code() == 3,
        UrViewType::CryptoKeypath.spec_code() == 4,
        UrViewType::CryptoCoin.spec_code() == 5,
        UrViewType::CryptoSeed.spec_code() == 6,
        UrViewType::CryptoHDKey.spec_code() == 7,
        UrViewType::CryptoMultiKey.spec_code() == 8,
        UrViewType::CryptoECKey.spec_code() == 9,
        UrViewType::CryptoAddress.spec_code() == 10,
        UrViewType::CryptoSignature.spec_code() == 11,
        UrViewType::CryptoTransaction.spec_code() == 12,
{
}

} // verus!
