//! The printer's command set: request codes, the response code each request is
//! answered with, and the requests themselves.

use vstd::prelude::*;

verus! {

/// Keys of the values that `GetInfo` can ask for.
#[derive(Debug, Clone, Copy, PartialEq, Eq, Structural)]
pub enum InfoEnum {
    Density,
    PrintSpeed,
    LabelType,
    LanguageType,
    AutoShutdownTime,
    DeviceType,
    SoftVersion,
    Battery,
    DeviceSerial,
    HardVersion,
}

impl InfoEnum {
    /// The key as it travels in the payload of `GetInfo`.
    pub open spec fn spec_code(self) -> u8 {
        match self {
            InfoEnum::Density => 1,
            InfoEnum::PrintSpeed => 2,
            InfoEnum::LabelType => 3,
            InfoEnum::LanguageType => 6,
            InfoEnum::AutoShutdownTime => 7,
            InfoEnum::DeviceType => 8,
            InfoEnum::SoftVersion => 9,
            InfoEnum::Battery => 10,
            InfoEnum::DeviceSerial => 11,
            InfoEnum::HardVersion => 12,
        }
    }

    /// The key as it travels in the payload of `GetInfo`.
    #[verifier::when_used_as_spec(spec_code)]
    pub fn code(self) -> (code: u8)
        ensures
            code == self.spec_code(),
    {
        match self {
            InfoEnum::Density => 1,
            InfoEnum::PrintSpeed => 2,
            InfoEnum::LabelType => 3,
            InfoEnum::LanguageType => 6,
            InfoEnum::AutoShutdownTime => 7,
            InfoEnum::DeviceType => 8,
            InfoEnum::SoftVersion => 9,
            InfoEnum::Battery => 10,
            InfoEnum::DeviceSerial => 11,
            InfoEnum::HardVersion => 12,
        }
    }
}

/// The requests a session sends.
#[derive(Debug, Clone, Copy, PartialEq, Eq, Structural)]
pub enum RequestCodeEnum {
    GetInfo,
    GetRfid,
    Heartbeat,
    SetLabelType,
    SetLabelDensity,
    StartPrint,
    EndPrint,
    StartPagePrint,
    EndPagePrint,
    AllowPrintClear,
    SetDimension,
    SetQuantity,
    GetPrintStatus,
}

impl RequestCodeEnum {
    /// The command byte of the request.
    pub open spec fn spec_code(self) -> u8 {
        match self {
            RequestCodeEnum::GetInfo => 0x40,
            RequestCodeEnum::GetRfid => 0x1A,
            RequestCodeEnum::Heartbeat => 0xDC,
            RequestCodeEnum::SetLabelType => 0x23,
            RequestCodeEnum::SetLabelDensity => 0x21,
            RequestCodeEnum::StartPrint => 0x01,
            RequestCodeEnum::EndPrint => 0xF3,
            RequestCodeEnum::StartPagePrint => 0x03,
            RequestCodeEnum::EndPagePrint => 0xE3,
            RequestCodeEnum::AllowPrintClear => 0x20,
            RequestCodeEnum::SetDimension => 0x13,
            RequestCodeEnum::SetQuantity => 0x15,
            RequestCodeEnum::GetPrintStatus => 0xA3,
        }
    }

    /// The command byte of the request.
    #[verifier::when_used_as_spec(spec_code)]
    pub fn code(self) -> (code: u8)
        ensures
            code == self.spec_code(),
    {
        match self {
            RequestCodeEnum::GetInfo => 0x40,
            RequestCodeEnum::GetRfid => 0x1A,
            RequestCodeEnum::Heartbeat => 0xDC,
            RequestCodeEnum::SetLabelType => 0x23,
            RequestCodeEnum::SetLabelDensity => 0x21,
            RequestCodeEnum::StartPrint => 0x01,
            RequestCodeEnum::EndPrint => 0xF3,
            RequestCodeEnum::StartPagePrint => 0x03,
            RequestCodeEnum::EndPagePrint => 0xE3,
            RequestCodeEnum::AllowPrintClear => 0x20,
            RequestCodeEnum::SetDimension => 0x13,
            RequestCodeEnum::SetQuantity => 0x15,
            RequestCodeEnum::GetPrintStatus => 0xA3,
        }
    }

    /// How far above the request's code the code of its response lies; `None` for a
    /// request whose response nobody waits for.
    pub open spec fn spec_response_offset(self) -> Option<u8> {
        match self {
            RequestCodeEnum::GetInfo => Some(0u8),
            RequestCodeEnum::GetRfid => Some(1u8),
            RequestCodeEnum::Heartbeat => Some(1u8),
            RequestCodeEnum::SetLabelType => Some(16u8),
            RequestCodeEnum::SetLabelDensity => Some(16u8),
            RequestCodeEnum::StartPrint => Some(1u8),
            RequestCodeEnum::EndPrint => Some(1u8),
            RequestCodeEnum::StartPagePrint => Some(1u8),
            RequestCodeEnum::EndPagePrint => Some(1u8),
            RequestCodeEnum::AllowPrintClear => Some(16u8),
            RequestCodeEnum::SetDimension => None,
            RequestCodeEnum::SetQuantity => Some(1u8),
            RequestCodeEnum::GetPrintStatus => Some(16u8),
        }
    }

    /// How far above the request's code the code of its response lies; `None` for a
    /// request whose response nobody waits for.
    #[verifier::when_used_as_spec(spec_response_offset)]
    pub fn response_offset(self) -> (offset: Option<u8>)
        ensures
            offset == self.spec_response_offset(),
            offset is Some ==> self.spec_code() + offset->Some_0 <= u8::MAX,
    {
        match self {
            RequestCodeEnum::GetInfo => Some(0),
            RequestCodeEnum::GetRfid => Some(1),
            RequestCodeEnum::Heartbeat => Some(1),
            RequestCodeEnum::SetLabelType => Some(16),
            RequestCodeEnum::SetLabelDensity => Some(16),
            RequestCodeEnum::StartPrint => Some(1),
            RequestCodeEnum::EndPrint => Some(1),
            RequestCodeEnum::StartPagePrint => Some(1),
            RequestCodeEnum::EndPagePrint => Some(1),
            RequestCodeEnum::AllowPrintClear => Some(16),
            RequestCodeEnum::SetDimension => None,
            RequestCodeEnum::SetQuantity => Some(1),
            RequestCodeEnum::GetPrintStatus => Some(16),
        }
    }
}

/// USB vendor number of the printer.
pub const USB_VENDOR_ID: u16 = 0x3513;

/// USB bulk endpoint that takes the frames for the printer.
pub const USB_ENDPOINT_OUT: u8 = 0x01;

/// USB bulk endpoint that brings the frames of the printer.
pub const USB_ENDPOINT_IN: u8 = 0x81;

/// Speed of the serial link to the printer, in baud.
pub const SERIAL_BAUD: u32 = 115_200;

/// Longest time one call of the transport blocks, in milliseconds.
pub const TRANSPORT_TIMEOUT_MILLIS: u64 = 1_000;

/// Most bytes taken from one receive call.
pub const RECEIVE_BUFFER: usize = 1024;

/// Command byte of one bitmap row; rows are never answered.
pub const PRINT_BITMAP_ROW: u8 = 0x85;

/// Command byte that sets rows, columns and copies of a page; it is not answered.
pub const SET_PAGE_SIZE: u8 = 0x13;

/// Commands by name, as they appear in a frame's command byte.
#[derive(Debug, Clone, Copy, PartialEq, Eq, Structural)]
pub enum RequestCommandId {
    Invalid,
    Connect,
    CancelPrint,
    Heartbeat,
    PageEnd,
    PageStart,
    PrintBitmapRow,
    PrintBitmapRowIndexed,
    PrintEmptyRow,
    PrintEnd,
    PrinterInfo,
    PrintStart,
    PrintStatus,
    SetDensity,
    SetLabelType,
    SetPageSize,
}

impl RequestCommandId {
    /// The command byte; `Invalid` has none and is given `0xFF`.
    pub open spec fn spec_code(self) -> u8 {
        match self {
            RequestCommandId::Invalid => 0xFF,
            RequestCommandId::Connect => 0xC1,
            RequestCommandId::CancelPrint => 0xDA,
            RequestCommandId::Heartbeat => 0xDC,
            RequestCommandId::PageEnd => 0xE3,
            RequestCommandId::PageStart => 0x03,
            RequestCommandId::PrintBitmapRow => 0x85,
            RequestCommandId::PrintBitmapRowIndexed => 0x83,
            RequestCommandId::PrintEmptyRow => 0x84,
            RequestCommandId::PrintEnd => 0xF3,
            RequestCommandId::PrinterInfo => 0x40,
            RequestCommandId::PrintStart => 0x01,
            RequestCommandId::PrintStatus => 0xA3,
            RequestCommandId::SetDensity => 0x21,
            RequestCommandId::SetLabelType => 0x23,
            RequestCommandId::SetPageSize => 0x13,
        }
    }

    /// The command byte; `Invalid` has none and is given `0xFF`.
    #[verifier::when_used_as_spec(spec_code)]
    pub fn code(self) -> (code: u8)
        ensures
            code == self.spec_code(),
    {
        match self {
            RequestCommandId::Invalid => 0xFF,
            RequestCommandId::Connect => 0xC1,
            RequestCommandId::CancelPrint => 0xDA,
            RequestCommandId::Heartbeat => 0xDC,
            RequestCommandId::PageEnd => 0xE3,
            RequestCommandId::PageStart => 0x03,
            RequestCommandId::PrintBitmapRow => 0x85,
            RequestCommandId::PrintBitmapRowIndexed => 0x83,
            RequestCommandId::PrintEmptyRow => 0x84,
            RequestCommandId::PrintEnd => 0xF3,
            RequestCommandId::PrinterInfo => 0x40,
            RequestCommandId::PrintStart => 0x01,
            RequestCommandId::PrintStatus => 0xA3,
            RequestCommandId::SetDensity => 0x21,
            RequestCommandId::SetLabelType => 0x23,
            RequestCommandId::SetPageSize => 0x13,
        }
    }
}

/// The commands that `request_code_to_id` tells apart.
pub open spec fn recognised(id: RequestCommandId) -> bool {
    match id {
        RequestCommandId::PrinterInfo
        | RequestCommandId::PrintStart
        | RequestCommandId::SetDensity
        | RequestCommandId::SetLabelType
        | RequestCommandId::SetPageSize
        | RequestCommandId::PrintBitmapRow
        | RequestCommandId::PageStart
        | RequestCommandId::PrintEnd
        | RequestCommandId::PageEnd => true,
        _ => false,
    }
}

/// Names the command of a received frame: the recognised command with this code,
/// `Invalid` when there is none.
pub fn request_code_to_id(code: u8) -> (id: RequestCommandId)
    ensures
        id != RequestCommandId::Invalid ==> recognised(id) && id.spec_code() == code,
        id == RequestCommandId::Invalid ==> forall|other: RequestCommandId|
            recognised(other) ==> other.spec_code() != code,
{
    match code {
        0x40 => RequestCommandId::PrinterInfo,
        0x01 => RequestCommandId::PrintStart,
        0x21 => RequestCommandId::SetDensity,
        0x23 => RequestCommandId::SetLabelType,
        0x13 => RequestCommandId::SetPageSize,
        0x85 => RequestCommandId::PrintBitmapRow,
        0x03 => RequestCommandId::PageStart,
        0xF3 => RequestCommandId::PrintEnd,
        0xE3 => RequestCommandId::PageEnd,
        _ => RequestCommandId::Invalid,
    }
}

/// Codes of the frames the printer answers with.
#[allow(non_camel_case_types)]
#[derive(Debug, Clone, Copy, PartialEq, Eq, Structural)]
pub enum ResponseCommandId {
    Invalid,
    In_Connect,
    In_PageStart,
    In_PrintEnd,
    In_PrintStatus,
    In_PrintError,
    In_PrintStart,
    In_SetDensity,
    In_SetLabelType,
    In_SetPageSize,
    In_PageEnd,
}

impl ResponseCommandId {
    /// The command byte; `Invalid` has none and is given `0xFF`.
    pub open spec fn spec_code(self) -> u8 {
        match self {
            ResponseCommandId::Invalid => 0xFF,
            ResponseCommandId::In_Connect => 0xC2,
            ResponseCommandId::In_PageStart => 0x04,
            ResponseCommandId::In_PrintEnd => 0xF4,
            ResponseCommandId::In_PrintStatus => 0xB3,
            ResponseCommandId::In_PrintError => 0xDB,
            ResponseCommandId::In_PrintStart => 0x02,
            ResponseCommandId::In_SetDensity => 0x31,
            ResponseCommandId::In_SetLabelType => 0x33,
            ResponseCommandId::In_SetPageSize => 0x14,
            ResponseCommandId::In_PageEnd => 0xE4,
        }
    }

    /// The command byte; `Invalid` has none and is given `0xFF`.
    #[verifier::when_used_as_spec(spec_code)]
    pub fn code(self) -> (code: u8)
        ensures
            code == self.spec_code(),
    {
        match self {
            ResponseCommandId::Invalid => 0xFF,
            ResponseCommandId::In_Connect => 0xC2,
            ResponseCommandId::In_PageStart => 0x04,
            ResponseCommandId::In_PrintEnd => 0xF4,
            ResponseCommandId::In_PrintStatus => 0xB3,
            ResponseCommandId::In_PrintError => 0xDB,
            ResponseCommandId::In_PrintStart => 0x02,
            ResponseCommandId::In_SetDensity => 0x31,
            ResponseCommandId::In_SetLabelType => 0x33,
            ResponseCommandId::In_SetPageSize => 0x14,
            ResponseCommandId::In_PageEnd => 0xE4,
        }
    }
}

} // verus!
