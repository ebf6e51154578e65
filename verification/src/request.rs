//! The requests of the command set, each with its fixed code, payload layout and
//! the offset of the response it is answered with.

use vstd::prelude::*;
use crate::packet::{copy_bytes, Frame, NiimbotPacket, MAX_PAYLOAD};
use crate::protocol::{RequestCodeEnum, PRINT_BITMAP_ROW, SET_PAGE_SIZE};

verus! {

/// Command byte that sets the idle time after which the printer switches itself
/// off; the printer does not answer it.
pub const SET_AUTO_SHUTDOWN: u8 = 0x27;

/// Mathematical model of a request.
pub struct RequestModel {
    pub code: u8,
    pub payload: Seq<u8>,
    pub response_offset: Option<u8>,
}

/// One request: what to send, and which response to wait for.
///
/// The response to a request carries the command byte `code + response_offset`.
/// A request without an offset is sent and not waited for.
#[derive(Debug)]
pub struct Request {
    pub code: u8,
    pub payload: Vec<u8>,
    pub response_offset: Option<u8>,
}

impl View for Request {
    type V = RequestModel;

    open spec fn view(&self) -> RequestModel {
        RequestModel {
            code: self.code,
            payload: self.payload@,
            response_offset: self.response_offset,
        }
    }
}

/// The high and the low byte of a 16-bit number.
pub open spec fn be16(value: u16) -> Seq<u8> {
    seq![(value / 256) as u8, (value % 256) as u8]
}

/// The number whose high and low byte are given.
pub open spec fn from_be16(high: u8, low: u8) -> u16 {
    (high * 256 + low) as u16
}

/// Reading back the bytes of a number gives the number.
pub proof fn lemma_be16_round_trip(value: u16)
    ensures
        from_be16(be16(value)[0], be16(value)[1]) == value,
{
}

impl Clone for Request {
    fn clone(&self) -> (copy: Request)
        ensures
            copy@ == self@,
    {
        Request {
            code: self.code,
            payload: copy_bytes(&self.payload),
            response_offset: self.response_offset,
        }
    }
}

impl Request {
    /// The request fits one frame.
    pub open spec fn sendable(&self) -> bool {
        self.payload@.len() <= MAX_PAYLOAD
    }

    /// The frame that carries the request.
    pub open spec fn frame(&self) -> Frame {
        Frame { command: self.code, payload: self.payload@ }
    }

    /// The packet that carries the request.
    pub fn to_packet(&self) -> (packet: NiimbotPacket)
        ensures
            packet@ == self.frame(),
    {
        NiimbotPacket::new(self.code, copy_bytes(&self.payload))
    }

    /// A request with a code of the command set, a one-byte payload and the
    /// response offset that the command set fixes for the code.
    fn simple(command: RequestCodeEnum, argument: u8) -> (request: Request)
        ensures
            request@ == (RequestModel {
                code: command.spec_code(),
                payload: seq![argument],
                response_offset: command.spec_response_offset(),
            }),
    {
        let mut payload: Vec<u8> = Vec::with_capacity(1);
        payload.push(argument);
        proof {
            assert(payload@ =~= seq![argument]);
        }
        Request { code: command.code(), payload, response_offset: command.response_offset() }
    }

    /// Model of `heartbeat`.
    pub open spec fn spec_heartbeat() -> RequestModel {
        RequestModel {
            code: 0xDC,
            payload: seq![1u8],
            response_offset: Some(1u8),
        }
    }

    /// Asks whether the printer is alive: `DC [01]`, answered by `DD`.
    pub fn heartbeat() -> (request: Request)
        ensures
            request@ == Request::spec_heartbeat(),
    {
        Request::simple(RequestCodeEnum::Heartbeat, 1)
    }

    /// Model of `get_info`.
    pub open spec fn spec_get_info(info_type: u8) -> RequestModel {
        RequestModel {
            code: 0x40,
            payload: seq![info_type],
            response_offset: Some(0u8),
        }
    }

    /// Asks for one value of the printer: `40 [key]`, answered by `40`.
    pub fn get_info(info_type: u8) -> (request: Request)
        ensures
            request@ == Request::spec_get_info(info_type),
    {
        Request::simple(RequestCodeEnum::GetInfo, info_type)
    }

    /// Model of `set_label_type`.
    pub open spec fn spec_set_label_type(label_type: u8) -> RequestModel {
        RequestModel {
            code: 0x23,
            payload: seq![label_type],
            response_offset: Some(16u8),
        }
    }

    /// Selects the kind of label: `23 [kind]`, answered by `33`.
    pub fn set_label_type(label_type: u8) -> (request: Request)
        ensures
            request@ == Request::spec_set_label_type(label_type),
    {
        Request::simple(RequestCodeEnum::SetLabelType, label_type)
    }

    /// Model of `set_label_density`.
    pub open spec fn spec_set_label_density(density: u8) -> RequestModel {
        RequestModel {
            code: 0x21,
            payload: seq![density],
            response_offset: Some(16u8),
        }
    }

    /// Selects how dark the print is: `21 [density]`, answered by `31`.
    pub fn set_label_density(density: u8) -> (request: Request)
        ensures
            request@ == Request::spec_set_label_density(density),
    {
        Request::simple(RequestCodeEnum::SetLabelDensity, density)
    }

    /// Model of `start_print`.
    pub open spec fn spec_start_print() -> RequestModel {
        RequestModel {
            code: 0x01,
            payload: seq![0u8, 1u8, 0u8, 0u8, 0u8, 0u8, 0u8],
            response_offset: Some(1u8),
        }
    }

    /// Opens a print job: `01 [00 01 00 00 00 00 00]`, answered by `02`.
    pub fn start_print() -> (request: Request)
        ensures
            request@ == Request::spec_start_print(),
    {
        let mut payload: Vec<u8> = Vec::with_capacity(7);
        payload.push(0);
        payload.push(1);
        payload.push(0);
        payload.push(0);
        payload.push(0);
        payload.push(0);
        payload.push(0);
        proof {
            assert(payload@ =~= seq![0u8, 1u8, 0u8, 0u8, 0u8, 0u8, 0u8]);
        }
        Request {
            code: RequestCodeEnum::StartPrint.code(),
            payload,
            response_offset: RequestCodeEnum::StartPrint.response_offset(),
        }
    }

    /// Model of `allow_print_clear`.
    pub open spec fn spec_allow_print_clear() -> RequestModel {
        RequestModel {
            code: 0x20,
            payload: seq![1u8],
            response_offset: Some(16u8),
        }
    }

    /// Lets the printer clear its buffer: `20 [01]`, answered by `30`.
    pub fn allow_print_clear() -> (request: Request)
        ensures
            request@ == Request::spec_allow_print_clear(),
    {
        Request::simple(RequestCodeEnum::AllowPrintClear, 1)
    }

    /// Model of `start_page_print`.
    pub open spec fn spec_start_page_print() -> RequestModel {
        RequestModel {
            code: 0x03,
            payload: seq![1u8],
            response_offset: Some(1u8),
        }
    }

    /// Opens a page: `03 [01]`, answered by `04`.
    pub fn start_page_print() -> (request: Request)
        ensures
            request@ == Request::spec_start_page_print(),
    {
        Request::simple(RequestCodeEnum::StartPagePrint, 1)
    }

    /// Model of `set_page_size_v3`.
    pub open spec fn spec_set_page_size_v3(rows: u16, cols: u16, copies: u16) -> RequestModel {
        RequestModel {
            code: SET_PAGE_SIZE,
            payload: be16(rows) + be16(cols) + be16(copies),
            response_offset: None,
        }
    }

    /// Announces rows, columns and copies of the page, each as a big-endian
    /// 16-bit number: `13 [rows cols copies]`. No response is waited for.
    pub fn set_page_size_v3(rows: u16, cols: u16, copies: u16) -> (request: Request)
        ensures
            request@ == Request::spec_set_page_size_v3(rows, cols, copies),
    {
        let mut payload: Vec<u8> = Vec::with_capacity(6);
        payload.push((rows / 256) as u8);
        payload.push((rows % 256) as u8);
        payload.push((cols / 256) as u8);
        payload.push((cols % 256) as u8);
        payload.push((copies / 256) as u8);
        payload.push((copies % 256) as u8);
        proof {
            assert(payload@ =~= be16(rows) + be16(cols) + be16(copies));
        }
        Request { code: SET_PAGE_SIZE, payload, response_offset: None }
    }

    /// Model of `end_page_print`.
    pub open spec fn spec_end_page_print() -> RequestModel {
        RequestModel {
            code: 0xE3,
            payload: seq![1u8],
            response_offset: Some(1u8),
        }
    }

    /// Closes the page: `E3 [01]`, answered by `E4`.
    pub fn end_page_print() -> (request: Request)
        ensures
            request@ == Request::spec_end_page_print(),
    {
        Request::simple(RequestCodeEnum::EndPagePrint, 1)
    }

    /// Model of `end_print`.
    pub open spec fn spec_end_print() -> RequestModel {
        RequestModel {
            code: 0xF3,
            payload: seq![1u8],
            response_offset: Some(1u8),
        }
    }

    /// Closes the print job: `F3 [01]`, answered by `F4`.
    pub fn end_print() -> (request: Request)
        ensures
            request@ == Request::spec_end_print(),
    {
        Request::simple(RequestCodeEnum::EndPrint, 1)
    }

    /// Model of `set_dimension`.
    pub open spec fn spec_set_dimension(width: u16, height: u16) -> RequestModel {
        RequestModel {
            code: 0x13,
            payload: be16(width) + be16(height),
            response_offset: None,
        }
    }

    /// Announces width and height of the page, each as a big-endian 16-bit
    /// number: `13 [width height]`. No response is waited for.
    pub fn set_dimension(width: u16, height: u16) -> (request: Request)
        ensures
            request@ == Request::spec_set_dimension(width, height),
    {
        let mut payload: Vec<u8> = Vec::with_capacity(4);
        payload.push((width / 256) as u8);
        payload.push((width % 256) as u8);
        payload.push((height / 256) as u8);
        payload.push((height % 256) as u8);
        proof {
            assert(payload@ =~= be16(width) + be16(height));
        }
        Request {
            code: RequestCodeEnum::SetDimension.code(),
            payload,
            response_offset: RequestCodeEnum::SetDimension.response_offset(),
        }
    }

    /// Model of `set_quantity`.
    pub open spec fn spec_set_quantity(quantity: u8) -> RequestModel {
        RequestModel {
            code: 0x15,
            payload: seq![quantity],
            response_offset: Some(1u8),
        }
    }

    /// Announces the number of copies: `15 [quantity]`, answered by `16`.
    pub fn set_quantity(quantity: u8) -> (request: Request)
        ensures
            request@ == Request::spec_set_quantity(quantity),
    {
        Request::simple(RequestCodeEnum::SetQuantity, quantity)
    }

    /// Model of `get_print_status`.
    pub open spec fn spec_get_print_status() -> RequestModel {
        RequestModel {
            code: 0xA3,
            payload: seq![1u8],
            response_offset: Some(16u8),
        }
    }

    /// Asks how far the print job is: `A3 [01]`, answered by `B3`.
    pub fn get_print_status() -> (request: Request)
        ensures
            request@ == Request::spec_get_print_status(),
    {
        Request::simple(RequestCodeEnum::GetPrintStatus, 1)
    }

    /// Model of `set_autoshutdown_time`.
    pub open spec fn spec_set_autoshutdown_time(level: u8) -> RequestModel {
        RequestModel {
            code: SET_AUTO_SHUTDOWN,
            payload: seq![level],
            response_offset: None,
        }
    }

    /// Sets the idle time before the printer switches itself off: `27 [level]`.
    /// No response is waited for.
    pub fn set_autoshutdown_time(level: u8) -> (request: Request)
        ensures
            request@ == Request::spec_set_autoshutdown_time(level),
    {
        let mut payload: Vec<u8> = Vec::with_capacity(1);
        payload.push(level);
        proof {
            assert(payload@ =~= seq![level]);
        }
        Request { code: SET_AUTO_SHUTDOWN, payload, response_offset: None }
    }

    /// Model of `bitmap_row`.
    pub open spec fn spec_bitmap_row(payload: Seq<u8>) -> RequestModel {
        RequestModel {
            code: PRINT_BITMAP_ROW,
            payload,
            response_offset: None,
        }
    }

    /// Carries one row of the bitmap: `85 [row payload]`. Rows are not answered.
    pub fn bitmap_row(payload: Vec<u8>) -> (request: Request)
        ensures
            request@ == Request::spec_bitmap_row(payload@),
    {
        Request { code: PRINT_BITMAP_ROW, payload, response_offset: None }
    }
}

} // verus!
