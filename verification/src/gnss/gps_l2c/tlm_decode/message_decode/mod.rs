//! Decoding of the header and body of CNAV messages.

pub mod type10;
pub mod type11;
pub mod type30;

use vstd::prelude::*;
use crate::DigSigProcErr;
use crate::utils::bools_to_int::{self, field_u, field_i};

verus! {

/// The unsigned field of a whole message from message bit `first` through `last`, the bits
/// numbered from 1 at the first bit of the preamble, as the message layout tables number them.
pub open spec fn msg_u(bits: Seq<bool>, first: int, last: int) -> int {
    field_u(bits, first - 1, last) as int
}

/// The unsigned field from message bit `first` through `last` of a message body, the body
/// beginning at message bit 39.
pub open spec fn body_u(body: Seq<bool>, first: int, last: int) -> int {
    field_u(body, first - 39, last - 38) as int
}

/// The two's complement field from message bit `first` through `last` of a message body,
/// the body beginning at message bit 39.
pub open spec fn body_i(body: Seq<bool>, first: int, last: int) -> int {
    field_i(body, first - 39, last - 38)
}

/// Message bit `n` of a message body, the body beginning at message bit 39.
pub open spec fn body_bit(body: Seq<bool>, n: int) -> bool {
    body[n - 39]
}

/// A CNAV message (CRC removed): header fields and body.
#[derive(Debug)]
pub struct Message {
    pub prn: u8,
    pub type_id: u8,
    pub time_of_week_truncated: u32,
    pub alert_flag: bool,
    pub body: MessageBody,
}

/// The body of a message, by message type; types other than 10 and 11 are not decoded.
#[derive(Debug)]
pub enum MessageBody {
    Type10(type10::Body),
    Type11(type11::Body),
    Unknown,
}

/// `m` holds exactly what the 276-bit message `bits` transmits.
pub open spec fn decodes_to(bits: Seq<bool>, m: Message) -> bool {
    &&& m.prn == field_u(bits, 8, 14)
    &&& m.type_id == field_u(bits, 14, 20)
    &&& m.time_of_week_truncated == field_u(bits, 20, 37)
    &&& m.alert_flag == bits[38]
    &&& match m.body {
        MessageBody::Type10(b) => m.type_id == 10 && type10::decodes_to(bits.subrange(38, 276), b),
        MessageBody::Type11(b) => m.type_id == 11 && type11::decodes_to(bits.subrange(38, 276), b),
        MessageBody::Unknown => m.type_id != 10 && m.type_id != 11,
    }
}

impl Message {
    /// Decodes a 276-bit message; any other length is refused.
    pub fn new(bits: &[bool]) -> (r: Result<Self, DigSigProcErr>)
        ensures
            r is Ok <==> bits@.len() == 276,
            r matches Ok(m) ==> decodes_to(bits@, m),
            bits@.len() != 276 ==> r == Err::<Message, DigSigProcErr>(DigSigProcErr::InvalidTelemetryData("Expected a 276-bit message with CRC removed but got a different size")),
    {
        if bits.len() == 276 {
            let prn = bools_to_int::to_u8(&bits[8..14])?;
            let type_id = bools_to_int::to_u8(&bits[14..20])?;
            let time_of_week_truncated = bools_to_int::to_u32(&bits[20..37])?;
            let alert_flag = bits[38];
            let body = if type_id == 10 {
                MessageBody::Type10(type10::Body::new(&bits[38..276])?)
            } else if type_id == 11 {
                MessageBody::Type11(type11::Body::new(&bits[38..276])?)
            } else {
                MessageBody::Unknown
            };
            Ok(Message { prn, type_id, time_of_week_truncated, alert_flag, body })
        } else {
            Err(DigSigProcErr::InvalidTelemetryData("Expected a 276-bit message with CRC removed but got a different size"))
        }
    }
}

/// The message header holds its fields where the message layout puts them: the PRN in
/// message bits 9-14, the message type in bits 15-20 and the truncated time of week in bits
/// 21-37; the flag read as the alert flag is message bit 39.  Types 10 and 11 carry their
/// body in message bits 39-276.
pub proof fn law_message_header_layout(bits: Seq<bool>, m: Message)
    requires
        decodes_to(bits, m),
    ensures
        m.prn == msg_u(bits, 9, 14),
        m.type_id == msg_u(bits, 15, 20),
        m.time_of_week_truncated == msg_u(bits, 21, 37),
        m.alert_flag == bits[39 - 1],
        m.body is Type10 <==> m.type_id == 10,
        m.body is Type11 <==> m.type_id == 11,
        m.body matches MessageBody::Type10(b) ==> type10::decodes_to(bits.subrange(39 - 1, 276), b),
        m.body matches MessageBody::Type11(b) ==> type11::decodes_to(bits.subrange(39 - 1, 276), b),
{
}

} // verus!
