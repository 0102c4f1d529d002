//! CNAV message type 10: week number, health and the first part of the ephemeris.

use vstd::prelude::*;
use crate::DigSigProcErr;
use crate::utils::bools_to_int::{self, field_u};
use super::{body_u, body_bit};

verus! {

/// The fields of a type 10 message body that are decoded. For the health flags, false
/// means "signal OK" and true "signal bad or unavailable" (IS-GPS-200K, 30.3.3.1.1.2).
#[derive(Debug)]
pub struct Body {
    pub week_num: u16,
    pub l1_health: bool,
    pub l2_health: bool,
    pub l5_health: bool,
}

/// `b` holds exactly the fields that the 238-bit body `bits` transmits.
pub open spec fn decodes_to(bits: Seq<bool>, b: Body) -> bool {
    &&& b.week_num == field_u(bits, 0, 13)
    &&& b.l1_health == bits[13]
    &&& b.l2_health == bits[14]
    &&& b.l5_health == bits[15]
}

impl Body {
    /// Decodes the 238 bits that follow the message header; any other length is refused.
    pub fn new(bits: &[bool]) -> (r: Result<Self, DigSigProcErr>)
        ensures
            r is Ok <==> bits@.len() == 238,
            r matches Ok(b) ==> decodes_to(bits@, b),
            bits@.len() != 238 ==> r == Err::<Body, DigSigProcErr>(DigSigProcErr::InvalidTelemetryData("Expected a bool slice of length 238 in type10::Body::new")),
    {
        if bits.len() == 238 {
            let week_num = bools_to_int::to_u16(&bits[0..13])?;
            let l1_health = bits[13];
            let l2_health = bits[14];
            let l5_health = bits[15];
            Ok(Body { week_num, l1_health, l2_health, l5_health })
        } else {
            Err(DigSigProcErr::InvalidTelemetryData("Expected a bool slice of length 238 in type10::Body::new"))
        }
    }
}

/// A type 10 body holds its fields where the message layout puts them, in message bit
/// numbers: the week number in bits 39-51 and the L1, L2 and L5 health flags in bits 52, 53
/// and 54.
pub proof fn law_type10_layout(bits: Seq<bool>, b: Body)
    requires
        decodes_to(bits, b),
    ensures
        b.week_num == body_u(bits, 39, 51),
        b.l1_health == body_bit(bits, 52),
        b.l2_health == body_bit(bits, 53),
        b.l5_health == body_bit(bits, 54),
{
}

} // verus!
