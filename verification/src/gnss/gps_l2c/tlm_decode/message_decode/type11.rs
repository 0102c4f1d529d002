//! CNAV message type 11: the second part of the ephemeris.

use vstd::prelude::*;
use crate::DigSigProcErr;
use crate::utils::bools_to_int::{self, field_u, field_i};
use super::{body_u, body_i};

verus! {

/// The fields of a type 11 message body, each held as the integer the message transmits
/// (IS-GPS-200K, table 30-I): `t_oe` in seconds; `om_0n` and `i_0n` in 2^-32 semicircles,
/// `d_om_dot` and `i_0n_dot` in 2^-44 semicircles/s, `cis_n` and `cic_n` in 2^-30 rad,
/// `crs_n` and `crc_n` in 2^-8 m, `cus_n` and `cuc_n` in 2^-30 rad.
#[derive(Debug)]
pub struct Body {
    pub t_oe: u32,
    pub om_0n: i64,
    pub i_0n: i64,
    pub d_om_dot: i32,
    pub i_0n_dot: i16,
    pub cis_n: i16,
    pub cic_n: u16,
    pub crs_n: u32,
    pub crc_n: u32,
    pub cus_n: u32,
    pub cuc_n: u32,
}

/// `b` holds exactly the fields that the 238-bit body `bits` transmits.
pub open spec fn decodes_to(bits: Seq<bool>, b: Body) -> bool {
    &&& b.t_oe == field_u(bits, 0, 11) * 300
    &&& b.om_0n == field_i(bits, 11, 44)
    &&& b.i_0n == field_i(bits, 44, 77)
    &&& b.d_om_dot == field_i(bits, 77, 94)
    &&& b.i_0n_dot == field_i(bits, 94, 109)
    &&& b.cis_n == field_i(bits, 109, 125)
    &&& b.cic_n == field_u(bits, 125, 141)
    &&& b.crs_n == field_u(bits, 141, 165)
    &&& b.crc_n == field_u(bits, 165, 189)
    &&& b.cus_n == field_u(bits, 189, 210)
    &&& b.cuc_n == field_u(bits, 210, 231)
}

impl Body {
    /// Decodes the 238 bits that follow the message header; any other length is refused.
    pub fn new(bits: &[bool]) -> (r: Result<Self, DigSigProcErr>)
        ensures
            r is Ok <==> bits@.len() == 238,
            r matches Ok(b) ==> decodes_to(bits@, b),
            bits@.len() != 238 ==> r == Err::<Body, DigSigProcErr>(DigSigProcErr::InvalidTelemetryData("Expected a bool slice of length 238 in type11::Body::new")),
    {
        if bits.len() == 238 {
            let t_oe_raw = bools_to_int::to_u16(&bits[0..11])?;
            proof { bools_to_int::lemma_bits_to_nat_bound(bits@.subrange(0, 11)); vstd::arithmetic::power2::lemma2_to64(); }
            let t_oe = (t_oe_raw as u32) * 300u32;
            let om_0n = bools_to_int::to_i64(&bits[11..44])?;
            let i_0n = bools_to_int::to_i64(&bits[44..77])?;
            let d_om_dot = bools_to_int::to_i32(&bits[77..94])?;
            let i_0n_dot = bools_to_int::to_i16(&bits[94..109])?;
            let cis_n = bools_to_int::to_i16(&bits[109..125])?;
            let cic_n = bools_to_int::to_u16(&bits[125..141])?;
            let crs_n = bools_to_int::to_u32(&bits[141..165])?;
            let crc_n = bools_to_int::to_u32(&bits[165..189])?;
            let cus_n = bools_to_int::to_u32(&bits[189..210])?;
            let cuc_n = bools_to_int::to_u32(&bits[210..231])?;
            // 7 reserved bits
            Ok(Body { t_oe, om_0n, i_0n, d_om_dot, i_0n_dot, cis_n, cic_n, crs_n, crc_n, cus_n, cuc_n })
        } else {
            Err(DigSigProcErr::InvalidTelemetryData("Expected a bool slice of length 238 in type11::Body::new"))
        }
    }
}

/// A type 11 body holds its fields where the message layout puts them, in message bit
/// numbers: t_oe bits 39-49 (in units of 300 s), OMEGA_0-n bits 50-82, i_0-n bits 83-115,
/// delta OMEGA dot bits 116-132, i_0-n dot bits 133-147, C_is-n bits 148-163, C_ic-n bits
/// 164-179, C_rs-n bits 180-203, C_rc-n bits 204-227, C_us-n bits 228-248 and C_uc-n bits
/// 249-269.
pub proof fn law_type11_layout(bits: Seq<bool>, b: Body)
    requires
        decodes_to(bits, b),
    ensures
        b.t_oe == body_u(bits, 39, 49) * 300,
        b.om_0n == body_i(bits, 50, 82),
        b.i_0n == body_i(bits, 83, 115),
        b.d_om_dot == body_i(bits, 116, 132),
        b.i_0n_dot == body_i(bits, 133, 147),
        b.cis_n == body_i(bits, 148, 163),
        b.cic_n == body_u(bits, 164, 179),
        b.crs_n == body_u(bits, 180, 203),
        b.crc_n == body_u(bits, 204, 227),
        b.cus_n == body_u(bits, 228, 248),
        b.cuc_n == body_u(bits, 249, 269),
{
}

} // verus!
