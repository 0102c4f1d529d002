//! CNAV message type 30: clock, group delay and ionosphere parameters.

use vstd::prelude::*;
use crate::DigSigProcErr;
use crate::utils::bools_to_int::{self, field_u, field_i};
use super::{body_u, body_i};

verus! {

/// The fields of a type 30 message body, each held as the integer the message transmits
/// (IS-GPS-200K, tables 30-III, 30-IV and 20-X): `t_op` and `t_oc` in seconds; `a_f0n`
/// in 2^-35 s, `a_f1n` in 2^-48 s/s, `a_f2n` in 2^-60 s/s^2; `t_gd` and the `isc_*` in
/// 2^-35 s; `alpha0..3` in 2^-30, 2^-27, 2^-24, 2^-24 and `beta0..3` in 2^11, 2^14, 2^16,
/// 2^16 (per semicircle powers).
#[derive(Debug)]
pub struct Body {
    pub t_op: u32,
    pub ura_ned0: u8,
    pub ura_ned1: u8,
    pub ura_ned2: u8,
    pub t_oc: u32,
    pub a_f0n: i32,
    pub a_f1n: i32,
    pub a_f2n: i16,
    pub t_gd: i16,
    pub isc_l1ca: i16,
    pub isc_l2c: i16,
    pub isc_l5i5: i16,
    pub isc_l5q5: i16,
    pub alpha0: i8,
    pub alpha1: i8,
    pub alpha2: i8,
    pub alpha3: i8,
    pub beta0: i8,
    pub beta1: i8,
    pub beta2: i8,
    pub beta3: i8,
    pub wn_op: u8,
}

/// `b` holds exactly the fields that the 238-bit body `bits` transmits.
pub open spec fn decodes_to(bits: Seq<bool>, b: Body) -> bool {
    &&& b.t_op == field_u(bits, 0, 11) * 300
    &&& b.ura_ned0 == field_u(bits, 11, 16)
    &&& b.ura_ned1 == field_u(bits, 16, 19)
    &&& b.ura_ned2 == field_u(bits, 19, 22)
    &&& b.t_oc == field_u(bits, 22, 33) * 300
    &&& b.a_f0n == field_i(bits, 33, 59)
    &&& b.a_f1n == field_i(bits, 59, 79)
    &&& b.a_f2n == field_i(bits, 79, 89)
    &&& b.t_gd == field_i(bits, 89, 102)
    &&& b.isc_l1ca == field_i(bits, 102, 115)
    &&& b.isc_l2c == field_i(bits, 115, 128)
    &&& b.isc_l5i5 == field_i(bits, 128, 141)
    &&& b.isc_l5q5 == field_i(bits, 141, 154)
    &&& b.alpha0 == field_i(bits, 154, 162)
    &&& b.alpha1 == field_i(bits, 162, 170)
    &&& b.alpha2 == field_i(bits, 170, 178)
    &&& b.alpha3 == field_i(bits, 178, 186)
    &&& b.beta0 == field_i(bits, 186, 194)
    &&& b.beta1 == field_i(bits, 194, 202)
    &&& b.beta2 == field_i(bits, 202, 210)
    &&& b.beta3 == field_i(bits, 210, 218)
    &&& b.wn_op == field_u(bits, 218, 226)
}

impl Body {
    /// Decodes the 238 bits that follow the message header; any other length is refused.
    pub fn new(bits: &[bool]) -> (r: Result<Self, DigSigProcErr>)
        ensures
            r is Ok <==> bits@.len() == 238,
            r matches Ok(b) ==> decodes_to(bits@, b),
            bits@.len() != 238 ==> r == Err::<Body, DigSigProcErr>(DigSigProcErr::InvalidTelemetryData("Expected a bool slice of length 238 in type30::Body::new")),
    {
        if bits.len() == 238 {
            let t_op_raw = bools_to_int::to_u16(&bits[0..11])?;
            proof {
                bools_to_int::lemma_bits_to_nat_bound(bits@.subrange(0, 11));
                bools_to_int::lemma_bits_to_nat_bound(bits@.subrange(22, 33));
                vstd::arithmetic::power2::lemma2_to64();
            }
            let t_op = (t_op_raw as u32) * 300u32;
            let ura_ned0 = bools_to_int::to_u8(&bits[11..16])?;
            let ura_ned1 = bools_to_int::to_u8(&bits[16..19])?;
            let ura_ned2 = bools_to_int::to_u8(&bits[19..22])?;
            let t_oc_raw = bools_to_int::to_u16(&bits[22..33])?;
            let t_oc = (t_oc_raw as u32) * 300u32;
            let a_f0n = bools_to_int::to_i32(&bits[33..59])?;
            let a_f1n = bools_to_int::to_i32(&bits[59..79])?;
            let a_f2n = bools_to_int::to_i16(&bits[79..89])?;
            let t_gd = bools_to_int::to_i16(&bits[89..102])?;
            let isc_l1ca = bools_to_int::to_i16(&bits[102..115])?;
            let isc_l2c = bools_to_int::to_i16(&bits[115..128])?;
            let isc_l5i5 = bools_to_int::to_i16(&bits[128..141])?;
            let isc_l5q5 = bools_to_int::to_i16(&bits[141..154])?;
            let alpha0 = bools_to_int::to_i8(&bits[154..162])?;
            let alpha1 = bools_to_int::to_i8(&bits[162..170])?;
            let alpha2 = bools_to_int::to_i8(&bits[170..178])?;
            let alpha3 = bools_to_int::to_i8(&bits[178..186])?;
            let beta0 = bools_to_int::to_i8(&bits[186..194])?;
            let beta1 = bools_to_int::to_i8(&bits[194..202])?;
            let beta2 = bools_to_int::to_i8(&bits[202..210])?;
            let beta3 = bools_to_int::to_i8(&bits[210..218])?;
            let wn_op = bools_to_int::to_u8(&bits[218..226])?;
            // 12 reserved bits
            Ok(Body {
                t_op, ura_ned0, ura_ned1, ura_ned2, t_oc, a_f0n, a_f1n, a_f2n, t_gd, isc_l1ca, isc_l2c,
                isc_l5i5, isc_l5q5, alpha0, alpha1, alpha2, alpha3, beta0, beta1, beta2, beta3, wn_op,
            })
        } else {
            Err(DigSigProcErr::InvalidTelemetryData("Expected a bool slice of length 238 in type30::Body::new"))
        }
    }
}

/// A type 30 body holds its fields where the message layout puts them, in message bit
/// numbers: t_op bits 39-49 and t_oc bits 61-71 (in units of 300 s), URA_NED0..2 bits 50-54,
/// 55-57 and 58-60, a_f0-n bits 72-97, a_f1-n bits 98-117, a_f2-n bits 118-127, T_GD bits
/// 128-140, ISC L1C/A, L2C, L5I5 and L5Q5 bits 141-153, 154-166, 167-179 and 180-192,
/// alpha_0..3 bits 193-200, 201-208, 209-216 and 217-224, beta_0..3 bits 225-232, 233-240,
/// 241-248 and 249-256, and WN_OP bits 257-264.
pub proof fn law_type30_layout(bits: Seq<bool>, b: Body)
    requires
        decodes_to(bits, b),
    ensures
        b.t_op == body_u(bits, 39, 49) * 300,
        b.ura_ned0 == body_u(bits, 50, 54),
        b.ura_ned1 == body_u(bits, 55, 57),
        b.ura_ned2 == body_u(bits, 58, 60),
        b.t_oc == body_u(bits, 61, 71) * 300,
        b.a_f0n == body_i(bits, 72, 97),
        b.a_f1n == body_i(bits, 98, 117),
        b.a_f2n == body_i(bits, 118, 127),
        b.t_gd == body_i(bits, 128, 140),
        b.isc_l1ca == body_i(bits, 141, 153),
        b.isc_l2c == body_i(bits, 154, 166),
        b.isc_l5i5 == body_i(bits, 167, 179),
        b.isc_l5q5 == body_i(bits, 180, 192),
        b.alpha0 == body_i(bits, 193, 200),
        b.alpha1 == body_i(bits, 201, 208),
        b.alpha2 == body_i(bits, 209, 216),
        b.alpha3 == body_i(bits, 217, 224),
        b.beta0 == body_i(bits, 225, 232),
        b.beta1 == body_i(bits, 233, 240),
        b.beta2 == body_i(bits, 241, 248),
        b.beta3 == body_i(bits, 249, 256),
        b.wn_op == body_u(bits, 257, 264),
{
}

} // verus!
