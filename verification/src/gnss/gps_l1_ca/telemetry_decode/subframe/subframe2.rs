//! Subframe 2 of the GPS L1 C/A navigation message: first half of the ephemeris.

use vstd::prelude::*;
use crate::DigSigProcErr;
use crate::utils::bools_to_int::{self, field_u, field_i};
use super::{lnav_bit, lnav_u, lnav_i};

verus! {

/// The fields of subframe 2, each held as the integer the message transmits.
/// `t_oe` is in seconds; `crs` is in units of 2^-5 m, `dn` of 2^-43 semicircles/s,
/// `m0` of 2^-31 semicircles, `cuc` and `cus` of 2^-29 rad, `e` of 2^-33 and
/// `sqrt_a` of 2^-19 m^1/2.
#[derive(Debug, Copy, Clone)]
pub struct Body {
    pub iode: u8,
    pub crs: i16,
    pub dn: i16,
    pub m0: i32,
    pub cuc: i16,
    pub e: u32,
    pub cus: i16,
    pub sqrt_a: u32,
    pub t_oe: u32,
    pub fit_interval: bool,
    pub aodo: u8,
}

/// `b` holds exactly the fields that `bits` transmits.
pub open spec fn decodes_to(bits: Seq<bool>, b: Body) -> bool {
    &&& b.iode == field_u(bits, 48, 56)
    &&& b.crs == field_i(bits, 56, 72)
    &&& b.dn == field_i(bits, 72, 88)
    &&& b.m0 == field_i(bits, 88, 120)
    &&& b.cuc == field_i(bits, 120, 136)
    &&& b.e == field_u(bits, 136, 168)
    &&& b.cus == field_i(bits, 168, 184)
    &&& b.sqrt_a == field_u(bits, 184, 216)
    &&& b.t_oe == field_u(bits, 216, 232) * 16
    &&& b.fit_interval == bits[233]
    &&& b.aodo == field_u(bits, 234, 239)
}

impl Body {
    /// Decodes subframe 2 from the 240 data bits of a subframe; every bit pattern is a
    /// valid subframe 2.
    pub fn new(bits: &[bool; 240]) -> (r: Result<Body, DigSigProcErr>)
        ensures
            r matches Ok(b) && decodes_to(bits@, b),
    {
        let iode: u8 = bools_to_int::to_u8(&bits[48..56])?;
        let crs: i16 = bools_to_int::to_i16(&bits[56..72])?;
        let dn: i16 = bools_to_int::to_i16(&bits[72..88])?;
        let m0: i32 = bools_to_int::to_i32(&bits[88..120])?;
        let cuc: i16 = bools_to_int::to_i16(&bits[120..136])?;
        let e: u32 = bools_to_int::to_u32(&bits[136..168])?;
        let cus: i16 = bools_to_int::to_i16(&bits[168..184])?;
        let sqrt_a: u32 = bools_to_int::to_u32(&bits[184..216])?;
        let t_oe_raw: u16 = bools_to_int::to_u16(&bits[216..232])?;
        let t_oe: u32 = (t_oe_raw as u32) * 16u32;
        let fit_interval: bool = bits[233];
        let aodo: u8 = bools_to_int::to_u8(&bits[234..239])?;
        Ok(Body { iode, crs, dn, m0, cuc, e, cus, sqrt_a, t_oe, fit_interval, aodo })
    }
}

/// Subframe 2 holds its fields where the navigation message's layout puts them, in word
/// and bit numbers: IODE word 3 bits 1-8, C_rs word 3 bits 9-24, delta n word 4 bits 1-16,
/// M_0 word 4 bits 17-24 then word 5, C_uc word 6 bits 1-16, e word 6 bits 17-24 then word 7,
/// C_us word 8 bits 1-16, sqrt A word 8 bits 17-24 then word 9, t_oe word 10 bits 1-16 (in
/// units of 16 s), the fit interval flag word 10 bit 18 and the AODO word 10 bits 19-23.
pub proof fn law_subframe2_layout(bits: Seq<bool>, b: Body)
    requires
        decodes_to(bits, b),
    ensures
        b.iode == lnav_u(bits, 3, 1, 3, 8),
        b.crs == lnav_i(bits, 3, 9, 3, 24),
        b.dn == lnav_i(bits, 4, 1, 4, 16),
        b.m0 == lnav_i(bits, 4, 17, 5, 24),
        b.cuc == lnav_i(bits, 6, 1, 6, 16),
        b.e == lnav_u(bits, 6, 17, 7, 24),
        b.cus == lnav_i(bits, 8, 1, 8, 16),
        b.sqrt_a == lnav_u(bits, 8, 17, 9, 24),
        b.t_oe == lnav_u(bits, 10, 1, 10, 16) * 16,
        b.fit_interval == bits[lnav_bit(10, 18)],
        b.aodo == lnav_u(bits, 10, 19, 10, 23),
{
}

} // verus!
