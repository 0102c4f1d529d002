//! Subframe 3 of the GPS L1 C/A navigation message: second half of the ephemeris.

use vstd::prelude::*;
use crate::DigSigProcErr;
use crate::utils::bools_to_int::{self, field_u, field_i};
use super::{lnav_bit, lnav_u, lnav_i};

verus! {

/// The fields of subframe 3, each held as the integer the message transmits.
/// `cic` and `cis` are in units of 2^-29 rad, `omega0`, `i0` and `omega` of
/// 2^-31 semicircles, `crc` of 2^-5 m, `omega_dot` and `idot` of 2^-43 semicircles/s.
#[derive(Debug, Copy, Clone)]
pub struct Body {
    pub cic: i16,
    pub omega0: i32,
    pub cis: i16,
    pub i0: i32,
    pub crc: i16,
    pub omega: i32,
    pub omega_dot: i32,
    pub iode: u8,
    pub idot: i16,
}

/// `b` holds exactly the fields that `bits` transmits.
pub open spec fn decodes_to(bits: Seq<bool>, b: Body) -> bool {
    &&& b.cic == field_i(bits, 48, 64)
    &&& b.omega0 == field_i(bits, 64, 96)
    &&& b.cis == field_i(bits, 96, 112)
    &&& b.i0 == field_i(bits, 112, 144)
    &&& b.crc == field_i(bits, 144, 160)
    &&& b.omega == field_i(bits, 160, 192)
    &&& b.omega_dot == field_i(bits, 192, 216)
    &&& b.iode == field_u(bits, 216, 224)
    &&& b.idot == field_i(bits, 224, 238)
}

impl Body {
    /// Decodes subframe 3 from the 240 data bits of a subframe; every bit pattern is a
    /// valid subframe 3.
    pub fn new(bits: &[bool; 240]) -> (r: Result<Body, DigSigProcErr>)
        ensures
            r matches Ok(b) && decodes_to(bits@, b),
    {
        let cic: i16 = bools_to_int::to_i16(&bits[48..64])?;
        let omega0: i32 = bools_to_int::to_i32(&bits[64..96])?;
        let cis: i16 = bools_to_int::to_i16(&bits[96..112])?;
        let i0: i32 = bools_to_int::to_i32(&bits[112..144])?;
        let crc: i16 = bools_to_int::to_i16(&bits[144..160])?;
        let omega: i32 = bools_to_int::to_i32(&bits[160..192])?;
        let omega_dot: i32 = bools_to_int::to_i32(&bits[192..216])?;
        let iode: u8 = bools_to_int::to_u8(&bits[216..224])?;
        let idot: i16 = bools_to_int::to_i16(&bits[224..238])?;
        Ok(Body { cic, omega0, cis, i0, crc, omega, omega_dot, iode, idot })
    }
}

/// Subframe 3 holds its fields where the navigation message's layout puts them, in word
/// and bit numbers: C_ic word 3 bits 1-16, OMEGA_0 word 3 bits 17-24 then word 4, C_is word 5
/// bits 1-16, i_0 word 5 bits 17-24 then word 6, C_rc word 7 bits 1-16, omega word 7 bits
/// 17-24 then word 8, OMEGA dot word 9, IODE word 10 bits 1-8 and IDOT word 10 bits 9-22.
/// In particular the right ascension comes from words 3-4 and the inclination from words 5-6.
pub proof fn law_subframe3_layout(bits: Seq<bool>, b: Body)
    requires
        decodes_to(bits, b),
    ensures
        b.cic == lnav_i(bits, 3, 1, 3, 16),
        b.omega0 == lnav_i(bits, 3, 17, 4, 24),
        b.cis == lnav_i(bits, 5, 1, 5, 16),
        b.i0 == lnav_i(bits, 5, 17, 6, 24),
        b.crc == lnav_i(bits, 7, 1, 7, 16),
        b.omega == lnav_i(bits, 7, 17, 8, 24),
        b.omega_dot == lnav_i(bits, 9, 1, 9, 24),
        b.iode == lnav_u(bits, 10, 1, 10, 8),
        b.idot == lnav_i(bits, 10, 9, 10, 22),
{
}

} // verus!
