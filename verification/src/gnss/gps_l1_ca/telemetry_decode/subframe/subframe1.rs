//! Subframe 1 of the GPS L1 C/A navigation message: clock correction and health.

use vstd::prelude::*;
use crate::DigSigProcErr;
use crate::utils::bools_to_int::{self, bits_to_nat, field_u, field_i};
use super::{lnav_bit, lnav_u, lnav_i};

verus! {

/// Which code the satellite transmits on L2 (bits 59 and 60 of subframe 1).
#[allow(non_camel_case_types)]
#[derive(Debug, Copy, Clone, PartialEq, Eq)]
pub enum CodeOnL2 {
    Reserved,
    P_Code,
    CA_Code,
}

/// The fields of subframe 1, each held as the integer the message transmits.
/// `t_oc` is in seconds; `t_gd` is in units of 2^-31 s, `a_f2` of 2^-55 s/s^2,
/// `a_f1` of 2^-43 s/s and `a_f0` of 2^-31 s.
#[derive(Debug, Copy, Clone)]
pub struct Body {
    pub week_number: u16,
    pub code_on_l2: CodeOnL2,
    pub ura_index: u8,
    pub sv_health: u8,
    pub iodc: u16,
    pub t_gd: i8,
    pub t_oc: u32,
    pub a_f2: i8,
    pub a_f1: i16,
    pub a_f0: i32,
}

/// The L2 code indication for the two flag bits; `None` for the combination that the
/// interface specification does not define.
pub open spec fn code_on_l2_of(b0: bool, b1: bool) -> Option<CodeOnL2> {
    match (b0, b1) {
        (false, false) => Some(CodeOnL2::Reserved),
        (false, true) => Some(CodeOnL2::P_Code),
        (true, false) => Some(CodeOnL2::CA_Code),
        (true, true) => None,
    }
}

/// A 240-bit data subframe holds a valid subframe 1 unless both L2 code bits are set.
pub open spec fn is_valid(bits: Seq<bool>) -> bool {
    code_on_l2_of(bits[58], bits[59]) is Some
}

/// `b` holds exactly the fields that `bits` transmits.
pub open spec fn decodes_to(bits: Seq<bool>, b: Body) -> bool {
    &&& b.week_number == field_u(bits, 48, 58)
    &&& code_on_l2_of(bits[58], bits[59]) == Some(b.code_on_l2)
    &&& b.ura_index == field_u(bits, 60, 64)
    &&& b.sv_health == field_u(bits, 64, 70)
    &&& b.iodc == bits_to_nat(bits.subrange(70, 72) + bits.subrange(168, 176))
    &&& b.t_gd == field_i(bits, 160, 168)
    &&& b.t_oc == field_u(bits, 176, 192) * 16
    &&& b.a_f2 == field_i(bits, 192, 200)
    &&& b.a_f1 == field_i(bits, 200, 216)
    &&& b.a_f0 == field_i(bits, 216, 238)
}

impl Body {
    /// Decodes subframe 1 from the 240 data bits of a subframe.
    pub fn new(bits: &[bool; 240]) -> (r: Result<Body, DigSigProcErr>)
        ensures
            r is Ok <==> is_valid(bits@),
            r matches Ok(b) ==> decodes_to(bits@, b),
            !is_valid(bits@) ==> r == Err::<Body, DigSigProcErr>(DigSigProcErr::InvalidTelemetryData("Invalid code_on_l2 field in subframe 1")),
    {
        let week_number: u16 = bools_to_int::to_u16(&bits[48..58])?;
        let code_on_l2 = match (bits[58], bits[59]) {
            (false, false) => CodeOnL2::Reserved,
            (false, true) => CodeOnL2::P_Code,
            (true, false) => CodeOnL2::CA_Code,
            (true, true) => {
                return Err(DigSigProcErr::InvalidTelemetryData("Invalid code_on_l2 field in subframe 1"));
            },
        };
        let ura_index: u8 = bools_to_int::to_u8(&bits[60..64])?;
        let sv_health: u8 = bools_to_int::to_u8(&bits[64..70])?;
        let iodc_bits = bools_to_int::concat_bits(&bits[70..72], &bits[168..176]);
        let iodc: u16 = bools_to_int::to_u16(iodc_bits.as_slice())?;
        let t_gd: i8 = bools_to_int::to_i8(&bits[160..168])?;
        let t_oc_raw: u32 = bools_to_int::to_u32(&bits[176..192])?;
        proof { bools_to_int::lemma_bits_to_nat_bound(bits@.subrange(176, 192)); vstd::arithmetic::power2::lemma2_to64(); }
        let t_oc: u32 = t_oc_raw * 16u32;
        let a_f2: i8 = bools_to_int::to_i8(&bits[192..200])?;
        let a_f1: i16 = bools_to_int::to_i16(&bits[200..216])?;
        let a_f0: i32 = bools_to_int::to_i32(&bits[216..238])?;
        Ok(Body { week_number, code_on_l2, ura_index, sv_health, iodc, t_gd, t_oc, a_f2, a_f1, a_f0 })
    }
}

/// Subframe 1 holds its fields where the navigation message's layout puts them, in word
/// and bit numbers: week number word 3 bits 1-10, L2 code flags bits 11-12, URA index bits
/// 13-16, SV health bits 17-22, IODC bits 23-24 of word 3 then bits 1-8 of word 8, T_GD word 7
/// bits 17-24, t_oc word 8 bits 9-24 (in units of 16 s), a_f2 word 9 bits 1-8, a_f1 word 9
/// bits 9-24 and a_f0 word 10 bits 1-22.
pub proof fn law_subframe1_layout(bits: Seq<bool>, b: Body)
    requires
        decodes_to(bits, b),
    ensures
        b.week_number == lnav_u(bits, 3, 1, 3, 10),
        b.code_on_l2 == CodeOnL2::P_Code <==> (!bits[lnav_bit(3, 11)] && bits[lnav_bit(3, 12)]),
        b.code_on_l2 == CodeOnL2::CA_Code <==> (bits[lnav_bit(3, 11)] && !bits[lnav_bit(3, 12)]),
        b.code_on_l2 == CodeOnL2::Reserved <==> (!bits[lnav_bit(3, 11)] && !bits[lnav_bit(3, 12)]),
        !(bits[lnav_bit(3, 11)] && bits[lnav_bit(3, 12)]),
        b.ura_index == lnav_u(bits, 3, 13, 3, 16),
        b.sv_health == lnav_u(bits, 3, 17, 3, 22),
        b.iodc == bits_to_nat(bits.subrange(lnav_bit(3, 23), lnav_bit(3, 24) + 1) + bits.subrange(lnav_bit(8, 1), lnav_bit(8, 8) + 1)),
        b.t_gd == lnav_i(bits, 7, 17, 7, 24),
        b.t_oc == lnav_u(bits, 8, 9, 8, 24) * 16,
        b.a_f2 == lnav_i(bits, 9, 1, 9, 8),
        b.a_f1 == lnav_i(bits, 9, 9, 9, 24),
        b.a_f0 == lnav_i(bits, 10, 1, 10, 22),
{
}

} // verus!
