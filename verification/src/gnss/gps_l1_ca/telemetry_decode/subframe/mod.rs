pub mod subframe1;
pub mod subframe2;
pub mod subframe3;
pub mod subframe4;
pub mod subframe5;

use vstd::prelude::*;
use crate::DigSigProcErr;
use crate::utils::bools_to_int::{self, bits_to_int, field_u, field_i};

verus! {

/// The almanac fields of subframes 4 and 5 as the message transmits them: `e` in units of
/// 2^-21, `t_oa` in seconds, `delta_i` in 2^-19 semicircles, `omega_dot` in 2^-38
/// semicircles/s, `sqrt_a` in 2^-11 m^1/2, `omega0`, `omega` and `m0` in 2^-23
/// semicircles, `af0` in 2^-20 s (split over bits 217-224 and 236-238) and `af1` in
/// 2^-18 s/s.
pub open spec fn almanac_matches(bits: Seq<bool>, e: int, t_oa: int, delta_i: int, omega_dot: int, sv_health: int,
    sqrt_a: int, omega0: int, omega: int, m0: int, af0: int, af1: int) -> bool {
    &&& e == field_u(bits, 56, 72)
    &&& t_oa == field_u(bits, 72, 80) * 4096
    &&& delta_i == field_i(bits, 80, 96)
    &&& omega_dot == field_i(bits, 96, 112)
    &&& sv_health == field_u(bits, 112, 120)
    &&& sqrt_a == field_u(bits, 120, 144)
    &&& omega0 == field_i(bits, 144, 168)
    &&& omega == field_i(bits, 168, 192)
    &&& m0 == field_i(bits, 192, 216)
    &&& af0 == bits_to_int(bits.subrange(216, 224) + bits.subrange(235, 238))
    &&& af1 == field_i(bits, 224, 235)
}

/// The index, among the 240 data bits of a subframe (the six parity bits of each word
/// removed), of bit `bit` (1 to 24, most significant first) of word `word` (1 to 10), in the
/// numbering of the navigation message's subframe layout.
pub open spec fn lnav_bit(word: int, bit: int) -> int {
    24 * (word - 1) + (bit - 1)
}

/// The unsigned field that runs from bit `b1` of word `w1` through bit `b2` of word `w2`.
pub open spec fn lnav_u(bits: Seq<bool>, w1: int, b1: int, w2: int, b2: int) -> int {
    field_u(bits, lnav_bit(w1, b1), lnav_bit(w2, b2) + 1) as int
}

/// The two's complement field that runs from bit `b1` of word `w1` through bit `b2` of word
/// `w2`.
pub open spec fn lnav_i(bits: Seq<bool>, w1: int, b1: int, w2: int, b2: int) -> int {
    field_i(bits, lnav_bit(w1, b1), lnav_bit(w2, b2) + 1)
}

/// Every subframe carries, in its handover word (word 2), the truncated time of week in bits
/// 1 to 17 and the subframe ID in bits 20 to 22.
pub proof fn law_handover_word_layout(bits: Seq<bool>, sf: Subframe)
    requires
        decodes_to(bits, sf),
    ensures
        sf.time_of_week_truncated == lnav_u(bits, 2, 1, 2, 17),
        sf.subframe_id == lnav_u(bits, 2, 20, 2, 22),
{
}

/// An almanac page (subframe 5 pages 1-24, subframe 4 pages for SV IDs 25-32) holds its
/// fields where the layout puts them: e word 3 bits 9-24, t_oa word 4 bits 1-8 (in units of
/// 4096 s), delta i word 4 bits 9-24, OMEGA dot word 5 bits 1-16, SV health word 5 bits 17-24,
/// sqrt A word 6, OMEGA_0 word 7, omega word 8, M_0 word 9, a_f1 word 10 bits 9-19, and a_f0
/// its eight high bits in word 10 bits 1-8 followed by its three low bits in bits 20-22.
pub proof fn law_almanac_layout(bits: Seq<bool>, e: int, t_oa: int, delta_i: int, omega_dot: int, sv_health: int,
    sqrt_a: int, omega0: int, omega: int, m0: int, af0: int, af1: int)
    requires
        almanac_matches(bits, e, t_oa, delta_i, omega_dot, sv_health, sqrt_a, omega0, omega, m0, af0, af1),
    ensures
        e == lnav_u(bits, 3, 9, 3, 24),
        t_oa == lnav_u(bits, 4, 1, 4, 8) * 4096,
        delta_i == lnav_i(bits, 4, 9, 4, 24),
        omega_dot == lnav_i(bits, 5, 1, 5, 16),
        sv_health == lnav_u(bits, 5, 17, 5, 24),
        sqrt_a == lnav_u(bits, 6, 1, 6, 24),
        omega0 == lnav_i(bits, 7, 1, 7, 24),
        omega == lnav_i(bits, 8, 1, 8, 24),
        m0 == lnav_i(bits, 9, 1, 9, 24),
        af0 == bits_to_int(bits.subrange(lnav_bit(10, 1), lnav_bit(10, 8) + 1) + bits.subrange(lnav_bit(10, 20), lnav_bit(10, 22) + 1)),
        af1 == lnav_i(bits, 10, 9, 10, 19),
{
}

/// A decoded subframe: the truncated time of week of its handover word, its ID and body.
#[derive(Debug, Copy, Clone)]
pub struct Subframe {
    pub time_of_week_truncated: u32,
    pub subframe_id: u8,
    pub body: SubframeBody,
}

/// The body of a subframe, by subframe ID.
#[derive(Debug, Copy, Clone)]
pub enum SubframeBody {
    Subframe1(subframe1::Body),
    Subframe2(subframe2::Body),
    Subframe3(subframe3::Body),
    Subframe4(subframe4::Body),
    Subframe5(subframe5::Body),
}

/// The subframe ID that the handover word of `bits` carries (bits 44 to 46).
pub open spec fn subframe_id_of(bits: Seq<bool>) -> nat {
    field_u(bits, 43, 46)
}

/// `bits` decode to a subframe: the ID is 1 to 5 and the body of that ID is valid.
pub open spec fn is_valid(bits: Seq<bool>) -> bool {
    let id = subframe_id_of(bits);
    &&& 1 <= id <= 5
    &&& id == 1 ==> subframe1::is_valid(bits)
    &&& id == 5 ==> subframe5::is_valid(bits)
}

/// The error for 240 data bits that do not decode: a subframe ID outside 1 to 5, the
/// undefined L2 code of subframe 1, or an SV ID outside 1 to 25 in subframe 5.
pub open spec fn decode_error(bits: Seq<bool>) -> DigSigProcErr {
    let id = subframe_id_of(bits);
    if !(1 <= id <= 5) {
        DigSigProcErr::InvalidTelemetryData("Subframe number other than 1 through 5")
    } else if id == 1 {
        DigSigProcErr::InvalidTelemetryData("Invalid code_on_l2 field in subframe 1")
    } else {
        DigSigProcErr::InvalidTelemetryData("Page number other than 1 through 25")
    }
}

/// `sf` holds exactly what `bits` transmits.
pub open spec fn decodes_to(bits: Seq<bool>, sf: Subframe) -> bool {
    &&& sf.time_of_week_truncated == field_u(bits, 24, 41)
    &&& sf.subframe_id == subframe_id_of(bits)
    &&& match sf.body {
        SubframeBody::Subframe1(b) => sf.subframe_id == 1 && subframe1::decodes_to(bits, b),
        SubframeBody::Subframe2(b) => sf.subframe_id == 2 && subframe2::decodes_to(bits, b),
        SubframeBody::Subframe3(b) => sf.subframe_id == 3 && subframe3::decodes_to(bits, b),
        SubframeBody::Subframe4(b) => sf.subframe_id == 4 && subframe4::decodes_to(bits, b),
        SubframeBody::Subframe5(b) => sf.subframe_id == 5 && subframe5::decodes_to(bits, b),
    }
}

/// Decodes the 240 data bits of a subframe (parity bits removed).
pub fn decode(bits: [bool; 240]) -> (r: Result<Subframe, DigSigProcErr>)
    ensures
        r is Ok <==> is_valid(bits@),
        r matches Ok(sf) ==> decodes_to(bits@, sf),
        !is_valid(bits@) ==> r == Err::<Subframe, DigSigProcErr>(decode_error(bits@)),
{
    let time_of_week_truncated: u32 = bools_to_int::to_u32(&bits[24..41])?;
    let subframe_id: u8 = bools_to_int::to_u8(&bits[43..46])?;

    let body = match subframe_id {
        1 => SubframeBody::Subframe1(subframe1::Body::new(&bits)?),
        2 => SubframeBody::Subframe2(subframe2::Body::new(&bits)?),
        3 => SubframeBody::Subframe3(subframe3::Body::new(&bits)?),
        4 => SubframeBody::Subframe4(subframe4::Body::new(&bits)?),
        5 => SubframeBody::Subframe5(subframe5::Body::new(&bits)?),
        _ => { return Err(DigSigProcErr::InvalidTelemetryData("Subframe number other than 1 through 5")); },
    };

    Ok(Subframe { time_of_week_truncated, subframe_id, body })
}

} // verus!
