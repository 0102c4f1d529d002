//! Subframe 5 of the GPS L1 C/A navigation message: almanac and health pages.

use vstd::prelude::*;
use crate::DigSigProcErr;
use crate::utils::bools_to_int::{self, field_u};
use super::{almanac_matches, lnav_bit, lnav_u};

verus! {

/// The header of subframe 5 and the page that its SV ID selects.
#[derive(Debug, Copy, Clone)]
pub struct Body {
    pub data_id: u8,
    pub sv_id: u8,
    pub page: Page,
}

/// The pages of subframe 5, each field held as the integer the message transmits
/// (see `almanac_matches` for the almanac scales; `t_oa` is in seconds).
#[allow(non_snake_case)]
#[derive(Debug, Copy, Clone)]
pub enum Page {
    AlmanacData {
        e: u16,
        t_oa: u32,
        delta_i: i16,
        omega_dot: i16,
        sv_health: u8,
        sqrt_a: u32,
        omega0: i32,
        omega: i32,
        m0: i32,
        af0: i16,
        af1: i32,
    },
    Page25 { t_oa: u32, WN_a: u8, sv_health: [u8; 24] },
}

/// Subframe 5 carries a page only for SV IDs 1 through 25.
pub open spec fn is_valid(bits: Seq<bool>) -> bool {
    1 <= field_u(bits, 50, 56) <= 25
}

/// `page` is the page that SV ID `sv_id` selects, holding exactly the fields of `bits`.
pub open spec fn page_matches(bits: Seq<bool>, sv_id: nat, page: Page) -> bool {
    if 1 <= sv_id <= 24 {
        page matches Page::AlmanacData { e, t_oa, delta_i, omega_dot, sv_health, sqrt_a, omega0, omega, m0, af0, af1 }
            && almanac_matches(bits, e as int, t_oa as int, delta_i as int, omega_dot as int, sv_health as int,
                sqrt_a as int, omega0 as int, omega as int, m0 as int, af0 as int, af1 as int)
    } else {
        page matches Page::Page25 { t_oa, WN_a, sv_health }
            && t_oa == field_u(bits, 56, 64) * 4096
            && WN_a == field_u(bits, 64, 72)
            && forall|i: int| 0 <= i < 24 ==> #[trigger] sv_health@[i] == field_u(bits, 72 + 6 * i, 78 + 6 * i)
    }
}

/// `b` holds exactly the fields that `bits` transmits.
pub open spec fn decodes_to(bits: Seq<bool>, b: Body) -> bool {
    &&& b.data_id == field_u(bits, 48, 50)
    &&& b.sv_id == field_u(bits, 50, 56)
    &&& page_matches(bits, b.sv_id as nat, b.page)
}

impl Body {
    /// Decodes subframe 5 from the 240 data bits of a subframe; an SV ID outside 1..=25
    /// is refused.
    #[verifier::rlimit(50)]
    pub fn new(bits: &[bool; 240]) -> (r: Result<Body, DigSigProcErr>)
        ensures
            r is Ok <==> is_valid(bits@),
            r matches Ok(b) ==> decodes_to(bits@, b),
            !is_valid(bits@) ==> r == Err::<Body, DigSigProcErr>(DigSigProcErr::InvalidTelemetryData("Page number other than 1 through 25")),
    {
        let data_id: u8 = bools_to_int::to_u8(&bits[48..50])?;
        let sv_id: u8 = bools_to_int::to_u8(&bits[50..56])?;
        let page: Page = if 1 <= sv_id && sv_id <= 24 {
            let e: u16 = bools_to_int::to_u16(&bits[56..72])?;
            let t_oa_raw: u32 = bools_to_int::to_u32(&bits[72..80])?;
            proof { bools_to_int::lemma_bits_to_nat_bound(bits@.subrange(72, 80)); vstd::arithmetic::power2::lemma2_to64(); }
            let t_oa: u32 = t_oa_raw * 4096u32;
            let delta_i: i16 = bools_to_int::to_i16(&bits[80..96])?;
            let omega_dot: i16 = bools_to_int::to_i16(&bits[96..112])?;
            let sv_health: u8 = bools_to_int::to_u8(&bits[112..120])?;
            let sqrt_a: u32 = bools_to_int::to_u32(&bits[120..144])?;
            let omega0: i32 = bools_to_int::to_i32(&bits[144..168])?;
            let omega: i32 = bools_to_int::to_i32(&bits[168..192])?;
            let m0: i32 = bools_to_int::to_i32(&bits[192..216])?;
            let af0_bits = bools_to_int::concat_bits(&bits[216..224], &bits[235..238]);
            let af0: i16 = bools_to_int::to_i16(af0_bits.as_slice())?;
            let af1: i32 = bools_to_int::to_i32(&bits[224..235])?;
            Page::AlmanacData { e, t_oa, delta_i, omega_dot, sv_health, sqrt_a, omega0, omega, m0, af0, af1 }
        } else if sv_id == 25 {
            let t_oa_raw: u32 = bools_to_int::to_u32(&bits[56..64])?;
            proof { bools_to_int::lemma_bits_to_nat_bound(bits@.subrange(56, 64)); vstd::arithmetic::power2::lemma2_to64(); }
            let t_oa: u32 = t_oa_raw * 4096u32;
            let wn_a: u8 = bools_to_int::to_u8(&bits[64..72])?;
            let mut sv_health: [u8; 24] = [0; 24];
            for i in 0..24
                invariant
                    forall|j: int| 0 <= j < i ==> #[trigger] sv_health@[j] == field_u(bits@, 72 + 6 * j, 78 + 6 * j),
            {
                sv_health[i] = bools_to_int::to_u8(&bits[(72 + (i * 6))..(78 + (i * 6))])?;
            }
            Page::Page25 { t_oa, WN_a: wn_a, sv_health }
        } else {
            return Err(DigSigProcErr::InvalidTelemetryData("Page number other than 1 through 25"));
        };
        Ok(Body { data_id, sv_id, page })
    }
}

/// Subframe 5 holds its fields where the layout puts them: data ID word 3 bits 1-2, SV ID
/// bits 3-8; SV IDs 1 to 24 carry almanac pages, the others page 25 (decoding accepts only
/// SV ID 25 there), which holds t_oa in word 3
/// bits 9-16 (in units of 4096 s), WN_a in word 3 bits 17-24 and 24 six-bit health words from
/// word 4 bit 1 on.
pub proof fn law_subframe5_layout(bits: Seq<bool>, b: Body)
    requires
        decodes_to(bits, b),
    ensures
        b.data_id == lnav_u(bits, 3, 1, 3, 2),
        b.sv_id == lnav_u(bits, 3, 3, 3, 8),
        (1 <= b.sv_id <= 24) <==> b.page is AlmanacData,
        !(1 <= b.sv_id <= 24) <==> b.page is Page25,
        b.page matches Page::Page25 { t_oa, WN_a, sv_health } ==> {
            &&& t_oa == lnav_u(bits, 3, 9, 3, 16) * 4096
            &&& WN_a == lnav_u(bits, 3, 17, 3, 24)
            &&& forall|i: int| 0 <= i < 24 ==>
                #[trigger] sv_health@[i] == field_u(bits, lnav_bit(4, 1) + 6 * i, lnav_bit(4, 1) + 6 * i + 6)
        },
{
}

} // verus!
