//! Subframe 4 of the GPS L1 C/A navigation message: almanac, ionosphere, UTC and
//! special messages, one page per frame.

use vstd::prelude::*;
use crate::DigSigProcErr;
use crate::utils::bools_to_int::{self, bits_to_int, field_u, field_i};
use super::{almanac_matches, lnav_bit, lnav_u, lnav_i};

verus! {

/// The header of subframe 4 and the page that its SV ID selects.
#[derive(Debug, Copy, Clone)]
pub struct Body {
    pub data_id: u8,
    pub sv_id: u8,
    pub page: Page,
}

/// The pages of subframe 4, each field held as the integer the message transmits.
/// Almanac fields have the scales of the interface specification (see `almanac_matches`);
/// `t_oa` and `t_ot` are in seconds; `alpha_n` are in units of 2^-30, 2^-27, 2^-24, 2^-24,
/// `beta_n` of 2^11, 2^14, 2^16, 2^16; `a1` of 2^-50 s/s and `a0` of 2^-30 s.
#[allow(non_snake_case)]
#[derive(Debug, Copy, Clone)]
pub enum Page {
    AlmanacData {
        e: u16,
        t_oa: u32,
        delta_i: i16,
        omega_dot: i16,
        sv_health: u8,
        sqrt_a: u32,
        omega0: i32,
        omega: i32,
        m0: i32,
        af0: i16,
        af1: i32,
    },
    NavigationMessageCorrectionTable { availability: u8, erd: [u8; 30] },
    SpecialMessages([u8; 22]),
    Page18 {
        alpha0: i8,
        alpha1: i8,
        alpha2: i8,
        alpha3: i8,
        beta0: i8,
        beta1: i8,
        beta2: i8,
        beta3: i8,
        a1: i32,
        a0: i32,
        t_ot: u32,
        wn_t: u8,
        delta_t_LS: i8,
        wn_LSF: u8,
        delta_t_LSF: i8,
    },
    Page25 { antispoof_and_config: [u8; 32], sv_health: [u8; 8] },
    Reserved,
}

/// `page` is the page that SV ID `sv_id` selects, holding exactly the fields of `bits`.
pub open spec fn page_matches(bits: Seq<bool>, sv_id: nat, page: Page) -> bool {
    if 25 <= sv_id <= 32 {
        page matches Page::AlmanacData { e, t_oa, delta_i, omega_dot, sv_health, sqrt_a, omega0, omega, m0, af0, af1 }
            && almanac_matches(bits, e as int, t_oa as int, delta_i as int, omega_dot as int, sv_health as int,
                sqrt_a as int, omega0 as int, omega as int, m0 as int, af0 as int, af1 as int)
    } else if sv_id == 52 {
        page matches Page::NavigationMessageCorrectionTable { availability, erd }
            && availability == field_u(bits, 56, 58)
            && forall|i: int| 0 <= i < 30 ==> #[trigger] erd@[i] == field_u(bits, 58 + 6 * i, 64 + 6 * i)
    } else if sv_id == 55 {
        page matches Page::SpecialMessages(message)
            && forall|i: int| 0 <= i < 22 ==> #[trigger] message@[i] == field_u(bits, 56 + 8 * i, 64 + 8 * i)
    } else if sv_id == 56 {
        page matches Page::Page18 { alpha0, alpha1, alpha2, alpha3, beta0, beta1, beta2, beta3, a1, a0, t_ot, wn_t,
            delta_t_LS, wn_LSF, delta_t_LSF }
            && alpha0 == field_i(bits, 56, 64) && alpha1 == field_i(bits, 64, 72)
            && alpha2 == field_i(bits, 72, 80) && alpha3 == field_i(bits, 80, 88)
            && beta0 == field_i(bits, 88, 96) && beta1 == field_i(bits, 96, 104)
            && beta2 == field_i(bits, 104, 112) && beta3 == field_i(bits, 112, 120)
            && a1 == field_i(bits, 120, 144) && a0 == field_i(bits, 144, 176)
            && t_ot == field_u(bits, 176, 184) * 4096 && wn_t == field_u(bits, 184, 192)
            && delta_t_LS == field_i(bits, 192, 200) && wn_LSF == field_u(bits, 200, 208)
            && delta_t_LSF == field_i(bits, 208, 216)
    } else if sv_id == 62 {
        page matches Page::Page25 { antispoof_and_config, sv_health }
            && (forall|i: int| 0 <= i < 32 ==> #[trigger] antispoof_and_config@[i] == field_u(bits, 56 + 4 * i, 60 + 4 * i))
            && (forall|i: int| 0 <= i < 8 ==> #[trigger] sv_health@[i] == field_u(bits, 186 + 6 * i, 192 + 6 * i))
    } else {
        page is Reserved
    }
}

/// `b` holds exactly the fields that `bits` transmits.
pub open spec fn decodes_to(bits: Seq<bool>, b: Body) -> bool {
    &&& b.data_id == field_u(bits, 48, 50)
    &&& b.sv_id == field_u(bits, 50, 56)
    &&& page_matches(bits, b.sv_id as nat, b.page)
}

impl Body {
    /// Decodes subframe 4 from the 240 data bits of a subframe; every bit pattern is a
    /// valid subframe 4 (unassigned SV IDs give a reserved page).
    #[verifier::rlimit(50)]
    pub fn new(bits: &[bool; 240]) -> (r: Result<Body, DigSigProcErr>)
        ensures
            r matches Ok(b) && decodes_to(bits@, b),
    {
        let data_id: u8 = bools_to_int::to_u8(&bits[48..50])?;
        let sv_id: u8 = bools_to_int::to_u8(&bits[50..56])?;
        let page: Page = if 25 <= sv_id && sv_id <= 32 {
            let e: u16 = bools_to_int::to_u16(&bits[56..72])?;
            let t_oa_raw: u32 = bools_to_int::to_u32(&bits[72..80])?;
            proof { bools_to_int::lemma_bits_to_nat_bound(bits@.subrange(72, 80)); vstd::arithmetic::power2::lemma2_to64(); }
            let t_oa: u32 = t_oa_raw * 4096u32;
            let delta_i: i16 = bools_to_int::to_i16(&bits[80..96])?;
            let omega_dot: i16 = bools_to_int::to_i16(&bits[96..112])?;
            let sv_health: u8 = bools_to_int::to_u8(&bits[112..120])?;
            let sqrt_a: u32 = bools_to_int::to_u32(&bits[120..144])?;
            let omega0: i32 = bools_to_int::to_i32(&bits[144..168])?;
            let omega: i32 = bools_to_int::to_i32(&bits[168..192])?;
            let m0: i32 = bools_to_int::to_i32(&bits[192..216])?;
            let af0_bits = bools_to_int::concat_bits(&bits[216..224], &bits[235..238]);
            let af0: i16 = bools_to_int::to_i16(af0_bits.as_slice())?;
            let af1: i32 = bools_to_int::to_i32(&bits[224..235])?;
            Page::AlmanacData { e, t_oa, delta_i, omega_dot, sv_health, sqrt_a, omega0, omega, m0, af0, af1 }
        } else if sv_id == 52 {
            let availability: u8 = bools_to_int::to_u8(&bits[56..58])?;
            let mut erd: [u8; 30] = [0; 30];
            for i in 0..30
                invariant
                    forall|j: int| 0 <= j < i ==> #[trigger] erd@[j] == field_u(bits@, 58 + 6 * j, 64 + 6 * j),
            {
                erd[i] = bools_to_int::to_u8(&bits[(58 + (i * 6))..(64 + (i * 6))])?;
            }
            Page::NavigationMessageCorrectionTable { availability, erd }
        } else if sv_id == 55 {
            let mut message: [u8; 22] = [0; 22];
            for i in 0..22
                invariant
                    forall|j: int| 0 <= j < i ==> #[trigger] message@[j] == field_u(bits@, 56 + 8 * j, 64 + 8 * j),
            {
                message[i] = bools_to_int::to_u8(&bits[(56 + (i * 8))..(64 + (i * 8))])?;
            }
            Page::SpecialMessages(message)
        } else if sv_id == 56 {
            let alpha0: i8 = bools_to_int::to_i8(&bits[56..64])?;
            let alpha1: i8 = bools_to_int::to_i8(&bits[64..72])?;
            let alpha2: i8 = bools_to_int::to_i8(&bits[72..80])?;
            let alpha3: i8 = bools_to_int::to_i8(&bits[80..88])?;
            let beta0: i8 = bools_to_int::to_i8(&bits[88..96])?;
            let beta1: i8 = bools_to_int::to_i8(&bits[96..104])?;
            let beta2: i8 = bools_to_int::to_i8(&bits[104..112])?;
            let beta3: i8 = bools_to_int::to_i8(&bits[112..120])?;
            let a1: i32 = bools_to_int::to_i32(&bits[120..144])?;
            let a0: i32 = bools_to_int::to_i32(&bits[144..176])?;
            let t_ot_raw: u32 = bools_to_int::to_u32(&bits[176..184])?;
            proof { bools_to_int::lemma_bits_to_nat_bound(bits@.subrange(176, 184)); vstd::arithmetic::power2::lemma2_to64(); }
            let t_ot: u32 = t_ot_raw * 4096u32;
            let wn_t: u8 = bools_to_int::to_u8(&bits[184..192])?;
            let delta_t_ls: i8 = bools_to_int::to_i8(&bits[192..200])?;
            let wn_lsf: u8 = bools_to_int::to_u8(&bits[200..208])?;
            let delta_t_lsf: i8 = bools_to_int::to_i8(&bits[208..216])?;
            Page::Page18 {
                alpha0, alpha1, alpha2, alpha3, beta0, beta1, beta2, beta3, a1, a0, t_ot, wn_t,
                delta_t_LS: delta_t_ls, wn_LSF: wn_lsf, delta_t_LSF: delta_t_lsf,
            }
        } else if sv_id == 62 {
            let mut antispoof_and_config: [u8; 32] = [0; 32];
            for i in 0..32
                invariant
                    forall|j: int| 0 <= j < i ==> #[trigger] antispoof_and_config@[j] == field_u(bits@, 56 + 4 * j, 60 + 4 * j),
            {
                antispoof_and_config[i] = bools_to_int::to_u8(&bits[(56 + (i * 4))..(60 + (i * 4))])?;
            }
            let mut sv_health: [u8; 8] = [0; 8];
            for i in 0..8
                invariant
                    forall|j: int| 0 <= j < i ==> #[trigger] sv_health@[j] == field_u(bits@, 186 + 6 * j, 192 + 6 * j),
            {
                sv_health[i] = bools_to_int::to_u8(&bits[(186 + (i * 6))..(192 + (i * 6))])?;
            }
            Page::Page25 { antispoof_and_config, sv_health }
        } else {
            Page::Reserved
        };
        Ok(Body { data_id, sv_id, page })
    }
}

/// Subframe 4 holds its fields where the layout puts them: data ID word 3 bits 1-2, SV ID
/// bits 3-8; the SV ID selects the page.  Page 18 holds alpha_0..alpha_3 in word 3 bits 9-16
/// and 17-24 and word 4 bits 1-8 and 9-16, beta_0..beta_3 in word 4 bits 17-24 and word 5 bits
/// 1-8, 9-16 and 17-24, A_1 in word 6, A_0 in word 7 then word 8 bits 1-8, t_ot in word 8 bits
/// 9-16 (in units of 4096 s), WN_t in word 8 bits 17-24, delta t_LS, WN_LSF and delta t_LSF
/// in word 9 bits 1-8, 9-16 and 17-24.  The correction table page holds its availability in
/// word 3 bits 9-10 and its 30 six-bit ERDs from word 3 bit 11 on; the special message its
/// 22 characters from word 3 bit 9 on; page 25 its 32 four-bit configurations from word 3
/// bit 9 on and 8 six-bit health words from word 8 bit 19 on.
pub proof fn law_subframe4_layout(bits: Seq<bool>, b: Body)
    requires
        decodes_to(bits, b),
    ensures
        b.data_id == lnav_u(bits, 3, 1, 3, 2),
        b.sv_id == lnav_u(bits, 3, 3, 3, 8),
        (25 <= b.sv_id <= 32) <==> b.page is AlmanacData,
        b.sv_id == 52 <==> b.page is NavigationMessageCorrectionTable,
        b.sv_id == 55 <==> b.page is SpecialMessages,
        b.sv_id == 56 <==> b.page is Page18,
        b.sv_id == 62 <==> b.page is Page25,
        match b.page {
            Page::Page18 { alpha0, alpha1, alpha2, alpha3, beta0, beta1, beta2, beta3, a1, a0, t_ot, wn_t,
                delta_t_LS, wn_LSF, delta_t_LSF } => {
                &&& alpha0 == lnav_i(bits, 3, 9, 3, 16)
                &&& alpha1 == lnav_i(bits, 3, 17, 3, 24)
                &&& alpha2 == lnav_i(bits, 4, 1, 4, 8)
                &&& alpha3 == lnav_i(bits, 4, 9, 4, 16)
                &&& beta0 == lnav_i(bits, 4, 17, 4, 24)
                &&& beta1 == lnav_i(bits, 5, 1, 5, 8)
                &&& beta2 == lnav_i(bits, 5, 9, 5, 16)
                &&& beta3 == lnav_i(bits, 5, 17, 5, 24)
                &&& a1 == lnav_i(bits, 6, 1, 6, 24)
                &&& a0 == lnav_i(bits, 7, 1, 8, 8)
                &&& t_ot == lnav_u(bits, 8, 9, 8, 16) * 4096
                &&& wn_t == lnav_u(bits, 8, 17, 8, 24)
                &&& delta_t_LS == lnav_i(bits, 9, 1, 9, 8)
                &&& wn_LSF == lnav_u(bits, 9, 9, 9, 16)
                &&& delta_t_LSF == lnav_i(bits, 9, 17, 9, 24)
            },
            Page::NavigationMessageCorrectionTable { availability, erd } => {
                &&& availability == lnav_u(bits, 3, 9, 3, 10)
                &&& forall|i: int| 0 <= i < 30 ==>
                    #[trigger] erd@[i] == field_u(bits, lnav_bit(3, 11) + 6 * i, lnav_bit(3, 11) + 6 * i + 6)
            },
            Page::SpecialMessages(message) =>
                forall|i: int| 0 <= i < 22 ==>
                    #[trigger] message@[i] == field_u(bits, lnav_bit(3, 9) + 8 * i, lnav_bit(3, 9) + 8 * i + 8),
            Page::Page25 { antispoof_and_config, sv_health } => {
                &&& forall|i: int| 0 <= i < 32 ==>
                    #[trigger] antispoof_and_config@[i] == field_u(bits, lnav_bit(3, 9) + 4 * i, lnav_bit(3, 9) + 4 * i + 4)
                &&& forall|i: int| 0 <= i < 8 ==>
                    #[trigger] sv_health@[i] == field_u(bits, lnav_bit(8, 19) + 6 * i, lnav_bit(8, 19) + 6 * i + 6)
            },
            _ => true,
        },
{
}

} // verus!
