//! Decoding of GPS L1 C/A subframes into one flat enum that also records where each
//! subframe started in the sample stream.

use vstd::prelude::*;
use crate::DigSigProcErr;
use crate::utils::bools_to_int::{self, field_u};
use crate::gnss::gps_l1_ca::telemetry_decode::subframe::{self as sfm, subframe1, subframe2, subframe3, subframe4, subframe5, lnav_bit, lnav_u, lnav_i};
use crate::utils::bools_to_int::{bits_to_nat, bits_to_int};

verus! {

/// The handover-word fields that every subframe carries, and the index of the first sample
/// of the subframe.
#[derive(Debug, Copy, Clone)]
pub struct CommonFields {
    pub time_of_week_truncated: u32,
    pub subframe_id: u8,
    pub start_sample_idx: usize,
}

/// Which code the satellite transmits on L2.
#[allow(non_camel_case_types)]
#[derive(Debug, Copy, Clone, PartialEq, Eq)]
pub enum CodeOnL2 {
    Reserved,
    P_Code,
    CA_Code,
}

/// A decoded subframe; every field is held as the integer the message transmits, with the
/// scales documented on the bodies of `gps_l1_ca::telemetry_decode::subframe`.
#[derive(Debug, Copy, Clone)]
pub enum Subframe {
    Subframe1 {
        common: CommonFields,
        week_number: u16,
        code_on_l2: CodeOnL2,
        ura_index: u8,
        sv_health: u8,
        iodc: u16,
        t_gd: i8,
        t_oc: u32,
        a_f2: i8,
        a_f1: i16,
        a_f0: i32,
    },
    Subframe2 {
        common: CommonFields,
        iode: u8,
        crs: i16,
        dn: i16,
        m0: i32,
        cuc: i16,
        e: u32,
        cus: i16,
        sqrt_a: u32,
        t_oe: u32,
        fit_interval: bool,
        aodo: u8,
    },
    Subframe3 {
        common: CommonFields,
        cic: i16,
        omega0: i32,
        cis: i16,
        i0: i32,
        crc: i16,
        omega: i32,
        omega_dot: i32,
        iode: u8,
        idot: i16,
    },
    Subframe4 { common: CommonFields, data_id: u8, sv_id: u8, page: Subframe4 },
    Subframe5 { common: CommonFields, data_id: u8, sv_id: u8, page: Subframe5 },
}

/// The pages of subframe 4.
#[allow(non_snake_case)]
#[derive(Debug, Copy, Clone)]
pub enum Subframe4 {
    AlmanacData {
        e: u16,
        t_oa: u32,
        delta_i: i16,
        omega_dot: i16,
        sv_health: u8,
        sqrt_a: u32,
        omega0: i32,
        omega: i32,
        m0: i32,
        af0: i16,
        af1: i32,
    },
    NavigationMessageCorrectionTable { availability: u8, erd: [u8; 30] },
    SpecialMessages([u8; 22]),
    Page18 {
        alpha0: i8,
        alpha1: i8,
        alpha2: i8,
        alpha3: i8,
        beta0: i8,
        beta1: i8,
        beta2: i8,
        beta3: i8,
        a1: i32,
        a0: i32,
        t_ot: u32,
        wn_t: u8,
        delta_t_LS: i8,
        wn_LSF: u8,
        delta_t_LSF: i8,
    },
    Page25 { antispoof_and_config: [u8; 32], sv_health: [u8; 8] },
    Reserved,
}

/// The pages of subframe 5.
#[allow(non_snake_case)]
#[derive(Debug, Copy, Clone)]
pub enum Subframe5 {
    AlmanacData {
        e: u16,
        t_oa: u32,
        delta_i: i16,
        omega_dot: i16,
        sv_health: u8,
        sqrt_a: u32,
        omega0: i32,
        omega: i32,
        m0: i32,
        af0: i16,
        af1: i32,
    },
    Page25 { t_oa: u32, WN_a: u8, sv_health: [u8; 24] },
}

/// The same L2 code indication in the subframe-1 body type.
pub open spec fn code_view(c: CodeOnL2) -> subframe1::CodeOnL2 {
    match c {
        CodeOnL2::Reserved => subframe1::CodeOnL2::Reserved,
        CodeOnL2::P_Code => subframe1::CodeOnL2::P_Code,
        CodeOnL2::CA_Code => subframe1::CodeOnL2::CA_Code,
    }
}

/// The same subframe-4 page in the subframe-4 body type.
pub open spec fn page4_view(p: Subframe4) -> subframe4::Page {
    match p {
        Subframe4::AlmanacData { e, t_oa, delta_i, omega_dot, sv_health, sqrt_a, omega0, omega, m0, af0, af1 } =>
            subframe4::Page::AlmanacData { e, t_oa, delta_i, omega_dot, sv_health, sqrt_a, omega0, omega, m0, af0, af1 },
        Subframe4::NavigationMessageCorrectionTable { availability, erd } =>
            subframe4::Page::NavigationMessageCorrectionTable { availability, erd },
        Subframe4::SpecialMessages(m) => subframe4::Page::SpecialMessages(m),
        Subframe4::Page18 { alpha0, alpha1, alpha2, alpha3, beta0, beta1, beta2, beta3, a1, a0, t_ot, wn_t, delta_t_LS, wn_LSF, delta_t_LSF } =>
            subframe4::Page::Page18 { alpha0, alpha1, alpha2, alpha3, beta0, beta1, beta2, beta3, a1, a0, t_ot, wn_t, delta_t_LS, wn_LSF, delta_t_LSF },
        Subframe4::Page25 { antispoof_and_config, sv_health } => subframe4::Page::Page25 { antispoof_and_config, sv_health },
        Subframe4::Reserved => subframe4::Page::Reserved,
    }
}

/// The same subframe-5 page in the subframe-5 body type.
pub open spec fn page5_view(p: Subframe5) -> subframe5::Page {
    match p {
        Subframe5::AlmanacData { e, t_oa, delta_i, omega_dot, sv_health, sqrt_a, omega0, omega, m0, af0, af1 } =>
            subframe5::Page::AlmanacData { e, t_oa, delta_i, omega_dot, sv_health, sqrt_a, omega0, omega, m0, af0, af1 },
        Subframe5::Page25 { t_oa, WN_a, sv_health } => subframe5::Page::Page25 { t_oa, WN_a, sv_health },
    }
}

/// `sf` holds exactly what `bits` transmits, and records `start_sample_idx`.
pub open spec fn decodes_to(bits: Seq<bool>, start_sample_idx: usize, sf: Subframe) -> bool {
    let common_ok = |c: CommonFields|
        c.time_of_week_truncated == field_u(bits, 24, 41) && c.subframe_id == sfm::subframe_id_of(bits)
            && c.start_sample_idx == start_sample_idx;
    match sf {
        Subframe::Subframe1 { common, week_number, code_on_l2, ura_index, sv_health, iodc, t_gd, t_oc, a_f2, a_f1, a_f0 } =>
            common_ok(common) && common.subframe_id == 1 && subframe1::decodes_to(bits, subframe1::Body {
                week_number, code_on_l2: code_view(code_on_l2), ura_index, sv_health, iodc, t_gd, t_oc, a_f2, a_f1, a_f0 }),
        Subframe::Subframe2 { common, iode, crs, dn, m0, cuc, e, cus, sqrt_a, t_oe, fit_interval, aodo } =>
            common_ok(common) && common.subframe_id == 2 && subframe2::decodes_to(bits, subframe2::Body {
                iode, crs, dn, m0, cuc, e, cus, sqrt_a, t_oe, fit_interval, aodo }),
        Subframe::Subframe3 { common, cic, omega0, cis, i0, crc, omega, omega_dot, iode, idot } =>
            common_ok(common) && common.subframe_id == 3 && subframe3::decodes_to(bits, subframe3::Body {
                cic, omega0, cis, i0, crc, omega, omega_dot, iode, idot }),
        Subframe::Subframe4 { common, data_id, sv_id, page } =>
            common_ok(common) && common.subframe_id == 4 && subframe4::decodes_to(bits, subframe4::Body {
                data_id, sv_id, page: page4_view(page) }),
        Subframe::Subframe5 { common, data_id, sv_id, page } =>
            common_ok(common) && common.subframe_id == 5 && subframe5::decodes_to(bits, subframe5::Body {
                data_id, sv_id, page: page5_view(page) }),
    }
}

fn code_from(c: subframe1::CodeOnL2) -> (r: CodeOnL2)
    ensures
        code_view(r) == c,
{
    match c {
        subframe1::CodeOnL2::Reserved => CodeOnL2::Reserved,
        subframe1::CodeOnL2::P_Code => CodeOnL2::P_Code,
        subframe1::CodeOnL2::CA_Code => CodeOnL2::CA_Code,
    }
}

fn page4_from(p: subframe4::Page) -> (r: Subframe4)
    ensures
        page4_view(r) == p,
{
    match p {
        subframe4::Page::AlmanacData { e, t_oa, delta_i, omega_dot, sv_health, sqrt_a, omega0, omega, m0, af0, af1 } =>
            Subframe4::AlmanacData { e, t_oa, delta_i, omega_dot, sv_health, sqrt_a, omega0, omega, m0, af0, af1 },
        subframe4::Page::NavigationMessageCorrectionTable { availability, erd } =>
            Subframe4::NavigationMessageCorrectionTable { availability, erd },
        subframe4::Page::SpecialMessages(m) => Subframe4::SpecialMessages(m),
        subframe4::Page::Page18 { alpha0, alpha1, alpha2, alpha3, beta0, beta1, beta2, beta3, a1, a0, t_ot, wn_t, delta_t_LS, wn_LSF, delta_t_LSF } =>
            Subframe4::Page18 { alpha0, alpha1, alpha2, alpha3, beta0, beta1, beta2, beta3, a1, a0, t_ot, wn_t, delta_t_LS, wn_LSF, delta_t_LSF },
        subframe4::Page::Page25 { antispoof_and_config, sv_health } => Subframe4::Page25 { antispoof_and_config, sv_health },
        subframe4::Page::Reserved => Subframe4::Reserved,
    }
}

fn page5_from(p: subframe5::Page) -> (r: Subframe5)
    ensures
        page5_view(r) == p,
{
    match p {
        subframe5::Page::AlmanacData { e, t_oa, delta_i, omega_dot, sv_health, sqrt_a, omega0, omega, m0, af0, af1 } =>
            Subframe5::AlmanacData { e, t_oa, delta_i, omega_dot, sv_health, sqrt_a, omega0, omega, m0, af0, af1 },
        subframe5::Page::Page25 { t_oa, WN_a, sv_health } => Subframe5::Page25 { t_oa, WN_a, sv_health },
    }
}

/// Decodes the 240 data bits of a subframe (parity bits removed) that started at sample
/// `start_sample_idx`.
pub fn decode(bits: [bool; 240], start_sample_idx: usize) -> (r: Result<Subframe, DigSigProcErr>)
    ensures
        r is Ok <==> sfm::is_valid(bits@),
        r matches Ok(sf) ==> decodes_to(bits@, start_sample_idx, sf),
        !sfm::is_valid(bits@) ==> r == Err::<Subframe, DigSigProcErr>(sfm::decode_error(bits@)),
{
    let time_of_week_truncated: u32 = bools_to_int::to_u32(&bits[24..41])?;
    let subframe_id: u8 = bools_to_int::to_u8(&bits[43..46])?;
    let common = CommonFields { time_of_week_truncated, subframe_id, start_sample_idx };

    match subframe_id {
        1 => {
            let b = subframe1::Body::new(&bits)?;
            Ok(Subframe::Subframe1 {
                common, week_number: b.week_number, code_on_l2: code_from(b.code_on_l2), ura_index: b.ura_index,
                sv_health: b.sv_health, iodc: b.iodc, t_gd: b.t_gd, t_oc: b.t_oc, a_f2: b.a_f2, a_f1: b.a_f1, a_f0: b.a_f0,
            })
        },
        2 => {
            let b = subframe2::Body::new(&bits)?;
            Ok(Subframe::Subframe2 {
                common, iode: b.iode, crs: b.crs, dn: b.dn, m0: b.m0, cuc: b.cuc, e: b.e, cus: b.cus,
                sqrt_a: b.sqrt_a, t_oe: b.t_oe, fit_interval: b.fit_interval, aodo: b.aodo,
            })
        },
        3 => {
            let b = subframe3::Body::new(&bits)?;
            Ok(Subframe::Subframe3 {
                common, cic: b.cic, omega0: b.omega0, cis: b.cis, i0: b.i0, crc: b.crc, omega: b.omega,
                omega_dot: b.omega_dot, iode: b.iode, idot: b.idot,
            })
        },
        4 => {
            let b = subframe4::Body::new(&bits)?;
            Ok(Subframe::Subframe4 { common, data_id: b.data_id, sv_id: b.sv_id, page: page4_from(b.page) })
        },
        5 => {
            let b = subframe5::Body::new(&bits)?;
            Ok(Subframe::Subframe5 { common, data_id: b.data_id, sv_id: b.sv_id, page: page5_from(b.page) })
        },
        _ => Err(DigSigProcErr::InvalidTelemetryData("Subframe number other than 1 through 5")),
    }
}

/// The flat decoder holds every field where the navigation message's layout puts it, in
/// word and bit numbers: the handover word's time of week (word 2 bits 1-17) and subframe ID
/// (bits 20-22), the clock fields of subframe 1, the ephemeris of subframes 2 and 3, the
/// ionosphere and UTC parameters of page 18 and the almanac of subframes 4 and 5, as the
/// layouts of `subframe1` to `subframe5` list them.
pub proof fn law_flat_subframe_layout(bits: Seq<bool>, start_sample_idx: usize, sf: Subframe)
    requires
        decodes_to(bits, start_sample_idx, sf),
    ensures
        ({
            let common = match sf {
                Subframe::Subframe1 { common, .. } => common,
                Subframe::Subframe2 { common, .. } => common,
                Subframe::Subframe3 { common, .. } => common,
                Subframe::Subframe4 { common, .. } => common,
                Subframe::Subframe5 { common, .. } => common,
            };
            &&& common.time_of_week_truncated == lnav_u(bits, 2, 1, 2, 17)
            &&& common.subframe_id == lnav_u(bits, 2, 20, 2, 22)
            &&& common.start_sample_idx == start_sample_idx
        }),
        match sf {
            Subframe::Subframe1 { common, week_number, code_on_l2, ura_index, sv_health, iodc, t_gd, t_oc, a_f2, a_f1, a_f0 } => {
                &&& common.subframe_id == 1
                &&& week_number == lnav_u(bits, 3, 1, 3, 10)
                &&& (code_on_l2 == CodeOnL2::P_Code <==> (!bits[lnav_bit(3, 11)] && bits[lnav_bit(3, 12)]))
                &&& (code_on_l2 == CodeOnL2::CA_Code <==> (bits[lnav_bit(3, 11)] && !bits[lnav_bit(3, 12)]))
                &&& (code_on_l2 == CodeOnL2::Reserved <==> (!bits[lnav_bit(3, 11)] && !bits[lnav_bit(3, 12)]))
                &&& ura_index == lnav_u(bits, 3, 13, 3, 16)
                &&& sv_health == lnav_u(bits, 3, 17, 3, 22)
                &&& iodc == bits_to_nat(bits.subrange(lnav_bit(3, 23), lnav_bit(3, 24) + 1) + bits.subrange(lnav_bit(8, 1), lnav_bit(8, 8) + 1))
                &&& t_gd == lnav_i(bits, 7, 17, 7, 24)
                &&& t_oc == lnav_u(bits, 8, 9, 8, 24) * 16
                &&& a_f2 == lnav_i(bits, 9, 1, 9, 8)
                &&& a_f1 == lnav_i(bits, 9, 9, 9, 24)
                &&& a_f0 == lnav_i(bits, 10, 1, 10, 22)
            },
            Subframe::Subframe2 { common, iode, crs, dn, m0, cuc, e, cus, sqrt_a, t_oe, fit_interval, aodo } => {
                &&& common.subframe_id == 2
                &&& iode == lnav_u(bits, 3, 1, 3, 8)
                &&& crs == lnav_i(bits, 3, 9, 3, 24)
                &&& dn == lnav_i(bits, 4, 1, 4, 16)
                &&& m0 == lnav_i(bits, 4, 17, 5, 24)
                &&& cuc == lnav_i(bits, 6, 1, 6, 16)
                &&& e == lnav_u(bits, 6, 17, 7, 24)
                &&& cus == lnav_i(bits, 8, 1, 8, 16)
                &&& sqrt_a == lnav_u(bits, 8, 17, 9, 24)
                &&& t_oe == lnav_u(bits, 10, 1, 10, 16) * 16
                &&& fit_interval == bits[lnav_bit(10, 18)]
                &&& aodo == lnav_u(bits, 10, 19, 10, 23)
            },
            Subframe::Subframe3 { common, cic, omega0, cis, i0, crc, omega, omega_dot, iode, idot } => {
                &&& common.subframe_id == 3
                &&& cic == lnav_i(bits, 3, 1, 3, 16)
                &&& omega0 == lnav_i(bits, 3, 17, 4, 24)
                &&& cis == lnav_i(bits, 5, 1, 5, 16)
                &&& i0 == lnav_i(bits, 5, 17, 6, 24)
                &&& crc == lnav_i(bits, 7, 1, 7, 16)
                &&& omega == lnav_i(bits, 7, 17, 8, 24)
                &&& omega_dot == lnav_i(bits, 9, 1, 9, 24)
                &&& iode == lnav_u(bits, 10, 1, 10, 8)
                &&& idot == lnav_i(bits, 10, 9, 10, 22)
            },
            Subframe::Subframe4 { common, data_id, sv_id, page } => {
                &&& common.subframe_id == 4
                &&& data_id == lnav_u(bits, 3, 1, 3, 2)
                &&& sv_id == lnav_u(bits, 3, 3, 3, 8)
                &&& ((25 <= sv_id <= 32) <==> page is AlmanacData)
                &&& (sv_id == 56 <==> page is Page18)
                &&& match page {
                    Subframe4::Page18 { alpha0, alpha1, alpha2, alpha3, beta0, beta1, beta2, beta3, a1, a0, t_ot, wn_t,
                        delta_t_LS, wn_LSF, delta_t_LSF } => {
                        &&& alpha0 == lnav_i(bits, 3, 9, 3, 16)
                        &&& alpha1 == lnav_i(bits, 3, 17, 3, 24)
                        &&& alpha2 == lnav_i(bits, 4, 1, 4, 8)
                        &&& alpha3 == lnav_i(bits, 4, 9, 4, 16)
                        &&& beta0 == lnav_i(bits, 4, 17, 4, 24)
                        &&& beta1 == lnav_i(bits, 5, 1, 5, 8)
                        &&& beta2 == lnav_i(bits, 5, 9, 5, 16)
                        &&& beta3 == lnav_i(bits, 5, 17, 5, 24)
                        &&& a1 == lnav_i(bits, 6, 1, 6, 24)
                        &&& a0 == lnav_i(bits, 7, 1, 8, 8)
                        &&& t_ot == lnav_u(bits, 8, 9, 8, 16) * 4096
                        &&& wn_t == lnav_u(bits, 8, 17, 8, 24)
                        &&& delta_t_LS == lnav_i(bits, 9, 1, 9, 8)
                        &&& wn_LSF == lnav_u(bits, 9, 9, 9, 16)
                        &&& delta_t_LSF == lnav_i(bits, 9, 17, 9, 24)
                    },
                    Subframe4::AlmanacData { e, t_oa, delta_i, omega_dot, sv_health, sqrt_a, omega0, omega, m0, af0, af1 } =>
                        flat_almanac_layout(bits, e as int, t_oa as int, delta_i as int, omega_dot as int, sv_health as int,
                            sqrt_a as int, omega0 as int, omega as int, m0 as int, af0 as int, af1 as int),
                    _ => true,
                }
            },
            Subframe::Subframe5 { common, data_id, sv_id, page } => {
                &&& common.subframe_id == 5
                &&& data_id == lnav_u(bits, 3, 1, 3, 2)
                &&& sv_id == lnav_u(bits, 3, 3, 3, 8)
                &&& match page {
                    Subframe5::AlmanacData { e, t_oa, delta_i, omega_dot, sv_health, sqrt_a, omega0, omega, m0, af0, af1 } =>
                        1 <= sv_id <= 24 && flat_almanac_layout(bits, e as int, t_oa as int, delta_i as int, omega_dot as int,
                            sv_health as int, sqrt_a as int, omega0 as int, omega as int, m0 as int, af0 as int, af1 as int),
                    Subframe5::Page25 { t_oa, WN_a, sv_health } => {
                        &&& !(1 <= sv_id <= 24)
                        &&& t_oa == lnav_u(bits, 3, 9, 3, 16) * 4096
                        &&& WN_a == lnav_u(bits, 3, 17, 3, 24)
                        &&& forall|i: int| 0 <= i < 24 ==>
                            #[trigger] sv_health@[i] == bools_to_int::field_u(bits, lnav_bit(4, 1) + 6 * i, lnav_bit(4, 1) + 6 * i + 6)
                    },
                }
            },
        },
{
    match sf {
        Subframe::Subframe1 { common, week_number, code_on_l2, ura_index, sv_health, iodc, t_gd, t_oc, a_f2, a_f1, a_f0 } => {
            subframe1::law_subframe1_layout(bits, subframe1::Body {
                week_number, code_on_l2: code_view(code_on_l2), ura_index, sv_health, iodc, t_gd, t_oc, a_f2, a_f1, a_f0 });
            match code_on_l2 {
                CodeOnL2::Reserved => {},
                CodeOnL2::P_Code => {},
                CodeOnL2::CA_Code => {},
            }
        },
        Subframe::Subframe2 { common, iode, crs, dn, m0, cuc, e, cus, sqrt_a, t_oe, fit_interval, aodo } => {
            subframe2::law_subframe2_layout(bits, subframe2::Body { iode, crs, dn, m0, cuc, e, cus, sqrt_a, t_oe, fit_interval, aodo });
        },
        Subframe::Subframe3 { common, cic, omega0, cis, i0, crc, omega, omega_dot, iode, idot } => {
            subframe3::law_subframe3_layout(bits, subframe3::Body { cic, omega0, cis, i0, crc, omega, omega_dot, iode, idot });
        },
        Subframe::Subframe4 { common, data_id, sv_id, page } => {
            subframe4::law_subframe4_layout(bits, subframe4::Body { data_id, sv_id, page: page4_view(page) });
            if let Subframe4::AlmanacData { e, t_oa, delta_i, omega_dot, sv_health, sqrt_a, omega0, omega, m0, af0, af1 } = page {
                sfm::law_almanac_layout(bits, e as int, t_oa as int, delta_i as int, omega_dot as int, sv_health as int,
                    sqrt_a as int, omega0 as int, omega as int, m0 as int, af0 as int, af1 as int);
            }
        },
        Subframe::Subframe5 { common, data_id, sv_id, page } => {
            subframe5::law_subframe5_layout(bits, subframe5::Body { data_id, sv_id, page: page5_view(page) });
            if let Subframe5::Page25 { t_oa, WN_a, sv_health } = page {
                let b5 = subframe5::Body { data_id, sv_id, page: page5_view(page) };
                assert(b5.page == subframe5::Page::Page25 { t_oa, WN_a, sv_health });
                assert forall|i: int| 0 <= i < 24 implies
                    #[trigger] sv_health@[i] == bools_to_int::field_u(bits, lnav_bit(4, 1) + 6 * i, lnav_bit(4, 1) + 6 * i + 6) by {
                    assert(b5.page matches subframe5::Page::Page25 { sv_health: h, .. } && h@[i] == sv_health@[i]);
                }
            }
            if let Subframe5::AlmanacData { e, t_oa, delta_i, omega_dot, sv_health, sqrt_a, omega0, omega, m0, af0, af1 } = page {
                sfm::law_almanac_layout(bits, e as int, t_oa as int, delta_i as int, omega_dot as int, sv_health as int,
                    sqrt_a as int, omega0 as int, omega as int, m0 as int, af0 as int, af1 as int);
            }
        },
    }
}

/// The almanac fields at their places in the layout, in word and bit numbers (as
/// `subframe::law_almanac_layout` lists them).
pub open spec fn flat_almanac_layout(bits: Seq<bool>, e: int, t_oa: int, delta_i: int, omega_dot: int, sv_health: int,
    sqrt_a: int, omega0: int, omega: int, m0: int, af0: int, af1: int) -> bool {
    &&& e == lnav_u(bits, 3, 9, 3, 24)
    &&& t_oa == lnav_u(bits, 4, 1, 4, 8) * 4096
    &&& delta_i == lnav_i(bits, 4, 9, 4, 24)
    &&& omega_dot == lnav_i(bits, 5, 1, 5, 16)
    &&& sv_health == lnav_u(bits, 5, 17, 5, 24)
    &&& sqrt_a == lnav_u(bits, 6, 1, 6, 24)
    &&& omega0 == lnav_i(bits, 7, 1, 7, 24)
    &&& omega == lnav_i(bits, 8, 1, 8, 24)
    &&& m0 == lnav_i(bits, 9, 1, 9, 24)
    &&& af0 == bits_to_int(bits.subrange(lnav_bit(10, 1), lnav_bit(10, 8) + 1) + bits.subrange(lnav_bit(10, 20), lnav_bit(10, 22) + 1))
    &&& af1 == lnav_i(bits, 10, 9, 10, 19)
}

} // verus!
