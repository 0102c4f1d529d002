use rust_radio::gnss::gps_l2c::tlm_decode::error_correction;
use rust_radio::gnss::gps_l2c::tlm_decode::error_detection::{is_subframe_crc_ok, CRC_24Q_POLYNOMIAL};
use rust_radio::gnss::gps_l2c::tlm_decode::message_decode::{type10, type11, type30, Message, MessageBody};
use rust_radio::gnss::gps_l2c::tlm_decode::preamble_and_crc::PreambleAndCrc;
use rust_radio::gnss::gps_l2c::tlm_decode::preamble_detection::PreambleDetector;
use rust_radio::DigSigProcErr;

fn set_field(bits: &mut [bool], lo: usize, width: usize, value: i64) {
    for k in 0..width {
        bits[lo + k] = (value >> (width - 1 - k)) & 1 == 1;
    }
}

fn pseudo_random(n: usize, seed: u32) -> Vec<bool> {
    let mut x = seed.wrapping_mul(2654435761).wrapping_add(12345);
    (0..n)
        .map(|_| {
            x ^= x << 13;
            x ^= x >> 17;
            x ^= x << 5;
            x & 1 == 1
        })
        .collect()
}

/// Appends the 24 CRC-24Q bits to a 276-bit message.
fn with_crc(msg: &[bool]) -> Vec<bool> {
    let mut m: Vec<bool> = msg.to_vec();
    m.extend_from_slice(&[false; 24]);
    let mut r = m.clone();
    for i in 0..276 {
        if r[i] {
            for j in 0..25 {
                r[i + j] ^= CRC_24Q_POLYNOMIAL[j];
            }
        }
    }
    for k in 276..300 {
        m[k] = r[k];
    }
    m
}

fn message_bits(type_id: i64, seed: u32) -> Vec<bool> {
    let mut msg = pseudo_random(276, seed);
    set_field(&mut msg, 0, 8, 0x8b);
    set_field(&mut msg, 8, 6, 17);
    set_field(&mut msg, 14, 6, type_id);
    set_field(&mut msg, 20, 17, 0x1_abcd);
    msg
}

#[test]
fn crc_of_an_encoded_message_checks() {
    let m = with_crc(&message_bits(10, 1));
    assert!(is_subframe_crc_ok(&m));
    for i in [0usize, 100, 275, 276, 299] {
        let mut bad = m.clone();
        bad[i] = !bad[i];
        assert!(!is_subframe_crc_ok(&bad));
    }
    assert!(!is_subframe_crc_ok(&m[..299]));
    assert!(is_subframe_crc_ok(&[false; 300]));
    assert!(!is_subframe_crc_ok(&[]));
}

#[test]
fn framer_returns_messages_in_either_polarity() {
    let m1 = with_crc(&message_bits(10, 2));
    let m2 = with_crc(&message_bits(11, 3));
    let mut stream = pseudo_random(57, 9);
    stream.extend_from_slice(&m1);
    stream.extend_from_slice(&m2);

    let mut framer = PreambleAndCrc::new();
    let got: Vec<Vec<bool>> = stream.iter().filter_map(|b| framer.apply(*b)).collect();
    assert_eq!(got.len(), 2);
    assert_eq!(got[0], m1[..276].to_vec());
    assert_eq!(got[1], m2[..276].to_vec());

    // A window that starts with the inverted preamble is consumed even when its CRC fails,
    // so the inverted messages are given without leading bits here.
    let inverted: Vec<bool> = m1.iter().chain(m2.iter()).map(|b| !*b).collect();
    let mut framer = PreambleAndCrc::new();
    let got: Vec<Vec<bool>> = inverted.iter().filter_map(|b| framer.apply(*b)).collect();
    assert_eq!(got.len(), 2);
    assert_eq!(got[0], m1[..276].to_vec());
    assert_eq!(got[1], m2[..276].to_vec());
}

#[test]
fn framer_drops_a_window_with_inverted_preamble_and_bad_crc() {
    let mut window = vec![false, true, true, true, false, true, false, false];
    window.extend(pseudo_random(292, 21));
    let mut framer = PreambleAndCrc::new();
    let got: Vec<Vec<bool>> = window.iter().filter_map(|b| framer.apply(*b)).collect();
    assert!(got.is_empty());
    // The framer starts over: a message right after the dropped window is found.
    let m = with_crc(&message_bits(10, 22));
    let got: Vec<Vec<bool>> = m.iter().filter_map(|b| framer.apply(*b)).collect();
    assert_eq!(got, vec![m[..276].to_vec()]);
}

#[test]
fn message_header_and_type10_body() {
    let mut msg = message_bits(10, 4);
    set_field(&mut msg, 38, 13, 2047);
    msg[38 + 13] = true;
    msg[38 + 14] = false;
    msg[38 + 15] = true;
    let m = Message::new(&msg).unwrap();
    assert_eq!(m.prn, 17);
    assert_eq!(m.type_id, 10);
    assert_eq!(m.time_of_week_truncated, 0x1_abcd);
    assert_eq!(m.alert_flag, msg[38]);
    match m.body {
        MessageBody::Type10(b) => {
            assert_eq!(b.week_num, 2047);
            assert!(b.l1_health);
            assert!(!b.l2_health);
            assert!(b.l5_health);
        }
        _ => panic!("expected type 10"),
    }
    assert!(matches!(Message::new(&message_bits(33, 4)).unwrap().body, MessageBody::Unknown));
    assert!(matches!(Message::new(&msg[..275]),
        Err(DigSigProcErr::InvalidTelemetryData("Expected a 276-bit message with CRC removed but got a different size"))));
    assert!(matches!(type10::Body::new(&msg[..100]),
        Err(DigSigProcErr::InvalidTelemetryData("Expected a bool slice of length 238 in type10::Body::new"))));
}

#[test]
fn type11_and_type30_bodies() {
    let mut body = vec![false; 238];
    set_field(&mut body, 0, 11, 2015);
    set_field(&mut body, 11, 33, -(1i64 << 32));
    set_field(&mut body, 125, 16, 0xffff);
    set_field(&mut body, 210, 21, 0x1f_ffff);
    let b = type11::Body::new(&body).unwrap();
    assert_eq!(b.t_oe, 2015 * 300);
    assert_eq!(b.om_0n, -(1i64 << 32));
    assert_eq!(b.cic_n, 0xffff);
    assert_eq!(b.cuc_n, 0x1f_ffff);
    assert!(matches!(type11::Body::new(&body[..200]),
        Err(DigSigProcErr::InvalidTelemetryData("Expected a bool slice of length 238 in type11::Body::new"))));

    let mut body = vec![false; 238];
    set_field(&mut body, 33, 26, -1);
    set_field(&mut body, 79, 10, -512);
    set_field(&mut body, 218, 8, 255);
    let b = type30::Body::new(&body).unwrap();
    assert_eq!(b.a_f0n, -1);
    assert_eq!(b.a_f2n, -512);
    assert_eq!(b.wn_op, 255);
    assert!(matches!(type30::Body::new(&[false; 239]),
        Err(DigSigProcErr::InvalidTelemetryData("Expected a bool slice of length 238 in type30::Body::new"))));
}

const G1: [usize; 5] = [6, 5, 4, 3, 0];
const G2: [usize; 5] = [6, 4, 3, 1, 0];

fn encode(s0: u8, bits: &[bool]) -> Vec<bool> {
    let mut s = s0;
    let mut out = vec![];
    for b in bits {
        out.push(G1.iter().fold(false, |a, k| a ^ (s >> k & 1 == 1)));
        out.push(G2.iter().fold(false, |a, k| a ^ (s >> k & 1 == 1)));
        s = s / 2 + if *b { 64 } else { 0 };
    }
    out
}

#[test]
fn error_free_symbols_decode_to_the_data_bits() {
    let bits = pseudo_random(60, 5);
    let symbols = encode(37, &bits);
    let out = error_correction::decode(symbols).unwrap();
    assert_eq!(out.len(), 60);
    for j in 7..60 {
        assert_eq!(out[j], bits[j - 7]);
    }
}

#[test]
fn a_few_symbol_errors_are_corrected() {
    let bits = pseudo_random(80, 6);
    let mut symbols = encode(100, &bits);
    symbols[40] = !symbols[40];
    symbols[101] = !symbols[101];
    let out = error_correction::decode(symbols).unwrap();
    for j in 7..80 {
        assert_eq!(out[j], bits[j - 7]);
    }
}

#[test]
fn too_many_symbol_errors_give_none() {
    let symbols: Vec<bool> = (0..200).map(|i| i % 3 == 0).collect();
    assert_eq!(error_correction::decode(symbols), None);
    assert_eq!(error_correction::decode(vec![]), Some(vec![]));
    assert_eq!(error_correction::decode(vec![true]), Some(vec![]));
}

fn message_with_preamble_at(p: usize, seed: u32, inverted: bool) -> Vec<bool> {
    let mut m = pseudo_random(300, seed);
    let pre = [true, false, false, false, true, false, true, true];
    for k in 0..8 {
        m[(p + k) % 300] = pre[k] ^ inverted;
    }
    m
}

#[test]
fn preamble_detector_finds_the_constant_preamble() {
    let mut det = PreambleDetector::new();
    let mut last = Ok(None);
    for r in 0..12 {
        last = det.apply(&message_with_preamble_at(123, 40 + r, false));
    }
    assert_eq!(last, Ok(Some((123, 1))));

    let mut det = PreambleDetector::new();
    let mut last = Ok(None);
    for r in 0..12 {
        last = det.apply(&message_with_preamble_at(295, 80 + r, true));
    }
    assert_eq!(last, Ok(Some((295, -1))));
}

#[test]
fn preamble_detector_waits_for_a_full_turn_and_reports_no_candidate() {
    let mut det = PreambleDetector::new();
    assert_eq!(det.apply(&[true; 200]), Ok(None));
    assert_eq!(det.apply(&[true; 100]), Ok(None));
    let mut alternating = vec![];
    for r in 0..6 {
        alternating.extend(pseudo_random(300, 200 + r));
    }
    let mut det = PreambleDetector::new();
    assert_eq!(det.apply(&alternating), Err(DigSigProcErr::InvalidTelemetryData("No possible preamble locations found")));
    let mut det = PreambleDetector::new();
    assert_eq!(det.apply(&[false; 301]), Err(DigSigProcErr::InvalidTelemetryData("No possible preamble locations found")));
}

#[test]
fn l2c_preamble_search_answers_alike_on_a_complemented_stream() {
    let mut slices: Vec<Vec<bool>> = vec![];
    for r in 0..8 {
        let m = message_with_preamble_at(77, 300 + r, false);
        slices.push(m[..150].to_vec());
        slices.push(m[150..].to_vec());
    }
    slices.push(pseudo_random(700, 9));
    let mut det = PreambleDetector::new();
    let mut inv = PreambleDetector::new();
    let mut saw_position = false;
    let mut saw_error = false;
    for s in &slices {
        let neg: Vec<bool> = s.iter().map(|b| !b).collect();
        let r1 = det.apply(s);
        let r2 = inv.apply(&neg);
        match r1 {
            Ok(Some((p, 1))) => {
                assert_eq!(r2, Ok(Some((p, -1))));
                saw_position = true;
            }
            Ok(Some((p, -1))) => assert_eq!(r2, Ok(Some((p, 1)))),
            Ok(None) => assert_eq!(r2, Ok(None)),
            Err(e) => {
                assert_eq!(r2, Err(e));
                saw_error = true;
            }
            Ok(Some(other)) => panic!("unexpected polarity {:?}", other),
        }
    }
    assert!(saw_position);
    assert!(saw_error);
}

#[test]
fn closest_encoding_wins_over_another_start_state() {
    // One symbol error in the encoding from state 5: decoding still follows that encoding.
    let bits = pseudo_random(40, 11);
    let mut symbols = encode(5, &bits);
    symbols[7] = !symbols[7];
    let out = error_correction::decode(symbols.clone()).unwrap();
    let mut s: u8 = 5;
    for (j, b) in bits.iter().enumerate() {
        assert_eq!(out[j], s % 2 == 1);
        s = s / 2 + if *b { 64 } else { 0 };
    }
}

#[test]
fn crc_checked_messages_are_closed_under_exclusive_or() {
    let a = with_crc(&message_bits(10, 21));
    let b = with_crc(&message_bits(11, 22));
    let x: Vec<bool> = a.iter().zip(b.iter()).map(|(p, q)| p ^ q).collect();
    assert!(is_subframe_crc_ok(&a));
    assert!(is_subframe_crc_ok(&b));
    assert!(is_subframe_crc_ok(&x));
    let mut y = x.clone();
    y[13] = !y[13];
    assert!(!is_subframe_crc_ok(&y));
}

#[test]
fn multiples_of_the_generator_pass_the_crc() {
    let mut m = vec![false; 300];
    for j in 0..25 {
        m[40 + j] ^= CRC_24Q_POLYNOMIAL[j];
        m[275 + j] ^= CRC_24Q_POLYNOMIAL[j];
    }
    assert!(is_subframe_crc_ok(&m));
    m[0] = true;
    assert!(!is_subframe_crc_ok(&m));
    assert!(is_subframe_crc_ok(&[false; 300]));
}

#[test]
fn four_symbol_errors_still_decode() {
    let bits = pseudo_random(50, 13);
    let mut symbols = encode(77, &bits);
    for i in [3usize, 30, 61, 98] {
        symbols[i] = !symbols[i];
    }
    let out = error_correction::decode(symbols).expect("within four errors of an encoding");
    assert_eq!(out.len(), 50);
}
