use rust_radio::gnss::gps_l1_ca::telemetry_decode::subframe::{
    self, subframe1, subframe4, subframe5, SubframeBody,
};
use rust_radio::gnss::telemetry_decode::gps::l1_ca_subframe::{self, CodeOnL2, Subframe, Subframe4, Subframe5};
use rust_radio::gnss::telemetry_decode::gps::preamble_detector::new_preamble_detector;
use rust_radio::gnss::telemetry_decode::gps::{TelemetryDecoder, TelemetryDecoderResult};
use rust_radio::gnss::gps_l1_ca::channel::{ChannelCommand, ChannelResponse, ReportDecision, ReportingChannel};
use rust_radio::gnss::gps_l1_ca::channel::track_and_tlm::{ChannelResult, ChannelState, SampleOutcome, TrackAndDecode, TrackerEvent};
use rust_radio::DigSigProcErr;

/// Writes `value` into `width` bits starting at `lo`, most significant bit first.
fn set_field(bits: &mut [bool], lo: usize, width: usize, value: i64) {
    for k in 0..width {
        bits[lo + k] = (value >> (width - 1 - k)) & 1 == 1;
    }
}

fn data_with_header(tow: u32, id: u8) -> [bool; 240] {
    let mut bits = [false; 240];
    set_field(&mut bits, 0, 8, 0x8b);
    set_field(&mut bits, 24, 17, tow as i64);
    set_field(&mut bits, 43, 3, id as i64);
    bits
}

const TAPS: [(bool, &[usize]); 6] = [
    (true, &[0, 1, 2, 4, 5, 9, 10, 11, 12, 13, 16, 17, 19, 22]),
    (false, &[1, 2, 3, 5, 6, 10, 11, 12, 13, 14, 17, 18, 20, 23]),
    (true, &[0, 2, 3, 4, 6, 7, 11, 12, 13, 14, 15, 18, 19, 21]),
    (false, &[1, 3, 4, 5, 7, 8, 12, 13, 14, 15, 16, 19, 20, 22]),
    (false, &[0, 2, 4, 5, 6, 8, 9, 13, 14, 15, 16, 17, 20, 21, 23]),
    (true, &[2, 4, 5, 7, 8, 9, 10, 12, 14, 18, 21, 22, 23]),
];

/// Encodes 24 data bits into a transmitted word after a word ending in `d29`, `d30`.
fn encode_word(data: &[bool], d29: bool, d30: bool) -> [bool; 30] {
    let mut w = [false; 30];
    for i in 0..24 {
        w[i] = data[i] ^ d30;
    }
    for (k, (uses_d29, taps)) in TAPS.iter().enumerate() {
        let mut p = if *uses_d29 { d29 } else { d30 };
        for &t in taps.iter() {
            p ^= data[t];
        }
        w[24 + k] = p;
    }
    w
}

/// Encodes a subframe, choosing the last two data bits so that it ends in two zero bits.
fn encode_subframe(data: &[bool; 240]) -> [bool; 300] {
    let mut data = *data;
    let mut out = [false; 300];
    let (mut d29, mut d30) = (false, false);
    for w in 0..10 {
        let mut word = encode_word(&data[24 * w..24 * w + 24], d29, d30);
        if w == 9 {
            for t in 0..4 {
                data[238] = t & 2 != 0;
                data[239] = t & 1 != 0;
                word = encode_word(&data[24 * w..24 * w + 24], d29, d30);
                if !word[28] && !word[29] {
                    break;
                }
            }
        }
        out[30 * w..30 * w + 30].copy_from_slice(&word);
        d29 = word[28];
        d30 = word[29];
    }
    out
}

fn subframe1_bits() -> [bool; 240] {
    let mut bits = data_with_header(0x1_2345, 1);
    set_field(&mut bits, 48, 10, 0x2a5);
    bits[58] = true; // C/A code on L2
    bits[59] = false;
    set_field(&mut bits, 60, 4, 9);
    set_field(&mut bits, 64, 6, 0x3f);
    set_field(&mut bits, 70, 2, 0b10);
    set_field(&mut bits, 168, 8, 0x5c);
    set_field(&mut bits, 160, 8, -3);
    set_field(&mut bits, 176, 16, 0x1234);
    set_field(&mut bits, 192, 8, -128);
    set_field(&mut bits, 200, 16, -2);
    set_field(&mut bits, 216, 22, -1_000_000);
    bits
}

#[test]
fn subframe1_fields_are_decoded_with_their_scales_and_signs() {
    let sf = subframe::decode(subframe1_bits()).unwrap();
    assert_eq!(sf.time_of_week_truncated, 0x1_2345);
    assert_eq!(sf.subframe_id, 1);
    match sf.body {
        SubframeBody::Subframe1(b) => {
            assert_eq!(b.week_number, 0x2a5);
            assert_eq!(b.code_on_l2, subframe1::CodeOnL2::CA_Code);
            assert_eq!(b.ura_index, 9);
            assert_eq!(b.sv_health, 0x3f);
            assert_eq!(b.iodc, 0x25c);
            assert_eq!(b.t_gd, -3);
            assert_eq!(b.t_oc, 0x1234 * 16);
            assert_eq!(b.a_f2, -128);
            assert_eq!(b.a_f1, -2);
            assert_eq!(b.a_f0, -1_000_000);
        }
        _ => panic!("expected subframe 1"),
    }
}

#[test]
fn flat_decoder_records_the_start_sample() {
    match l1_ca_subframe::decode(subframe1_bits(), 4242).unwrap() {
        Subframe::Subframe1 { common, week_number, code_on_l2, iodc, a_f0, .. } => {
            assert_eq!(common.start_sample_idx, 4242);
            assert_eq!(common.time_of_week_truncated, 0x1_2345);
            assert_eq!(common.subframe_id, 1);
            assert_eq!(week_number, 0x2a5);
            assert_eq!(code_on_l2, CodeOnL2::CA_Code);
            assert_eq!(iodc, 0x25c);
            assert_eq!(a_f0, -1_000_000);
        }
        _ => panic!("expected subframe 1"),
    }
}

#[test]
fn undefined_l2_code_is_refused() {
    let mut bits = subframe1_bits();
    bits[58] = true;
    bits[59] = true;
    let code_err = DigSigProcErr::InvalidTelemetryData("Invalid code_on_l2 field in subframe 1");
    assert!(matches!(subframe1::Body::new(&bits), Err(e) if e == code_err));
    assert!(matches!(subframe::decode(bits), Err(e) if e == code_err));
    assert!(matches!(l1_ca_subframe::decode(bits, 0), Err(e) if e == code_err));
}

#[test]
fn subframe_ids_outside_one_to_five_are_refused() {
    let id_err = DigSigProcErr::InvalidTelemetryData("Subframe number other than 1 through 5");
    assert!(matches!(subframe::decode(data_with_header(1, 0)), Err(e) if e == id_err));
    assert!(matches!(subframe::decode(data_with_header(1, 6)), Err(e) if e == id_err));
    assert!(matches!(l1_ca_subframe::decode(data_with_header(1, 7), 0), Err(e) if e == id_err));
    assert!(matches!(l1_ca_subframe::decode(data_with_header(1, 0), 0), Err(e) if e == id_err));
}

#[test]
fn subframe2_and_3_fields() {
    let mut bits = data_with_header(7, 2);
    set_field(&mut bits, 48, 8, 0x77);
    set_field(&mut bits, 56, 16, -5);
    set_field(&mut bits, 88, 32, -123_456_789);
    set_field(&mut bits, 136, 32, 0xfedc_ba98);
    set_field(&mut bits, 216, 16, 0x1c20);
    bits[233] = true;
    set_field(&mut bits, 234, 5, 0x1b);
    match subframe::decode(bits).unwrap().body {
        SubframeBody::Subframe2(b) => {
            assert_eq!(b.iode, 0x77);
            assert_eq!(b.crs, -5);
            assert_eq!(b.m0, -123_456_789);
            assert_eq!(b.e, 0xfedc_ba98);
            assert_eq!(b.t_oe, 0x1c20 * 16);
            assert!(b.fit_interval);
            assert_eq!(b.aodo, 0x1b);
        }
        _ => panic!("expected subframe 2"),
    }

    let mut bits = data_with_header(7, 3);
    set_field(&mut bits, 192, 24, -1);
    set_field(&mut bits, 216, 8, 0x77);
    set_field(&mut bits, 224, 14, -8192);
    match subframe::decode(bits).unwrap().body {
        SubframeBody::Subframe3(b) => {
            assert_eq!(b.omega_dot, -1);
            assert_eq!(b.iode, 0x77);
            assert_eq!(b.idot, -8192);
            assert_eq!(b.cic, 0);
        }
        _ => panic!("expected subframe 3"),
    }
}

#[test]
fn subframe4_pages_follow_the_sv_id() {
    let mut bits = data_with_header(9, 4);
    set_field(&mut bits, 48, 2, 1);
    set_field(&mut bits, 50, 6, 56);
    set_field(&mut bits, 56, 8, -7);
    set_field(&mut bits, 112, 8, 5);
    set_field(&mut bits, 144, 32, -2);
    set_field(&mut bits, 176, 8, 3);
    set_field(&mut bits, 192, 8, 18);
    match subframe4::Body::new(&bits).unwrap() {
        subframe4::Body { data_id: 1, sv_id: 56, page: subframe4::Page::Page18 { alpha0, beta3, a0, t_ot, delta_t_LS, .. } } => {
            assert_eq!(alpha0, -7);
            assert_eq!(beta3, 5);
            assert_eq!(a0, -2);
            assert_eq!(t_ot, 3 * 4096);
            assert_eq!(delta_t_LS, 18);
        }
        other => panic!("unexpected {:?}", other),
    }

    set_field(&mut bits, 50, 6, 52);
    set_field(&mut bits, 56, 2, 3);
    for i in 0..30 {
        set_field(&mut bits, 58 + 6 * i, 6, i as i64);
    }
    match subframe4::Body::new(&bits).unwrap().page {
        subframe4::Page::NavigationMessageCorrectionTable { availability, erd } => {
            assert_eq!(availability, 3);
            for i in 0..30 {
                assert_eq!(erd[i], i as u8);
            }
        }
        other => panic!("unexpected {:?}", other),
    }

    set_field(&mut bits, 50, 6, 55);
    for i in 0..22 {
        set_field(&mut bits, 56 + 8 * i, 8, (i as i64) + 65);
    }
    match subframe4::Body::new(&bits).unwrap().page {
        subframe4::Page::SpecialMessages(m) => assert_eq!(&m[..3], b"ABC"),
        other => panic!("unexpected {:?}", other),
    }

    set_field(&mut bits, 50, 6, 62);
    match subframe4::Body::new(&bits).unwrap().page {
        subframe4::Page::Page25 { antispoof_and_config, sv_health } => {
            assert_eq!(antispoof_and_config[0], 4);
            assert_eq!(antispoof_and_config[1], 1);
            assert_eq!(sv_health.len(), 8);
        }
        other => panic!("unexpected {:?}", other),
    }

    set_field(&mut bits, 50, 6, 30);
    set_field(&mut bits, 216, 8, 0xff);
    set_field(&mut bits, 235, 3, 0b110);
    match subframe4::Body::new(&bits).unwrap().page {
        subframe4::Page::AlmanacData { af0, .. } => assert_eq!(af0, -2),
        other => panic!("unexpected {:?}", other),
    }

    set_field(&mut bits, 50, 6, 1);
    assert!(matches!(subframe4::Body::new(&bits).unwrap().page, subframe4::Page::Reserved));
}

#[test]
fn subframe5_pages_and_refused_sv_ids() {
    let mut bits = data_with_header(9, 5);
    set_field(&mut bits, 50, 6, 25);
    set_field(&mut bits, 56, 8, 2);
    set_field(&mut bits, 64, 8, 200);
    for i in 0..24 {
        set_field(&mut bits, 72 + 6 * i, 6, 63 - i as i64);
    }
    match subframe5::Body::new(&bits).unwrap().page {
        subframe5::Page::Page25 { t_oa, WN_a, sv_health } => {
            assert_eq!(t_oa, 2 * 4096);
            assert_eq!(WN_a, 200);
            assert_eq!(sv_health[0], 63);
            assert_eq!(sv_health[23], 40);
        }
        other => panic!("unexpected {:?}", other),
    }

    set_field(&mut bits, 50, 6, 12);
    set_field(&mut bits, 56, 16, 0xabcd);
    match l1_ca_subframe::decode(bits, 1).unwrap() {
        Subframe::Subframe5 { sv_id: 12, page: Subframe5::AlmanacData { e, .. }, .. } => assert_eq!(e, 0xabcd),
        _ => panic!("expected an almanac page"),
    }

    let page_err = DigSigProcErr::InvalidTelemetryData("Page number other than 1 through 25");
    set_field(&mut bits, 50, 6, 26);
    assert!(matches!(subframe5::Body::new(&bits), Err(e) if e == page_err));
    assert!(matches!(subframe::decode(bits), Err(e) if e == page_err));
    set_field(&mut bits, 50, 6, 0);
    assert!(matches!(l1_ca_subframe::decode(bits, 1), Err(e) if e == page_err));
}

#[test]
fn flat_decoder_subframe4_page() {
    let mut bits = data_with_header(3, 4);
    set_field(&mut bits, 50, 6, 56);
    set_field(&mut bits, 184, 8, 77);
    match l1_ca_subframe::decode(bits, 0).unwrap() {
        Subframe::Subframe4 { page: Subframe4::Page18 { wn_t, .. }, .. } => assert_eq!(wn_t, 77),
        _ => panic!("expected page 18"),
    }
}

fn stream_of(subframes: &[[bool; 240]], junk: usize) -> Vec<bool> {
    let mut out: Vec<bool> = (0..junk).map(|i| (i * 7 + 3) % 5 < 2).collect();
    for sf in subframes {
        out.extend_from_slice(&encode_subframe(sf));
    }
    out
}

fn decode_stream(stream: &[bool]) -> Vec<(Subframe, usize)> {
    let mut dec = TelemetryDecoder::new();
    let mut out = vec![];
    for (i, b) in stream.iter().enumerate() {
        match dec.apply((*b, 1000 + i)) {
            TelemetryDecoderResult::Decoded(sf, _, idx) => out.push((sf, idx)),
            TelemetryDecoderResult::NotReady => {}
            TelemetryDecoderResult::Invalid(e) => panic!("unexpected error {:?}", e),
        }
    }
    out
}

#[test]
fn decoder_finds_the_preamble_and_decodes_following_subframes() {
    let mut sf2 = data_with_header(2, 2);
    set_field(&mut sf2, 48, 8, 0x42);
    let stream = stream_of(&[subframe1_bits(), sf2, data_with_header(3, 3)], 37);
    let decoded = decode_stream(&stream);
    assert_eq!(decoded.len(), 3);
    assert_eq!(decoded[0].1, 1037);
    assert_eq!(decoded[1].1, 1337);
    match decoded[0].0 {
        Subframe::Subframe1 { week_number, .. } => assert_eq!(week_number, 0x2a5),
        _ => panic!("expected subframe 1"),
    }
    match decoded[1].0 {
        Subframe::Subframe2 { iode, .. } => assert_eq!(iode, 0x42),
        _ => panic!("expected subframe 2"),
    }
}

#[test]
fn decoder_handles_an_inverted_stream() {
    let stream: Vec<bool> = stream_of(&[subframe1_bits(), data_with_header(2, 2)], 11).iter().map(|b| !b).collect();
    let decoded = decode_stream(&stream);
    assert_eq!(decoded.len(), 2);
    assert_eq!(decoded[0].1, 1011);
    match decoded[0].0 {
        Subframe::Subframe1 { a_f0, .. } => assert_eq!(a_f0, -1_000_000),
        _ => panic!("expected subframe 1"),
    }
}

#[test]
fn decoder_reports_a_parity_error() {
    let mut stream = stream_of(&[subframe1_bits(), data_with_header(2, 2)], 5);
    stream[5 + 300 + 100] = !stream[5 + 300 + 100];
    let mut dec = TelemetryDecoder::new();
    let mut errors = 0;
    let mut decoded = 0;
    for (i, b) in stream.iter().enumerate() {
        match dec.apply((*b, i)) {
            TelemetryDecoderResult::Decoded(..) => decoded += 1,
            TelemetryDecoderResult::Invalid(DigSigProcErr::InvalidTelemetryData("Bad parity check")) => errors += 1,
            TelemetryDecoderResult::Invalid(e) => panic!("unexpected error {:?}", e),
            TelemetryDecoderResult::NotReady => {}
        }
    }
    assert_eq!(decoded, 1);
    assert_eq!(errors, 1);
}

#[test]
fn initialize_forgets_the_preamble() {
    let stream = stream_of(&[subframe1_bits()], 3);
    let mut dec = TelemetryDecoder::new();
    for (i, b) in stream.iter().take(40).enumerate() {
        dec.apply((*b, i));
    }
    dec.initialize();
    for (i, b) in stream.iter().take(40).enumerate() {
        dec.apply((*b, i));
    }
    let mut found = 0;
    for (i, b) in stream.iter().enumerate().skip(40) {
        if let TelemetryDecoderResult::Decoded(_, _, idx) = dec.apply((*b, i)) {
            assert_eq!(idx, 3);
            found += 1;
        }
    }
    assert_eq!(found, 1);
}

#[test]
fn preamble_detector_reports_position_and_sense() {
    let stream = stream_of(&[subframe1_bits()], 317);
    let mut det = new_preamble_detector();
    assert_eq!(det.get_result(), Err(DigSigProcErr::InvalidTelemetryData("No preamble found yet")));
    assert_eq!(det.is_inverse_sense(), Err(DigSigProcErr::InvalidTelemetryData("No preamble found yet")));
    for b in stream.iter().take(317 + 30) {
        det.apply(*b);
    }
    assert_eq!(det.get_result(), Ok(17));
    assert_eq!(det.is_inverse_sense(), Ok(false));

    let mut det = new_preamble_detector();
    for b in stream.iter().take(317 + 30) {
        det.apply(!*b);
    }
    assert_eq!(det.get_result(), Ok(17));
    assert_eq!(det.is_inverse_sense(), Ok(true));
    det.initialize();
    assert!(det.get_result().is_err());
}

#[test]
fn decoder_hands_on_the_decoding_error() {
    let stream = stream_of(&[subframe1_bits(), data_with_header(2, 6)], 9);
    let mut dec = TelemetryDecoder::new();
    let mut results = vec![];
    for (i, b) in stream.iter().enumerate() {
        match dec.apply((*b, i)) {
            TelemetryDecoderResult::NotReady => {}
            other => results.push(other),
        }
    }
    assert_eq!(results.len(), 2);
    assert!(matches!(results[0], TelemetryDecoderResult::Decoded(Subframe::Subframe1 { .. }, _, 9)));
    assert!(matches!(results[1],
        TelemetryDecoderResult::Invalid(DigSigProcErr::InvalidTelemetryData("Subframe number other than 1 through 5"))));
}

#[test]
fn decoder_is_not_ready_before_a_whole_subframe() {
    let stream = stream_of(&[subframe1_bits()], 0);
    let mut dec = TelemetryDecoder::new();
    for (i, b) in stream.iter().enumerate().take(299) {
        assert!(matches!(dec.apply((*b, i)), TelemetryDecoderResult::NotReady));
    }
    assert!(matches!(dec.apply((stream[299], 299)), TelemetryDecoderResult::Decoded(_, _, 0)));
}

#[test]
fn preamble_detector_answers_alike_on_a_complemented_stream() {
    let stream = stream_of(&[subframe1_bits(), data_with_header(2, 2)], 123);
    let mut det = new_preamble_detector();
    let mut inv = new_preamble_detector();
    let mut found_at = vec![];
    for (i, b) in stream.iter().enumerate() {
        det.apply(*b);
        inv.apply(!*b);
        assert_eq!(det.get_result(), inv.get_result());
        assert_eq!(det.is_inverse_sense().map(|v| !v), inv.is_inverse_sense());
        assert_eq!(det.get_result().is_ok(), det.is_inverse_sense().is_ok());
        if let Ok(p) = det.get_result() {
            assert!(p < 300);
            found_at.push(i);
        }
    }
    // once found, the position stays known
    assert!(!found_at.is_empty());
    assert_eq!(found_at.len(), stream.len() - found_at[0]);
}

#[test]
fn channel_acquires_pulls_in_tracks_and_decodes() {
    let mut ch = TrackAndDecode::new();
    assert!(matches!(ch.on_sample(0), SampleOutcome::Answer(ChannelResult::NotReady("Waiting on acquisition"))));
    ch.acquire(2);
    assert_eq!(ch.state(), ChannelState::PullIn(2));
    assert!(matches!(ch.on_sample(1), SampleOutcome::Answer(ChannelResult::NotReady("Pulling in signal"))));
    assert!(matches!(ch.on_sample(2), SampleOutcome::Answer(ChannelResult::NotReady("Pulling in signal"))));
    assert_eq!(ch.state(), ChannelState::Tracking);
    assert!(matches!(ch.on_sample(3), SampleOutcome::RunTracker));
    assert!(matches!(ch.on_tracker_event(TrackerEvent::NotReady), ChannelResult::NotReady("Waiting on next bit from tracker")));

    let mut sf2 = data_with_header(2, 2);
    set_field(&mut sf2, 48, 8, 0x42);
    let stream = stream_of(&[subframe1_bits(), sf2], 13);
    let mut decoded = vec![];
    for (i, b) in stream.iter().enumerate() {
        let idx = 4 + i;
        assert!(matches!(ch.on_sample(idx), SampleOutcome::RunTracker));
        match ch.on_tracker_event(TrackerEvent::Bit { positive: *b, sample_idx: idx }) {
            ChannelResult::Ready { sf: Some(sf), new_ionosphere } => {
                assert!(!new_ionosphere);
                decoded.push(sf);
            }
            ChannelResult::Ready { sf: None, new_ionosphere: false } => {}
            other => panic!("unexpected {:?}", other),
        }
    }
    assert_eq!(decoded.len(), 2);
    assert_eq!(decoded[0].subframe_id, 1);
    assert_eq!(decoded[1].subframe_id, 2);
    let nav = ch.navigation_data();
    assert!(nav.last_sf1.is_some());
    assert_eq!(nav.last_sf2.unwrap().iode, 0x42);
    assert_eq!(ch.state(), ChannelState::Tracking);

    let lost = ch.on_tracker_event(TrackerEvent::LostLock(DigSigProcErr::LossOfLock));
    assert!(matches!(lost, ChannelResult::Error(DigSigProcErr::LossOfLock)));
    assert_eq!(ch.state(), ChannelState::AwaitingAcquisition);
}

#[test]
fn channel_returns_to_acquisition_on_a_bad_subframe() {
    let mut ch = TrackAndDecode::new();
    ch.acquire(0);
    let mut stream = stream_of(&[subframe1_bits(), data_with_header(2, 2)], 3);
    stream[3 + 300 + 50] = !stream[3 + 300 + 50];
    let mut results = vec![];
    for (i, b) in stream.iter().enumerate() {
        assert!(matches!(ch.on_sample(i + 1), SampleOutcome::RunTracker) || ch.state() == ChannelState::AwaitingAcquisition);
        if ch.state() != ChannelState::Tracking {
            break;
        }
        results.push(ch.on_tracker_event(TrackerEvent::Bit { positive: *b, sample_idx: i + 1 }));
    }
    assert_eq!(ch.state(), ChannelState::AwaitingAcquisition);
    assert!(results.iter().filter(|r| matches!(r, ChannelResult::Ready { sf: Some(_), .. })).count() == 1);
    assert!(matches!(results.last(), Some(ChannelResult::Ready { sf: None, new_ionosphere: false })));
}

#[test]
fn reporting_channel_reports_subframes_and_due_observations() {
    let mut ch = ReportingChannel::new(100);
    assert!(matches!(ch.on_track_result(0, TrackerEvent::NotReady),
        ReportDecision::Report { sf: None, observation_due: true, new_ionosphere: false }));
    assert!(matches!(ch.on_track_result(1, TrackerEvent::NotReady), ReportDecision::NotReady));
    assert!(matches!(ch.on_track_result(2, TrackerEvent::LostLock(DigSigProcErr::Other("x"))), ReportDecision::LossOfLock));

    let mut stream = stream_of(&[subframe1_bits(), data_with_header(2, 2), data_with_header(3, 3)], 21);
    stream[21 + 300 + 40] = !stream[21 + 300 + 40];
    let mut subframes = vec![];
    let mut due = 0;
    for (i, b) in stream.iter().enumerate() {
        let idx = 1000 + i;
        assert!(ch.accepts_bit());
        match ch.on_track_result(idx, TrackerEvent::Bit { positive: *b, sample_idx: idx }) {
            ReportDecision::Report { sf, observation_due, new_ionosphere } => {
                assert!(!new_ionosphere);
                assert_eq!(observation_due, idx % 100 == 0);
                if observation_due {
                    due += 1;
                }
                if let Some(sf) = sf {
                    subframes.push(sf.subframe_id);
                }
            }
            other => panic!("unexpected {:?}", other),
        }
    }
    // the subframe with a parity error is dropped and decoding goes on
    assert_eq!(subframes, vec![1, 3]);
    assert_eq!(due, (stream.len() + 99) / 100);
    assert!(ch.navigation_data().last_sf1.is_some());
    assert!(ch.navigation_data().last_sf2.is_none());
    assert!(matches!(ch.control(&ChannelCommand::Reset), ChannelResponse::Ack));
}

#[test]
fn decoders_accept_bits_while_their_count_has_room() {
    let mut dec = TelemetryDecoder::new();
    assert!(dec.accepts_bit());
    dec.apply((true, 0));
    assert!(dec.accepts_bit());
    let mut det = new_preamble_detector();
    assert_eq!(det.bits_received(), 0);
    det.apply(true);
    det.apply(false);
    assert_eq!(det.bits_received(), 2);
    let ch = TrackAndDecode::new();
    assert!(ch.accepts_bit());
}
