use rust_radio::gnss::gps_l1_ca::channel::track_and_tlm::ChannelState;
use rust_radio::gnss::gps_l1_ca::channel::{issues_of_data_match, observation_due, ChannelCommand, ChannelResponse, NavigationData};
use rust_radio::gnss::gps_l1_ca::telemetry_decode::subframe::{subframe1, subframe2, subframe3, subframe4, subframe5, SubframeBody};

#[test]
fn acquisition_pulls_in_then_tracks() {
    assert_eq!(ChannelState::after_acquisition(0), ChannelState::Tracking);
    let mut s = ChannelState::after_acquisition(3);
    assert_eq!(s, ChannelState::PullIn(3));
    s = s.after_sample();
    assert_eq!(s, ChannelState::PullIn(2));
    s = s.after_sample();
    assert_eq!(s, ChannelState::PullIn(1));
    s = s.after_sample();
    assert_eq!(s, ChannelState::Tracking);
    assert_eq!(s.after_sample(), ChannelState::Tracking);
    assert_eq!(ChannelState::AwaitingAcquisition.after_sample(), ChannelState::AwaitingAcquisition);
}

fn sf1(iodc: u16) -> subframe1::Body {
    subframe1::Body { week_number: 1, code_on_l2: subframe1::CodeOnL2::CA_Code, ura_index: 0, sv_health: 0, iodc,
        t_gd: 0, t_oc: 0, a_f2: 0, a_f1: 0, a_f0: 0 }
}

fn sf2(iode: u8) -> subframe2::Body {
    subframe2::Body { iode, crs: 0, dn: 0, m0: 0, cuc: 0, e: 0, cus: 0, sqrt_a: 0, t_oe: 0, fit_interval: false, aodo: 0 }
}

fn sf3(iode: u8) -> subframe3::Body {
    subframe3::Body { cic: 0, omega0: 0, cis: 0, i0: 0, crc: 0, omega: 0, omega_dot: 0, iode, idot: 0 }
}

#[test]
fn ephemeris_needs_matching_issues_of_data() {
    let mut nav = NavigationData::new();
    assert!(!nav.record(&SubframeBody::Subframe1(sf1(0x105))));
    assert!(!nav.record(&SubframeBody::Subframe2(sf2(5))));
    assert!(!nav.record(&SubframeBody::Subframe3(sf3(6))));
    assert!(nav.ephemeris.is_none());
    assert!(!nav.record(&SubframeBody::Subframe3(sf3(5))));
    let e = nav.ephemeris.unwrap();
    assert_eq!(e.sf1.iodc, 0x105);
    assert_eq!(e.sf3.iode, 5);
    // A new subframe 2 of another issue does not replace the ephemeris until subframe 3 agrees.
    nav.record(&SubframeBody::Subframe2(sf2(9)));
    nav.record(&SubframeBody::Subframe3(sf3(9)));
    assert_eq!(nav.ephemeris.unwrap().sf2.iode, 5);
}

#[test]
fn page18_brings_ionosphere_parameters() {
    let mut nav = NavigationData::new();
    assert!(matches!(nav.control(&ChannelCommand::Ionosphere), ChannelResponse::Ionosphere(None)));
    let page = subframe4::Page::Page18 { alpha0: 1, alpha1: 2, alpha2: 3, alpha3: 4, beta0: -1, beta1: -2, beta2: -3, beta3: -4,
        a1: 0, a0: 0, t_ot: 0, wn_t: 0, delta_t_LS: 0, wn_LSF: 0, delta_t_LSF: 0 };
    assert!(nav.record(&SubframeBody::Subframe4(subframe4::Body { data_id: 1, sv_id: 56, page })));
    match nav.control(&ChannelCommand::Ionosphere) {
        ChannelResponse::Ionosphere(Some(p)) => {
            assert_eq!(p.alpha2, 3);
            assert_eq!(p.beta3, -4);
        }
        other => panic!("unexpected {:?}", other),
    }
    assert!(matches!(nav.control(&ChannelCommand::Reset), ChannelResponse::Ack));
    assert!(!nav.record(&SubframeBody::Subframe4(subframe4::Body { data_id: 1, sv_id: 1, page: subframe4::Page::Reserved })));
    let p5 = subframe5::Page::Page25 { t_oa: 0, WN_a: 0, sv_health: [0; 24] };
    assert!(!nav.record(&SubframeBody::Subframe5(subframe5::Body { data_id: 1, sv_id: 25, page: p5 })));
    assert!(nav.ionosphere.is_some());
}

#[test]
fn issues_of_data_match_on_the_low_byte_of_the_clock_issue() {
    assert!(issues_of_data_match(0x105, 5, 5));
    assert!(issues_of_data_match(5, 5, 5));
    assert!(!issues_of_data_match(0x105, 5, 6));
    assert!(!issues_of_data_match(0x106, 5, 5));
}

#[test]
fn observations_are_due_every_pvt_rate_samples() {
    assert!(observation_due(0, 2046));
    assert!(!observation_due(1, 2046));
    assert!(observation_due(4092, 2046));
    assert!(!observation_due(4093, 2046));
    assert!(observation_due(7, 1));
}
