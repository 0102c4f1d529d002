//! The navigation-data bookkeeping of a GPS L1 C/A channel: the last subframes 1, 2 and 3,
//! the ephemeris they form when their issues of data agree, and the ionosphere parameters
//! of page 18 of subframe 4.

pub mod track_and_tlm;

use vstd::prelude::*;
use crate::gnss::gps_l1_ca::telemetry_decode::subframe::{self as sfm, SubframeBody, subframe1, subframe2, subframe3, subframe4};
use crate::gnss::telemetry_decode::gps::{
    TelemetryDecoder, TelemetryDecoderResult, DecoderState, next_state, words_ok, subframe_bits, recovered,
    initial_decoder_state,
};
use track_and_tlm::TrackerEvent;

verus! {

/// Requests that a channel answers.
#[derive(Debug, Clone, Copy)]
pub enum ChannelCommand {
    Ionosphere,
    Reset,
}

/// The ionosphere coefficients of page 18 of subframe 4, as transmitted: `alpha0..3` in
/// units of 2^-30, 2^-27, 2^-24, 2^-24 and `beta0..3` in units of 2^11, 2^14, 2^16, 2^16.
#[derive(Debug, Clone, Copy)]
pub struct IonosphereParameters {
    pub alpha0: i8,
    pub alpha1: i8,
    pub alpha2: i8,
    pub alpha3: i8,
    pub beta0: i8,
    pub beta1: i8,
    pub beta2: i8,
    pub beta3: i8,
}

/// A channel's answer to a command.
#[derive(Debug, Clone, Copy)]
pub enum ChannelResponse {
    Ionosphere(Option<IonosphereParameters>),
    Ack,
}

/// Subframes 1, 2 and 3 of one issue of data: together they hold the ephemeris.
#[derive(Debug, Clone, Copy)]
pub struct EphemerisSubframes {
    pub sf1: subframe1::Body,
    pub sf2: subframe2::Body,
    pub sf3: subframe3::Body,
}

/// The issue of data of clock (its low eight bits) and of both ephemeris subframes agree.
pub open spec fn issues_agree(sf1: subframe1::Body, sf2: subframe2::Body, sf3: subframe3::Body) -> bool {
    sf1.iodc % 256 == sf2.iode && sf2.iode == sf3.iode
}

/// Whether the issue of data of clock (its low eight bits) and the issues of data of both
/// ephemeris subframes agree, so that the three subframes belong together.
pub fn issues_of_data_match(iodc: u16, iode2: u8, iode3: u8) -> (r: bool)
    ensures
        r == (iodc % 256 == iode2 && iode2 == iode3),
{
    (iodc % 256) == (iode2 as u16) && iode2 == iode3
}

/// Whether the sample with index `sample_idx` is one at which an observation is made: one
/// every `pvt_rate_samples` samples, from sample 0 on.
pub fn observation_due(sample_idx: usize, pvt_rate_samples: usize) -> (r: bool)
    requires
        pvt_rate_samples > 0,
    ensures
        r == (sample_idx % pvt_rate_samples == 0),
{
    sample_idx % pvt_rate_samples == 0
}

/// The navigation data that a channel has collected.
#[derive(Debug, Clone, Copy)]
pub struct NavigationData {
    pub last_sf1: Option<subframe1::Body>,
    pub last_sf2: Option<subframe2::Body>,
    pub last_sf3: Option<subframe3::Body>,
    pub ephemeris: Option<EphemerisSubframes>,
    pub ionosphere: Option<IonosphereParameters>,
}

/// Every ephemeris held was formed from subframes whose issues of data agree.
pub open spec fn ephemeris_consistent(n: NavigationData) -> bool {
    n.ephemeris matches Some(e) ==> issues_agree(e.sf1, e.sf2, e.sf3)
}

/// The navigation data after subframe body `body`, and whether it brought new ionosphere
/// parameters.
pub open spec fn after_subframe(n: NavigationData, body: SubframeBody) -> (NavigationData, bool) {
    match body {
        SubframeBody::Subframe1(sf1) => (NavigationData { last_sf1: Some(sf1), ..n }, false),
        SubframeBody::Subframe2(sf2) => (NavigationData { last_sf2: Some(sf2), ..n }, false),
        SubframeBody::Subframe3(sf3) => {
            let ephemeris = match (n.last_sf1, n.last_sf2) {
                (Some(sf1), Some(sf2)) => if issues_agree(sf1, sf2, sf3) {
                    Some(EphemerisSubframes { sf1, sf2, sf3 })
                } else {
                    n.ephemeris
                },
                _ => n.ephemeris,
            };
            (NavigationData { last_sf3: Some(sf3), ephemeris, ..n }, false)
        },
        SubframeBody::Subframe4(sf4) => match sf4.page {
            subframe4::Page::Page18 { alpha0, alpha1, alpha2, alpha3, beta0, beta1, beta2, beta3, .. } =>
                (NavigationData {
                    ionosphere: Some(IonosphereParameters { alpha0, alpha1, alpha2, alpha3, beta0, beta1, beta2, beta3 }),
                    ..n
                }, true),
            _ => (n, false),
        },
        SubframeBody::Subframe5(_) => (n, false),
    }
}

/// Recording page 18 of subframe 4 stores each ionosphere coefficient under its own name and
/// reports new ionosphere parameters; no other subframe touches them.
pub proof fn law_page18_sets_ionosphere(n: NavigationData, body: SubframeBody)
    ensures
        match body {
            SubframeBody::Subframe4(b) => match b.page {
                subframe4::Page::Page18 { alpha0, alpha1, alpha2, alpha3, beta0, beta1, beta2, beta3, .. } => {
                    &&& after_subframe(n, body).1
                    &&& after_subframe(n, body).0.ionosphere matches Some(p)
                    &&& p.alpha0 == alpha0 && p.alpha1 == alpha1 && p.alpha2 == alpha2 && p.alpha3 == alpha3
                    &&& p.beta0 == beta0 && p.beta1 == beta1 && p.beta2 == beta2 && p.beta3 == beta3
                },
                _ => !after_subframe(n, body).1 && after_subframe(n, body).0.ionosphere == n.ionosphere,
            },
            _ => !after_subframe(n, body).1 && after_subframe(n, body).0.ionosphere == n.ionosphere,
        },
{
}

/// An ephemeris is only ever formed from subframes 1, 2 and 3 whose issues of data agree:
/// recording any subframe keeps that true.
pub proof fn law_ephemeris_issues_agree(n: NavigationData, body: SubframeBody)
    requires
        ephemeris_consistent(n),
    ensures
        ephemeris_consistent(after_subframe(n, body).0),
{
}

impl NavigationData {
    /// Nothing collected yet.
    pub fn new() -> (n: Self)
        ensures
            n == (NavigationData { last_sf1: None, last_sf2: None, last_sf3: None, ephemeris: None, ionosphere: None }),
    {
        NavigationData { last_sf1: None, last_sf2: None, last_sf3: None, ephemeris: None, ionosphere: None }
    }

    /// Records a decoded subframe body; returns whether it brought new ionosphere
    /// parameters.
    pub fn record(&mut self, body: &SubframeBody) -> (new_ionosphere: bool)
        ensures
            (*final(self), new_ionosphere) == after_subframe(*old(self), *body),
            match *body {
                SubframeBody::Subframe4(b) => match b.page {
                    subframe4::Page::Page18 { alpha0, alpha1, alpha2, alpha3, beta0, beta1, beta2, beta3, .. } => {
                        &&& new_ionosphere
                        &&& final(self).ionosphere matches Some(p)
                        &&& p.alpha0 == alpha0 && p.alpha1 == alpha1 && p.alpha2 == alpha2 && p.alpha3 == alpha3
                        &&& p.beta0 == beta0 && p.beta1 == beta1 && p.beta2 == beta2 && p.beta3 == beta3
                    },
                    _ => !new_ionosphere && final(self).ionosphere == old(self).ionosphere,
                },
                _ => !new_ionosphere && final(self).ionosphere == old(self).ionosphere,
            },
            (*body) matches SubframeBody::Subframe1(b) ==> final(self).last_sf1 == Some(b),
            (*body) matches SubframeBody::Subframe2(b) ==> final(self).last_sf2 == Some(b),
            (*body) matches SubframeBody::Subframe3(b) ==> final(self).last_sf3 == Some(b),
            final(self).ephemeris != old(self).ephemeris ==> {
                &&& (*body) matches SubframeBody::Subframe3(sf3)
                &&& final(self).ephemeris == Some(EphemerisSubframes {
                        sf1: old(self).last_sf1->0, sf2: old(self).last_sf2->0, sf3: sf3 })
                &&& old(self).last_sf1->0.iodc % 256 == old(self).last_sf2->0.iode
                &&& old(self).last_sf2->0.iode == sf3.iode
            },
    {
        let mut new_ionosphere = false;
        match body {
            SubframeBody::Subframe1(sf1) => self.last_sf1 = Some(*sf1),
            SubframeBody::Subframe2(sf2) => self.last_sf2 = Some(*sf2),
            SubframeBody::Subframe3(sf3) => {
                self.last_sf3 = Some(*sf3);

                // With subframe 3, a complete ephemeris may be ready
                match (self.last_sf1, self.last_sf2) {
                    (Some(sf1), Some(sf2)) => {
                        if issues_of_data_match(sf1.iodc, sf2.iode, sf3.iode) {
                            self.ephemeris = Some(EphemerisSubframes { sf1, sf2, sf3: *sf3 });
                        }
                    },
                    (_, _) => {},
                }
            },
            SubframeBody::Subframe4(sf4) => {
                match sf4.page {
                    subframe4::Page::Page18 { alpha0, alpha1, alpha2, alpha3, beta0, beta1, beta2, beta3, .. } => {
                        new_ionosphere = true;
                        self.ionosphere = Some(IonosphereParameters { alpha0, alpha1, alpha2, alpha3, beta0, beta1, beta2, beta3 });
                    },
                    _ => {},
                }
            },
            _ => {},
        }
        new_ionosphere
    }

    /// Answers a command: the ionosphere parameters held, or an acknowledgement of a reset.
    pub fn control(&self, c: &ChannelCommand) -> (r: ChannelResponse)
        ensures
            match *c {
                ChannelCommand::Ionosphere => r == ChannelResponse::Ionosphere(self.ionosphere),
                ChannelCommand::Reset => r == ChannelResponse::Ack,
            },
    {
        match c {
            ChannelCommand::Ionosphere => ChannelResponse::Ionosphere(self.ionosphere),
            ChannelCommand::Reset => ChannelResponse::Ack,
        }
    }
}

/// What a channel that acquires and tracks in one block reports for one sample: nothing yet,
/// a report (a decoded subframe if one was completed, whether an observation is due at this
/// sample, whether new ionosphere parameters arrived), or loss of lock.
#[derive(Clone, Copy, Debug)]
pub enum ReportDecision {
    NotReady,
    Report { sf: Option<sfm::Subframe>, observation_due: bool, new_ionosphere: bool },
    LossOfLock,
}

/// The abstract state of a reporting channel: its telemetry decoder, the navigation data
/// collected and the number of samples between observations.
pub struct ReportModel {
    pub decoder: DecoderState,
    pub nav: NavigationData,
    pub pvt_rate_samples: usize,
}

/// The outcome of the tracking block's result `ev` for the sample with index `sample_idx`,
/// with `r` the report and `m2` the next state.  Without a bit, a report is made only when an
/// observation is due; loss of lock is reported as such; a bit goes to the telemetry decoder,
/// and a completed subframe is recorded and reported, while one that fails its parity checks
/// or does not decode is dropped (the channel keeps tracking).
pub open spec fn report_outcome(m: ReportModel, sample_idx: usize, ev: TrackerEvent, m2: ReportModel, r: ReportDecision) -> bool {
    let due = sample_idx % m.pvt_rate_samples == 0;
    match ev {
        TrackerEvent::NotReady => m2 == m && r == (if due {
            ReportDecision::Report { sf: None, observation_due: true, new_ionosphere: false }
        } else {
            ReportDecision::NotReady
        }),
        TrackerEvent::LostLock(_) => m2 == m && r == ReportDecision::LossOfLock,
        TrackerEvent::Bit { positive, sample_idx: bit_idx } => {
            let bit = (positive, bit_idx);
            let buf = m.decoder.buffer.push(bit);
            &&& m2.decoder == next_state(m.decoder, bit)
            &&& m2.pvt_rate_samples == m.pvt_rate_samples
            &&& match m.decoder.decoding {
                Some(inv) if buf.len() >= 300 => {
                    let data = recovered(subframe_bits(buf, inv));
                    if words_ok(subframe_bits(buf, inv)) && sfm::is_valid(data) {
                        &&& r matches ReportDecision::Report { sf: Some(sf), observation_due, new_ionosphere }
                        &&& observation_due == due
                        &&& sfm::decodes_to(data, sf)
                        &&& (m2.nav, new_ionosphere) == after_subframe(m.nav, sf.body)
                    } else {
                        &&& m2.nav == m.nav
                        &&& r == ReportDecision::Report { sf: None, observation_due: due, new_ionosphere: false }
                    }
                },
                _ => {
                    &&& m2.nav == m.nav
                    &&& r == ReportDecision::Report { sf: None, observation_due: due, new_ionosphere: false }
                },
            }
        },
    }
}

/// Whatever the tracking block reports, a reporting channel only ever holds an ephemeris
/// formed from subframes whose issues of data agree, and it reports an observation as due
/// exactly at the samples whose index is a multiple of its observation period.
pub proof fn law_reports_keep_ephemeris_consistent(m: ReportModel, sample_idx: usize, ev: TrackerEvent, m2: ReportModel, r: ReportDecision)
    requires
        ephemeris_consistent(m.nav),
        report_outcome(m, sample_idx, ev, m2, r),
    ensures
        ephemeris_consistent(m2.nav),
        r matches ReportDecision::Report { observation_due, .. } ==> observation_due == (sample_idx % m.pvt_rate_samples == 0),
{
    if let TrackerEvent::Bit { positive, sample_idx: i } = ev {
        if let ReportDecision::Report { sf: Some(sf), .. } = r {
            law_ephemeris_issues_agree(m.nav, sf.body);
        }
    }
}

/// How a reporting channel reacts to its tracking block: loss of lock is reported as such and
/// changes nothing; without a bit, a report (with no subframe) is made exactly when an
/// observation is due; a bit is always reported, and a subframe that fails its parity checks
/// is dropped without any other effect, while a decoded one is recorded.
pub proof fn law_reporting_channel_reactions(m: ReportModel, sample_idx: usize, ev: TrackerEvent, m2: ReportModel, r: ReportDecision)
    requires
        report_outcome(m, sample_idx, ev, m2, r),
    ensures
        ev is LostLock ==> (m2 == m && r is LossOfLock),
        ev is NotReady ==> (m2 == m && (r is NotReady <==> sample_idx % m.pvt_rate_samples != 0)),
        ev is NotReady ==> (r matches ReportDecision::Report { sf, new_ionosphere, .. } ==> sf is None && !new_ionosphere),
        ev is Bit ==> (r is Report && m2.pvt_rate_samples == m.pvt_rate_samples),
        ev is Bit ==> (r matches ReportDecision::Report { sf: None, new_ionosphere, .. } ==> (!new_ionosphere && m2.nav == m.nav)),
        ev matches TrackerEvent::Bit { positive, sample_idx: bit_idx } ==> {
            let buf = m.decoder.buffer.push((positive, bit_idx));
            (m.decoder.decoding matches Some(inv) && buf.len() >= 300 && !words_ok(subframe_bits(buf, inv)))
                ==> (m2.nav == m.nav && r matches ReportDecision::Report { sf: None, .. })
        },
{
}

/// The decisions of a channel whose acquisition and tracking run as one block: it decodes
/// the bits, collects the navigation data and says when an observation is due.
pub struct ReportingChannel {
    tlm: TelemetryDecoder,
    nav: NavigationData,
    pvt_rate_samples: usize,
}

impl View for ReportingChannel {
    type V = ReportModel;

    closed spec fn view(&self) -> ReportModel {
        ReportModel { decoder: self.tlm@, nav: self.nav, pvt_rate_samples: self.pvt_rate_samples }
    }
}

impl ReportingChannel {
    /// The telemetry decoder's invariant holds and observations have a positive period.
    pub closed spec fn wf(&self) -> bool {
        &&& self.tlm.wf()
        &&& self.pvt_rate_samples > 0
    }

    /// A channel with nothing decoded or collected, due to observe every `pvt_rate_samples`
    /// samples.
    pub fn new(pvt_rate_samples: usize) -> (c: Self)
        requires
            pvt_rate_samples > 0,
        ensures
            c.wf(),
            c@ == (ReportModel {
                decoder: initial_decoder_state(),
                nav: NavigationData { last_sf1: None, last_sf2: None, last_sf3: None, ephemeris: None, ionosphere: None },
                pvt_rate_samples,
            }),
    {
        ReportingChannel { tlm: TelemetryDecoder::new(), nav: NavigationData::new(), pvt_rate_samples }
    }

    /// The navigation data collected.
    pub fn navigation_data(&self) -> (n: NavigationData)
        ensures
            n == self@.nav,
    {
        self.nav
    }

    /// Answers a command: the ionosphere parameters held, or an acknowledgement of a reset.
    pub fn control(&self, c: &ChannelCommand) -> (r: ChannelResponse)
        ensures
            match *c {
                ChannelCommand::Ionosphere => r == ChannelResponse::Ionosphere(self@.nav.ionosphere),
                ChannelCommand::Reset => r == ChannelResponse::Ack,
            },
    {
        self.nav.control(c)
    }

    /// Whether `on_track_result` can take a bit: the telemetry decoder's bit count still has
    /// room to grow.
    pub fn accepts_bit(&self) -> (r: bool)
        ensures
            r == (self@.decoder.decoding is None ==> self@.decoder.detector.current_bit < usize::MAX),
    {
        self.tlm.accepts_bit()
    }

    /// Takes the tracking block's result for the sample with index `sample_idx`.
    pub fn on_track_result(&mut self, sample_idx: usize, ev: TrackerEvent) -> (r: ReportDecision)
        requires
            old(self).wf(),
            old(self)@.decoder.decoding is None ==> old(self)@.decoder.detector.current_bit < usize::MAX,
        ensures
            final(self).wf(),
            report_outcome(old(self)@, sample_idx, ev, final(self)@, r),
    {
        let due = observation_due(sample_idx, self.pvt_rate_samples);
        match ev {
            TrackerEvent::NotReady => {
                if due {
                    ReportDecision::Report { sf: None, observation_due: true, new_ionosphere: false }
                } else {
                    ReportDecision::NotReady
                }
            },
            TrackerEvent::LostLock(_) => ReportDecision::LossOfLock,
            TrackerEvent::Bit { positive, sample_idx: bit_idx } => {
                let (sf, new_ionosphere) = match self.tlm.apply((positive, bit_idx)) {
                    TelemetryDecoderResult::Decoded(_, bits, _) => {
                        match sfm::decode(bits) {
                            Ok(sf) => {
                                let new_ionosphere = self.nav.record(&sf.body);
                                (Some(sf), new_ionosphere)
                            },
                            Err(_) => (None, false),
                        }
                    },
                    TelemetryDecoderResult::NotReady => (None, false),
                    TelemetryDecoderResult::Invalid(_) => (None, false),
                };
                ReportDecision::Report { sf, observation_due: due, new_ionosphere }
            },
        }
    }
}

} // verus!
