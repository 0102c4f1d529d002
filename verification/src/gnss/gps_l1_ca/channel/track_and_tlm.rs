//! The decisions of a GPS L1 C/A channel that tracks a signal and decodes its telemetry:
//! its acquisition and pull-in states, what each sample and each event of the tracking loop
//! does to them, and what becomes of the bits the tracking loop produces.  The tracking loop
//! itself, which works on the samples, runs outside this module and reports its events here.

use vstd::prelude::*;
use crate::DigSigProcErr;
use crate::gnss::gps_l1_ca::telemetry_decode::subframe as sfm;
use crate::gnss::telemetry_decode::gps::{
    TelemetryDecoder, TelemetryDecoderResult, DecoderState, next_state, words_ok, subframe_bits, recovered,
};
use super::{NavigationData, after_subframe, ephemeris_consistent, law_ephemeris_issues_agree};

verus! {

/// Where a channel is in acquiring a signal: waiting for an acquisition, skipping the
/// given number of samples to reach the start of a code period, or tracking.
#[derive(Clone, Copy, PartialEq, Eq, Structural, Debug)]
pub enum ChannelState {
    AwaitingAcquisition,
    PullIn(usize),
    Tracking,
}

/// The state after one more sample outside of tracking: each sample of the pull-in counts
/// down, the last one starts tracking; the other states do not change.  (A pull-in over zero
/// samples is never entered: an acquisition at code phase zero tracks at once.)
pub open spec fn state_after_sample(s: ChannelState) -> ChannelState {
    match s {
        ChannelState::PullIn(n) => if n == 1 { ChannelState::Tracking } else { ChannelState::PullIn((n - 1) as usize) },
        other => other,
    }
}

/// The state after `k` more samples.
pub open spec fn state_after_samples(s: ChannelState, k: nat) -> ChannelState
    decreases k,
{
    if k == 0 { s } else { state_after_sample(state_after_samples(s, (k - 1) as nat)) }
}

/// After an acquisition at code phase `n > 0`, the channel pulls in for exactly `n` samples:
/// it is not yet tracking after fewer, and tracks from the `n`-th on.
pub proof fn law_pull_in_lasts_code_phase_samples(n: usize, k: nat)
    requires
        n > 0,
    ensures
        k < n ==> state_after_samples(ChannelState::PullIn(n), k) == ChannelState::PullIn((n - k) as usize),
        k >= n ==> state_after_samples(ChannelState::PullIn(n), k) == ChannelState::Tracking,
    decreases k,
{
    if k > 0 {
        law_pull_in_lasts_code_phase_samples(n, (k - 1) as nat);
    }
}

/// The state after an acquisition at `code_phase`: tracking at once when the code phase is
/// zero, else pulling in over that many samples.
pub open spec fn state_after_acquisition(code_phase: usize) -> ChannelState {
    if code_phase == 0 { ChannelState::Tracking } else { ChannelState::PullIn(code_phase) }
}

impl ChannelState {
    /// The state after an acquisition at `code_phase`: tracking at once when the code phase
    /// is zero, else pulling in over that many samples.
    pub fn after_acquisition(code_phase: usize) -> (s: ChannelState)
        ensures
            s == state_after_acquisition(code_phase),
    {
        match code_phase {
            0 => ChannelState::Tracking,
            n => ChannelState::PullIn(n),
        }
    }

    /// The state after one more sample, outside of tracking: each sample of the pull-in
    /// counts down, the last one starts tracking; the other states do not change.
    pub fn after_sample(self) -> (s: ChannelState)
        requires
            self != ChannelState::PullIn(0),
        ensures
            s == state_after_sample(self),
            s != ChannelState::PullIn(0),
    {
        match self {
            ChannelState::PullIn(n) => if n == 1 { ChannelState::Tracking } else { ChannelState::PullIn(n - 1) },
            other => other,
        }
    }
}

/// What the tracking loop reports for one sample while the channel tracks: no bit completed
/// yet, a bit (its sign and the index of the sample that started it), or loss of lock.
#[derive(Clone, Copy, Debug)]
pub enum TrackerEvent {
    NotReady,
    Bit { positive: bool, sample_idx: usize },
    LostLock(DigSigProcErr),
}

/// What the channel answers for one sample: not ready (and why), a result of the tracked
/// signal (a decoded subframe if one was completed, and whether it brought new ionosphere
/// parameters), or the error that made the channel lose the signal.
#[derive(Clone, Copy, Debug)]
pub enum ChannelResult {
    NotReady(&'static str),
    Ready { sf: Option<sfm::Subframe>, new_ionosphere: bool },
    Error(DigSigProcErr),
}

/// What the channel needs once it has taken a sample: nothing more (its answer is given), or
/// the tracking loop's event for the sample.
#[derive(Clone, Copy, Debug)]
pub enum SampleOutcome {
    Answer(ChannelResult),
    RunTracker,
}

/// The abstract state of a channel: acquisition state, the index of the last sample, the
/// telemetry decoder and the navigation data collected.
pub struct ChannelModel {
    pub state: ChannelState,
    pub last_sample_idx: usize,
    pub decoder: DecoderState,
    pub nav: NavigationData,
}

/// Samples must come in increasing order of index (index 0 may come at any time).
pub open spec fn sample_in_order(m: ChannelModel, sample_idx: usize) -> bool {
    !(sample_idx <= m.last_sample_idx && sample_idx > 0)
}

/// One sample taken: the index is recorded; waiting for an acquisition and pulling in answer
/// at once (the pull-in counting down), tracking asks for the tracking loop's event.
pub open spec fn sample_step(m: ChannelModel, sample_idx: usize) -> (ChannelModel, SampleOutcome) {
    let m1 = ChannelModel { last_sample_idx: sample_idx, ..m };
    match m.state {
        ChannelState::AwaitingAcquisition => (m1, SampleOutcome::Answer(ChannelResult::NotReady("Waiting on acquisition"))),
        ChannelState::PullIn(_) => (ChannelModel { state: state_after_sample(m.state), ..m1 },
            SampleOutcome::Answer(ChannelResult::NotReady("Pulling in signal"))),
        ChannelState::Tracking => (m1, SampleOutcome::RunTracker),
    }
}

/// The outcome of the tracking loop's event `ev` in state `m`, with `r` the channel's answer
/// and `m2` its next state: no bit yet leaves everything as it was; loss of lock sends the
/// channel back to waiting for an acquisition and answers the error; a bit goes to the
/// telemetry decoder, and a completed subframe is recorded in the navigation data and
/// answered, while one that fails its parity checks or does not decode sends the channel
/// back to waiting for an acquisition.
pub open spec fn event_outcome(m: ChannelModel, ev: TrackerEvent, m2: ChannelModel, r: ChannelResult) -> bool {
    match ev {
        TrackerEvent::NotReady => m2 == m && r == ChannelResult::NotReady("Waiting on next bit from tracker"),
        TrackerEvent::LostLock(e) =>
            m2 == (ChannelModel { state: ChannelState::AwaitingAcquisition, ..m }) && r == ChannelResult::Error(e),
        TrackerEvent::Bit { positive, sample_idx } => {
            let bit = (positive, sample_idx);
            let buf = m.decoder.buffer.push(bit);
            &&& m2.decoder == next_state(m.decoder, bit)
            &&& m2.last_sample_idx == m.last_sample_idx
            &&& match m.decoder.decoding {
                Some(inv) if buf.len() >= 300 => {
                    let data = recovered(subframe_bits(buf, inv));
                    if words_ok(subframe_bits(buf, inv)) && sfm::is_valid(data) {
                        &&& m2.state == m.state
                        &&& r matches ChannelResult::Ready { sf: Some(sf), new_ionosphere }
                        &&& sfm::decodes_to(data, sf)
                        &&& (m2.nav, new_ionosphere) == after_subframe(m.nav, sf.body)
                    } else {
                        &&& m2.state == ChannelState::AwaitingAcquisition
                        &&& m2.nav == m.nav
                        &&& r == ChannelResult::Ready { sf: None, new_ionosphere: false }
                    }
                },
                _ => {
                    &&& m2.state == m.state
                    &&& m2.nav == m.nav
                    &&& r == ChannelResult::Ready { sf: None, new_ionosphere: false }
                },
            }
        },
    }
}

/// Whatever the tracking loop reports, a channel only ever holds an ephemeris formed from
/// subframes whose issues of data agree, and the samples it takes leave its navigation data
/// as it was.
pub proof fn law_channel_keeps_ephemeris_consistent(m: ChannelModel, ev: TrackerEvent, m2: ChannelModel, r: ChannelResult, sample_idx: usize)
    requires
        ephemeris_consistent(m.nav),
        event_outcome(m, ev, m2, r),
    ensures
        ephemeris_consistent(m2.nav),
        sample_step(m, sample_idx).0.nav == m.nav,
{
    if let TrackerEvent::Bit { positive, sample_idx: i } = ev {
        if let ChannelResult::Ready { sf: Some(sf), new_ionosphere } = r {
            law_ephemeris_issues_agree(m.nav, sf.body);
        }
    }
}

/// How a channel reacts to a sample: it records the sample's index; waiting for an
/// acquisition it answers "Waiting on acquisition" and stays waiting; pulling in it answers
/// "Pulling in signal" and counts one sample down, tracking after the last; tracking it asks
/// for the tracking loop's event and stays tracking.  Nothing else changes.
pub proof fn law_channel_sample_reactions(m: ChannelModel, sample_idx: usize)
    ensures
        ({
            let (m2, r) = sample_step(m, sample_idx);
            &&& m2.last_sample_idx == sample_idx
            &&& m2.decoder == m.decoder
            &&& m2.nav == m.nav
            &&& m.state == ChannelState::AwaitingAcquisition ==>
                (m2.state == ChannelState::AwaitingAcquisition && r == SampleOutcome::Answer(ChannelResult::NotReady("Waiting on acquisition")))
            &&& m.state == ChannelState::Tracking ==> (m2.state == ChannelState::Tracking && r == SampleOutcome::RunTracker)
            &&& m.state == ChannelState::PullIn(1) ==> m2.state == ChannelState::Tracking
            &&& m.state matches ChannelState::PullIn(n) ==> (n > 1 ==> m2.state == ChannelState::PullIn((n - 1) as usize))
            &&& m.state is PullIn ==> r == SampleOutcome::Answer(ChannelResult::NotReady("Pulling in signal"))
        }),
{
}

/// How a channel reacts to its tracking loop: no bit yet changes nothing and answers "Waiting
/// on next bit from tracker"; loss of lock sends it back to waiting for an acquisition and
/// answers the error, keeping the decoder and the navigation data; a bit is always answered
/// with a result, and only a subframe that fails its parity checks or does not decode sends
/// the channel back to waiting for an acquisition; a decoded subframe keeps it as it was and
/// is recorded in the navigation data.
pub proof fn law_channel_event_reactions(m: ChannelModel, ev: TrackerEvent, m2: ChannelModel, r: ChannelResult)
    requires
        event_outcome(m, ev, m2, r),
    ensures
        ev is NotReady ==> (m2 == m && r == ChannelResult::NotReady("Waiting on next bit from tracker")),
        ev matches TrackerEvent::LostLock(e) ==> {
            &&& m2.state == ChannelState::AwaitingAcquisition
            &&& r == ChannelResult::Error(e)
            &&& m2.decoder == m.decoder
            &&& m2.nav == m.nav
        },
        ev is Bit ==> {
            &&& r is Ready
            &&& m2.last_sample_idx == m.last_sample_idx
            &&& (m2.state == m.state || m2.state == ChannelState::AwaitingAcquisition)
            &&& (r matches ChannelResult::Ready { sf: Some(sf), new_ionosphere } ==> {
                &&& m2.state == m.state
                &&& (m2.nav, new_ionosphere) == after_subframe(m.nav, sf.body)
            })
            &&& (r matches ChannelResult::Ready { sf: None, new_ionosphere } ==> (!new_ionosphere && m2.nav == m.nav))
        },
        ev matches TrackerEvent::Bit { positive, sample_idx } ==> {
            let buf = m.decoder.buffer.push((positive, sample_idx));
            (m.decoder.decoding matches Some(inv) && buf.len() >= 300 && !words_ok(subframe_bits(buf, inv)))
                ==> (m2.state == ChannelState::AwaitingAcquisition && r == ChannelResult::Ready { sf: None, new_ionosphere: false })
        },
{
}

/// The decisions of a channel that tracks a GPS L1 C/A signal and decodes its telemetry.
pub struct TrackAndDecode {
    state: ChannelState,
    last_sample_idx: usize,
    tlm: TelemetryDecoder,
    nav: NavigationData,
}

impl View for TrackAndDecode {
    type V = ChannelModel;

    closed spec fn view(&self) -> ChannelModel {
        ChannelModel { state: self.state, last_sample_idx: self.last_sample_idx, decoder: self.tlm@, nav: self.nav }
    }
}

impl TrackAndDecode {
    /// The telemetry decoder's invariant holds, and the channel is never pulling in over zero
    /// samples.
    pub closed spec fn wf(&self) -> bool {
        &&& self.tlm.wf()
        &&& self.state != ChannelState::PullIn(0)
    }

    /// A channel waiting for an acquisition, with nothing decoded or collected.
    pub fn new() -> (c: Self)
        ensures
            c.wf(),
            c@.state == ChannelState::AwaitingAcquisition,
            c@.last_sample_idx == 0,
            c@.decoder == crate::gnss::telemetry_decode::gps::initial_decoder_state(),
            c@.nav == (NavigationData { last_sf1: None, last_sf2: None, last_sf3: None, ephemeris: None, ionosphere: None }),
    {
        TrackAndDecode { state: ChannelState::AwaitingAcquisition, last_sample_idx: 0, tlm: TelemetryDecoder::new(), nav: NavigationData::new() }
    }

    /// The acquisition state.
    pub fn state(&self) -> (s: ChannelState)
        ensures
            s == self@.state,
    {
        self.state
    }

    /// The navigation data collected.
    pub fn navigation_data(&self) -> (n: NavigationData)
        ensures
            n == self@.nav,
    {
        self.nav
    }

    /// An acquisition found the signal at `code_phase`: the channel pulls in over that many
    /// samples (or tracks at once) and its telemetry decoder starts afresh.
    pub fn acquire(&mut self, code_phase: usize)
        requires
            old(self).wf(),
        ensures
            final(self).wf(),
            final(self)@ == (ChannelModel {
                state: state_after_acquisition(code_phase),
                decoder: crate::gnss::telemetry_decode::gps::initial_decoder_state(),
                ..old(self)@
            }),
    {
        self.state = ChannelState::after_acquisition(code_phase);
        self.tlm.initialize();
    }

    /// Takes the index of the next sample.  Samples must come in increasing order of index.
    pub fn on_sample(&mut self, sample_idx: usize) -> (r: SampleOutcome)
        requires
            old(self).wf(),
            sample_in_order(old(self)@, sample_idx),
        ensures
            final(self).wf(),
            (final(self)@, r) == sample_step(old(self)@, sample_idx),
    {
        self.last_sample_idx = sample_idx;
        match self.state {
            ChannelState::AwaitingAcquisition => SampleOutcome::Answer(ChannelResult::NotReady("Waiting on acquisition")),
            ChannelState::PullIn(_) => {
                self.state = self.state.after_sample();
                SampleOutcome::Answer(ChannelResult::NotReady("Pulling in signal"))
            },
            ChannelState::Tracking => SampleOutcome::RunTracker,
        }
    }

    /// Whether `on_tracker_event` can take a bit: the telemetry decoder's bit count still has
    /// room to grow.
    pub fn accepts_bit(&self) -> (r: bool)
        ensures
            r == (self@.decoder.decoding is None ==> self@.decoder.detector.current_bit < usize::MAX),
    {
        self.tlm.accepts_bit()
    }

    /// Takes the tracking loop's event for the sample just taken, while tracking.
    pub fn on_tracker_event(&mut self, ev: TrackerEvent) -> (r: ChannelResult)
        requires
            old(self).wf(),
            old(self)@.decoder.decoding is None ==> old(self)@.decoder.detector.current_bit < usize::MAX,
        ensures
            final(self).wf(),
            event_outcome(old(self)@, ev, final(self)@, r),
    {
        match ev {
            TrackerEvent::NotReady => ChannelResult::NotReady("Waiting on next bit from tracker"),
            TrackerEvent::LostLock(e) => {
                self.state = ChannelState::AwaitingAcquisition;
                ChannelResult::Error(e)
            },
            TrackerEvent::Bit { positive, sample_idx } => {
                match self.tlm.apply((positive, sample_idx)) {
                    TelemetryDecoderResult::Decoded(_, bits, _) => {
                        match sfm::decode(bits) {
                            Ok(sf) => {
                                let new_ionosphere = self.nav.record(&sf.body);
                                ChannelResult::Ready { sf: Some(sf), new_ionosphere }
                            },
                            Err(_) => {
                                self.state = ChannelState::AwaitingAcquisition;
                                ChannelResult::Ready { sf: None, new_ionosphere: false }
                            },
                        }
                    },
                    TelemetryDecoderResult::NotReady => ChannelResult::Ready { sf: None, new_ionosphere: false },
                    TelemetryDecoderResult::Invalid(_) => {
                        self.state = ChannelState::AwaitingAcquisition;
                        ChannelResult::Ready { sf: None, new_ionosphere: false }
                    },
                }
            },
        }
    }
}

} // verus!
