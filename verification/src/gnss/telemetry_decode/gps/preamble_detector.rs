//! Detection of the L1 C/A telemetry preamble: the pattern 10001011 at the start of a
//! 30-bit word whose parity checks, in either polarity.

use vstd::prelude::*;
use crate::DigSigProcErr;
use super::{parity_check, parity_ok};

verus! {

/// The preamble as transmitted.
pub open spec fn pos_pattern() -> Seq<bool> {
    seq![true, false, false, false, true, false, true, true]
}

/// The preamble as received when the phase lock loop has locked to the inverted carrier.
pub open spec fn neg_pattern() -> Seq<bool> {
    seq![false, true, true, true, false, true, false, false]
}

/// The abstract state of a detector: the last (at most 30) bits received, how many bits
/// were received in all, and the polarity and position (modulo one 300-bit subframe) of the
/// last preamble found.
pub struct DetectorState {
    pub buffer: Seq<bool>,
    pub current_bit: nat,
    pub inverse_sense: Option<bool>,
    pub preamble_location: Option<usize>,
}

/// The preamble is 10001011 (IS-GPS-200, the first eight bits of the telemetry word), and a
/// signal received on the inverted carrier shows its complement 01110100.
pub proof fn law_preamble_is_10001011()
    ensures
        pos_pattern() == seq![true, false, false, false, true, false, true, true],
        neg_pattern() == seq![false, true, true, true, false, true, false, false],
{
}

/// Every bit of `s` complemented.
pub open spec fn negate(s: Seq<bool>) -> Seq<bool> {
    Seq::new(s.len(), |i: int| !s[i])
}

/// The detector state after receiving bit `b` in state `s`.
pub open spec fn step(s: DetectorState, b: bool) -> DetectorState {
    let pushed = s.buffer.push(b);
    let buffer = if pushed.len() > 30 { pushed.drop_first() } else { pushed };
    let current_bit = s.current_bit + 1;
    let location = ((current_bit - 30) % 300) as usize;
    if buffer.len() == 30 && buffer.take(8) == pos_pattern() && parity_ok(buffer, false, false) {
        DetectorState { buffer, current_bit, inverse_sense: Some(false), preamble_location: Some(location) }
    } else if buffer.len() == 30 && buffer.take(8) == neg_pattern() && parity_ok(negate(buffer), false, false) {
        DetectorState { buffer, current_bit, inverse_sense: Some(true), preamble_location: Some(location) }
    } else {
        DetectorState { buffer, current_bit, inverse_sense: s.inverse_sense, preamble_location: s.preamble_location }
    }
}

/// The detector state after receiving `bits` in order, starting from `s`.
pub open spec fn steps(s: DetectorState, bits: Seq<bool>) -> DetectorState
    decreases bits.len(),
{
    if bits.len() == 0 {
        s
    } else {
        step(steps(s, bits.drop_last()), bits.last())
    }
}

/// The state of a newly made detector.
pub open spec fn initial_state() -> DetectorState {
    DetectorState { buffer: Seq::empty(), current_bit: 0, inverse_sense: None, preamble_location: None }
}

/// `s2` is the state of a detector that received the complement of what `s1` received.
pub open spec fn mirrored(s1: DetectorState, s2: DetectorState) -> bool {
    &&& s2.buffer == negate(s1.buffer)
    &&& s2.current_bit == s1.current_bit
    &&& s2.preamble_location == s1.preamble_location
    &&& s2.inverse_sense == (match s1.inverse_sense { Some(b) => Some(!b), None => None })
}

proof fn lemma_negate_negate(s: Seq<bool>)
    ensures
        negate(negate(s)) == s,
{
    assert(negate(negate(s)) =~= s);
}

/// One step keeps two mirrored detectors mirrored when they receive complementary bits.
proof fn lemma_step_mirrored(s1: DetectorState, s2: DetectorState, b: bool)
    requires
        mirrored(s1, s2),
        s1.buffer.len() <= 30,
    ensures
        mirrored(step(s1, b), step(s2, !b)),
{
    let p1 = s1.buffer.push(b);
    let p2 = s2.buffer.push(!b);
    assert(p2 =~= negate(p1));
    let b1 = if p1.len() > 30 { p1.drop_first() } else { p1 };
    let b2 = if p2.len() > 30 { p2.drop_first() } else { p2 };
    assert(b2 =~= negate(b1));
    lemma_negate_negate(b1);
    if b1.len() == 30 {
        assert(b2.take(8) =~= negate(b1.take(8)));
        assert(negate(pos_pattern()) =~= neg_pattern());
        assert(negate(neg_pattern()) =~= pos_pattern());
        lemma_negate_negate(b1.take(8));
        assert(pos_pattern()[0] != neg_pattern()[0]);
    }
}

/// The detector treats a bit stream and its complement alike: it finds the preamble at the
/// same position, with the opposite sense.
pub proof fn law_detector_polarity(bits: Seq<bool>)
    ensures
        mirrored(steps(initial_state(), bits), steps(initial_state(), negate(bits))),
        steps(initial_state(), bits).buffer.len() <= 30,
    decreases bits.len(),
{
    if bits.len() == 0 {
        assert(negate(bits) =~= Seq::<bool>::empty());
        assert(negate(Seq::<bool>::empty()) =~= Seq::<bool>::empty());
    } else {
        law_detector_polarity(bits.drop_last());
        assert(negate(bits).drop_last() =~= negate(bits.drop_last()));
        lemma_step_mirrored(steps(initial_state(), bits.drop_last()), steps(initial_state(), negate(bits.drop_last())), bits.last());
    }
}

/// What `get_result` answers in state `s`.
pub open spec fn location_result(s: DetectorState) -> Result<usize, DigSigProcErr> {
    match s.preamble_location {
        Some(x) => Ok(x),
        None => Err(DigSigProcErr::InvalidTelemetryData("No preamble found yet")),
    }
}

/// What `is_inverse_sense` answers in state `s`.
pub open spec fn sense_result(s: DetectorState) -> Result<bool, DigSigProcErr> {
    match s.inverse_sense {
        Some(b) => Ok(b),
        None => Err(DigSigProcErr::InvalidTelemetryData("No preamble found yet")),
    }
}

/// The sense is known exactly when a position is, and a position is within one subframe.
pub open spec fn findings_consistent(s: DetectorState) -> bool {
    &&& (s.inverse_sense is Some <==> s.preamble_location is Some)
    &&& (s.preamble_location matches Some(x) ==> x < 300)
}

/// Two detectors made fresh, one fed `bits` and the other their complement, give the same
/// answer for the position (the error included) and opposite answers for the sense (the
/// error included); in each, the sense is known exactly when the position is.
pub proof fn law_detector_answers_polarity(bits: Seq<bool>)
    ensures
        location_result(steps(initial_state(), negate(bits))) == location_result(steps(initial_state(), bits)),
        sense_result(steps(initial_state(), negate(bits))) == (match sense_result(steps(initial_state(), bits)) {
            Ok(b) => Ok::<bool, DigSigProcErr>(!b),
            Err(e) => Err(e),
        }),
        sense_result(steps(initial_state(), bits)) is Ok <==> location_result(steps(initial_state(), bits)) is Ok,
{
    law_detector_polarity(bits);
    law_findings_consistent(initial_state(), bits);
}

/// Every step keeps the findings consistent: the sense is known exactly when a position is,
/// and a position is below 300.
pub proof fn law_findings_consistent(s: DetectorState, bits: Seq<bool>)
    requires
        findings_consistent(s),
    ensures
        findings_consistent(steps(s, bits)),
    decreases bits.len(),
{
    if bits.len() > 0 {
        law_findings_consistent(s, bits.drop_last());
    }
}

/// Once a preamble position is known, receiving more bits may replace it, never clear it.
pub proof fn law_location_persists(s: DetectorState, bits: Seq<bool>)
    requires
        s.preamble_location is Some,
    ensures
        steps(s, bits).preamble_location is Some,
    decreases bits.len(),
{
    if bits.len() > 0 {
        law_location_persists(s, bits.drop_last());
    }
}

/// A preamble is recorded only at a word that passes its parity check: whenever a bit
/// changes the position or the sense found, the last 30 bits received (the new bit last)
/// begin with the preamble and pass the parity check in the polarity recorded, and the
/// position recorded is that of the word's first bit, modulo one subframe.  A word that begins
/// with the preamble but fails its parity check leaves the findings as they were.
pub proof fn law_detector_records_only_parity_checked_preambles(s: DetectorState, b: bool)
    ensures
        ({
            let s2 = step(s, b);
            (s2.preamble_location != s.preamble_location || s2.inverse_sense != s.inverse_sense) ==> {
                &&& s2.buffer.len() == 30
                &&& s2.buffer.last() == b
                &&& s2.current_bit == s.current_bit + 1
                &&& s2.preamble_location == Some(((s2.current_bit - 30) % 300) as usize)
                &&& ((s2.inverse_sense == Some(false) && s2.buffer.take(8) == pos_pattern()
                        && parity_ok(s2.buffer, false, false))
                    || (s2.inverse_sense == Some(true) && s2.buffer.take(8) == neg_pattern()
                        && parity_ok(negate(s2.buffer), false, false)))
            }
        }),
        ({
            let s2 = step(s, b);
            let w = s2.buffer;
            (w.len() == 30 && w.take(8) == pos_pattern() && !parity_ok(w, false, false)
                && !(w.take(8) == neg_pattern())) ==> (s2.preamble_location == s.preamble_location && s2.inverse_sense == s.inverse_sense)
        }),
{
    let pushed = s.buffer.push(b);
    let buffer = if pushed.len() > 30 { pushed.drop_first() } else { pushed };
    assert(buffer.last() == b);
}

/// Every word that begins with the preamble (in either polarity) and passes its parity
/// check is recorded: its polarity as the sense and its first bit's position, modulo one
/// subframe, as the preamble position.
pub proof fn law_detector_records_every_parity_checked_preamble(s: DetectorState, b: bool)
    ensures
        ({
            let s2 = step(s, b);
            let w = s2.buffer;
            &&& (w.len() == 30 && w.take(8) == pos_pattern() && parity_ok(w, false, false)) ==>
                (s2.inverse_sense == Some(false) && s2.preamble_location == Some(((s2.current_bit - 30) % 300) as usize))
            &&& (w.len() == 30 && w.take(8) == neg_pattern() && parity_ok(negate(w), false, false)) ==>
                (s2.inverse_sense == Some(true) && s2.preamble_location == Some(((s2.current_bit - 30) % 300) as usize))
        }),
{
    assert(pos_pattern()[0] != neg_pattern()[0]);
}

pub struct PreambleDetector {
    buffer: std::collections::VecDeque<bool>,
    current_bit: usize,
    inverse_sense: Option<bool>,
    preamble_location: Option<usize>,
}

impl View for PreambleDetector {
    type V = DetectorState;

    closed spec fn view(&self) -> DetectorState {
        DetectorState {
            buffer: self.buffer@,
            current_bit: self.current_bit as nat,
            inverse_sense: self.inverse_sense,
            preamble_location: self.preamble_location,
        }
    }
}

/// A detector that has received nothing yet.
pub fn new_preamble_detector() -> (d: PreambleDetector)
    ensures
        d.wf(),
        d@ == initial_state(),
{
    PreambleDetector {
        buffer: std::collections::VecDeque::new(),
        current_bit: 0,
        inverse_sense: None,
        preamble_location: None,
    }
}

impl PreambleDetector {
    /// The buffer holds at most 30 bits, never more than were received; the sense is known
    /// exactly when a position is, and a position is below 300.
    pub closed spec fn wf(&self) -> bool {
        &&& self.buffer@.len() <= 30
        &&& self.buffer@.len() <= self.current_bit
        &&& findings_consistent(self@)
    }

    /// A well-formed detector's findings are consistent: whatever it answers for the position
    /// is below 300, and it knows the sense exactly when it knows the position.
    pub proof fn lemma_wf_findings(&self)
        requires
            self.wf(),
        ensures
            findings_consistent(self@),
    {
    }

    /// The number of bits received since the detector was made or last initialized.
    pub fn bits_received(&self) -> (n: usize)
        ensures
            n == self@.current_bit,
    {
        self.current_bit
    }

    /// Forgets every bit received and any preamble found.
    pub fn initialize(&mut self)
        ensures
            final(self).wf(),
            final(self)@ == initial_state(),
    {
        self.buffer.clear();
        self.current_bit = 0;
        self.inverse_sense = None;
        self.preamble_location = None;
    }

    /// Receives one bit and records a preamble if the last 30 bits form a preamble word
    /// whose parity checks.
    pub fn apply(&mut self, b: bool)
        requires
            old(self).wf(),
            old(self)@.current_bit < usize::MAX,
        ensures
            final(self).wf(),
            final(self)@ == step(old(self)@, b),
    {
        self.buffer.push_back(b);
        self.current_bit = self.current_bit + 1;

        // Limit the buffer size to 30
        if self.buffer.len() > 30 {
            let _ = self.buffer.pop_front();
        }
        let ghost buffer = self.buffer@;
        assert(buffer =~= {
            let pushed = old(self)@.buffer.push(b);
            if pushed.len() > 30 { pushed.drop_first() } else { pushed }
        });

        if self.buffer.len() == 30 {
            let mut first_eight: Vec<bool> = Vec::new();
            let mut whole_word: Vec<bool> = Vec::new();
            let mut inverted_word: Vec<bool> = Vec::new();
            let mut i: usize = 0;
            while i < 30
                invariant
                    buffer == self.buffer@,
                    buffer.len() == 30,
                    i <= 30,
                    whole_word@ == buffer.take(i as int),
                    inverted_word@ == negate(buffer.take(i as int)),
                    first_eight@ == buffer.take(if i < 8 { i as int } else { 8 }),
                decreases 30 - i,
            {
                let x = self.buffer[i];
                if i < 8 {
                    first_eight.push(x);
                }
                whole_word.push(x);
                inverted_word.push(!x);
                i = i + 1;
                assert(whole_word@ =~= buffer.take(i as int));
                assert(inverted_word@ =~= negate(buffer.take(i as int)));
                assert(first_eight@ =~= buffer.take(if i < 8 { i as int } else { 8 }));
            }
            assert(buffer.take(30) =~= buffer);
            let is_pos = eq_pattern(&first_eight, true);
            let is_neg = eq_pattern(&first_eight, false);
            if is_pos {
                if parity_check(whole_word.as_slice(), false, false) {
                    self.inverse_sense = Some(false);
                    self.preamble_location = Some((self.current_bit - 30) % 300);
                }
            } else if is_neg {
                if parity_check(inverted_word.as_slice(), false, false) {
                    self.inverse_sense = Some(true);
                    self.preamble_location = Some((self.current_bit - 30) % 300);
                }
            }
            proof {
                if is_pos { assert(pos_pattern() != neg_pattern()) by { assert(pos_pattern()[0] != neg_pattern()[0]); } }
            }
        }
    }

    /// The position, modulo one subframe, of the last preamble found.
    pub fn get_result(&self) -> (r: Result<usize, DigSigProcErr>)
        ensures
            r == location_result(self@),
            self.wf() ==> (r matches Ok(x) ==> x < 300),
    {
        match self.preamble_location {
            Some(x) => Ok(x),
            None => Err(DigSigProcErr::InvalidTelemetryData("No preamble found yet")),
        }
    }

    /// Whether the last preamble found was received inverted.
    pub fn is_inverse_sense(&self) -> (r: Result<bool, DigSigProcErr>)
        ensures
            r == sense_result(self@),
    {
        match self.inverse_sense {
            Some(b) => Ok(b),
            None => Err(DigSigProcErr::InvalidTelemetryData("No preamble found yet")),
        }
    }
}

/// Compares eight bits with the preamble in the given polarity.
fn eq_pattern(bits: &Vec<bool>, positive: bool) -> (r: bool)
    requires
        bits@.len() == 8,
    ensures
        r == (bits@ == (if positive { pos_pattern() } else { neg_pattern() })),
{
    let expected: [bool; 8] = if positive {
        [true, false, false, false, true, false, true, true]
    } else {
        [false, true, true, true, false, true, false, false]
    };
    let mut i: usize = 0;
    let mut same = true;
    while i < 8
        invariant
            i <= 8,
            bits@.len() == 8,
            expected@ == (if positive { pos_pattern() } else { neg_pattern() }),
            same == (forall|j: int| 0 <= j < i ==> bits@[j] == expected@[j]),
        decreases 8 - i,
    {
        same = same && bits[i] == expected[i];
        i = i + 1;
    }
    assert(same == (bits@ =~= expected@));
    same
}

} // verus!
