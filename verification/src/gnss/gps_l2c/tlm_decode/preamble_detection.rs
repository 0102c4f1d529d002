//! Detection of the CNAV preamble by watching which of the 300 positions of a message
//! always carry the same bit.

use vstd::prelude::*;
use crate::DigSigProcErr;

verus! {

/// What has been seen so far at one bit position (modulo 300) of the stream.
#[derive(PartialEq, Eq, Structural, Clone, Copy, Debug)]
pub enum BitLocation {
    Uninitialized,
    AlwaysTrue,
    AlwaysFalse,
    Variable,
}

/// A position that has only ever seen `b` stays constant; a second value makes it variable.
pub open spec fn bit_location_step(l: BitLocation, b: bool) -> BitLocation {
    match l {
        BitLocation::Uninitialized => if b { BitLocation::AlwaysTrue } else { BitLocation::AlwaysFalse },
        BitLocation::AlwaysTrue => if b { BitLocation::AlwaysTrue } else { BitLocation::Variable },
        BitLocation::AlwaysFalse => if !b { BitLocation::AlwaysFalse } else { BitLocation::Variable },
        BitLocation::Variable => BitLocation::Variable,
    }
}

impl BitLocation {
    fn apply(&mut self, b: bool)
        ensures
            *final(self) == bit_location_step(*old(self), b),
    {
        // If this location has already changed more than once, then there's nothing to update
        if *self == BitLocation::Variable {
            return;
        }
        // If this location is uninitialized, then initialize it
        if *self == BitLocation::Uninitialized {
            *self = if b { BitLocation::AlwaysTrue } else { BitLocation::AlwaysFalse };
        } else {
            if *self == BitLocation::AlwaysTrue && b {
                return;
            }
            if *self == BitLocation::AlwaysFalse && !b {
                return;
            }
            *self = BitLocation::Variable;
        }
    }
}

/// The abstract state of the detector: what each of the 300 positions has seen, and the
/// position of the next bit (reduced by 300 after each scan).
pub struct PreambleSearch {
    pub locations: Seq<BitLocation>,
    pub current_idx: nat,
}

/// The positions after feeding `data`, the first bit going to position `idx % 300`.
pub open spec fn feed(locs: Seq<BitLocation>, idx: nat, data: Seq<bool>) -> Seq<BitLocation>
    decreases data.len(),
{
    if data.len() == 0 {
        locs
    } else {
        let l = feed(locs, idx, data.drop_last());
        let p = ((idx + data.len() - 1) as nat % 300) as int;
        l.update(p, bit_location_step(l[p], data.last()))
    }
}

/// The preamble 10001011 (or its complement when `positive` is false) is constant at the
/// eight positions starting at `i`, counted modulo 300.
pub open spec fn preamble_at(locs: Seq<BitLocation>, i: int, positive: bool) -> bool {
    let pattern = seq![true, false, false, false, true, false, true, true];
    forall|k: int| 0 <= k < 8 ==> #[trigger] locs[(i + k) % 300] == (if pattern[k] == positive {
        BitLocation::AlwaysTrue
    } else {
        BitLocation::AlwaysFalse
    })
}

/// The preamble 10001011 is constant at the eight positions from `i` (modulo 300) in the
/// polarity received: bits 1, 5, 7 and 8 of the preamble set and the others clear, or all
/// eight the other way round on the inverted carrier.
pub proof fn law_preamble_search_pattern(locs: Seq<BitLocation>, i: int, positive: bool)
    ensures
        preamble_at(locs, i, positive) <==> ({
            let one = if positive { BitLocation::AlwaysTrue } else { BitLocation::AlwaysFalse };
            let zero = if positive { BitLocation::AlwaysFalse } else { BitLocation::AlwaysTrue };
            &&& locs[i % 300] == one
            &&& locs[(i + 1) % 300] == zero
            &&& locs[(i + 2) % 300] == zero
            &&& locs[(i + 3) % 300] == zero
            &&& locs[(i + 4) % 300] == one
            &&& locs[(i + 5) % 300] == zero
            &&& locs[(i + 6) % 300] == one
            &&& locs[(i + 7) % 300] == one
        }),
{
    let pattern = seq![true, false, false, false, true, false, true, true];
    if preamble_at(locs, i, positive) {
        assert(locs[(i + 0) % 300] == (if pattern[0] == positive { BitLocation::AlwaysTrue } else { BitLocation::AlwaysFalse }));
        assert(locs[(i + 1) % 300] == (if pattern[1] == positive { BitLocation::AlwaysTrue } else { BitLocation::AlwaysFalse }));
        assert(locs[(i + 2) % 300] == (if pattern[2] == positive { BitLocation::AlwaysTrue } else { BitLocation::AlwaysFalse }));
        assert(locs[(i + 3) % 300] == (if pattern[3] == positive { BitLocation::AlwaysTrue } else { BitLocation::AlwaysFalse }));
        assert(locs[(i + 4) % 300] == (if pattern[4] == positive { BitLocation::AlwaysTrue } else { BitLocation::AlwaysFalse }));
        assert(locs[(i + 5) % 300] == (if pattern[5] == positive { BitLocation::AlwaysTrue } else { BitLocation::AlwaysFalse }));
        assert(locs[(i + 6) % 300] == (if pattern[6] == positive { BitLocation::AlwaysTrue } else { BitLocation::AlwaysFalse }));
        assert(locs[(i + 7) % 300] == (if pattern[7] == positive { BitLocation::AlwaysTrue } else { BitLocation::AlwaysFalse }));
        assert(i + 0 == i);
    } else {
        let k = choose|k: int| 0 <= k < 8 && !(#[trigger] locs[(i + k) % 300] == (if pattern[k] == positive {
            BitLocation::AlwaysTrue } else { BitLocation::AlwaysFalse }));
        assert(i + 0 == i);
        if k == 0 {} else if k == 1 {} else if k == 2 {} else if k == 3 {} else if k == 4 {} else if k == 5 {} else if k == 6 {} else {}
    }
}

/// The positions below `n`, in increasing order, where the preamble of the given polarity is
/// constant.
pub open spec fn preamble_positions(locs: Seq<BitLocation>, n: nat, positive: bool) -> Seq<usize>
    decreases n,
{
    if n == 0 {
        Seq::empty()
    } else {
        let rest = preamble_positions(locs, (n - 1) as nat, positive);
        if preamble_at(locs, n - 1, positive) { rest.push((n - 1) as usize) } else { rest }
    }
}

/// The result of a scan of the positions `locs`: the unique preamble position and its
/// polarity (`1` or `-1`), no answer when there are several candidates, and an error when
/// there is none.
pub open spec fn scan_result(locs: Seq<BitLocation>) -> Result<Option<(usize, i8)>, DigSigProcErr> {
    let pos = preamble_positions(locs, 300, true);
    let neg = preamble_positions(locs, 300, false);
    if pos.len() == 1 && neg.len() == 0 {
        Ok(Some((pos[0], 1i8)))
    } else if pos.len() == 0 && neg.len() == 1 {
        Ok(Some((neg[0], -1i8)))
    } else if pos.len() == 0 && neg.len() == 0 {
        Err(DigSigProcErr::InvalidTelemetryData("No possible preamble locations found"))
    } else {
        Ok(None)
    }
}

/// One call of the detector on `data`: the new state and what the call returns. A scan
/// happens only once the position count passes 300.
pub open spec fn search_step(s: PreambleSearch, data: Seq<bool>) -> (PreambleSearch, Result<Option<(usize, i8)>, DigSigProcErr>) {
    let locs = feed(s.locations, s.current_idx, data);
    let idx = s.current_idx + data.len();
    if idx > 300 {
        (PreambleSearch { locations: locs, current_idx: (idx - 300) as nat }, scan_result(locs))
    } else {
        (PreambleSearch { locations: locs, current_idx: idx }, Ok(None))
    }
}

/// Successive calls on the slices of `inputs`, in order: the final state and every result.
pub open spec fn search_run(s: PreambleSearch, inputs: Seq<Seq<bool>>) -> (PreambleSearch, Seq<Result<Option<(usize, i8)>, DigSigProcErr>>)
    decreases inputs.len(),
{
    if inputs.len() == 0 {
        (s, Seq::empty())
    } else {
        let prev = search_run(s, inputs.drop_last());
        let next = search_step(prev.0, inputs.last());
        (next.0, prev.1.push(next.1))
    }
}

/// The state of a freshly made detector.
pub open spec fn initial_search() -> PreambleSearch {
    PreambleSearch { locations: Seq::new(300, |i: int| BitLocation::Uninitialized), current_idx: 0 }
}

/// What a position would have seen had every bit been complemented.
pub open spec fn mirror(l: BitLocation) -> BitLocation {
    match l {
        BitLocation::AlwaysTrue => BitLocation::AlwaysFalse,
        BitLocation::AlwaysFalse => BitLocation::AlwaysTrue,
        other => other,
    }
}

/// Every position mirrored.
pub open spec fn mirror_all(locs: Seq<BitLocation>) -> Seq<BitLocation> {
    Seq::new(locs.len(), |i: int| mirror(locs[i]))
}

/// Every bit complemented.
pub open spec fn negate(s: Seq<bool>) -> Seq<bool> {
    Seq::new(s.len(), |i: int| !s[i])
}

/// The scan result for the complemented stream: the same position, opposite polarity.
pub open spec fn flip_polarity(r: Result<Option<(usize, i8)>, DigSigProcErr>) -> Result<Option<(usize, i8)>, DigSigProcErr> {
    match r {
        Ok(Some((p, s))) => Ok(Some((p, (-s) as i8))),
        other => other,
    }
}

proof fn lemma_feed_mirror(locs: Seq<BitLocation>, idx: nat, data: Seq<bool>)
    requires
        locs.len() == 300,
    ensures
        feed(mirror_all(locs), idx, negate(data)) == mirror_all(feed(locs, idx, data)),
        feed(locs, idx, data).len() == 300,
    decreases data.len(),
{
    if data.len() > 0 {
        lemma_feed_mirror(locs, idx, data.drop_last());
        assert(negate(data).drop_last() =~= negate(data.drop_last()));
        let l = feed(locs, idx, data.drop_last());
        let p = ((idx + data.len() - 1) as nat % 300) as int;
        assert(feed(mirror_all(locs), idx, negate(data)) =~= mirror_all(feed(locs, idx, data)));
    } else {
        assert(negate(data) =~= data);
    }
}

proof fn lemma_positions_mirror(locs: Seq<BitLocation>, n: nat, positive: bool)
    requires
        locs.len() == 300,
    ensures
        preamble_positions(mirror_all(locs), n, positive) == preamble_positions(locs, n, !positive),
    decreases n,
{
    if n > 0 {
        lemma_positions_mirror(locs, (n - 1) as nat, positive);
        let i = n - 1;
        let pattern = seq![true, false, false, false, true, false, true, true];
        assert(preamble_at(mirror_all(locs), i, positive) == preamble_at(locs, i, !positive)) by {
            assert forall|k: int| 0 <= k < 8 implies #[trigger] mirror_all(locs)[(i + k) % 300] == mirror(locs[(i + k) % 300]) by {}
            if preamble_at(locs, i, !positive) {
                assert forall|k: int| 0 <= k < 8 implies #[trigger] mirror_all(locs)[(i + k) % 300] == (if pattern[k] == positive {
                    BitLocation::AlwaysTrue } else { BitLocation::AlwaysFalse }) by {
                    assert(locs[(i + k) % 300] == (if pattern[k] == !positive { BitLocation::AlwaysTrue } else { BitLocation::AlwaysFalse }));
                }
            }
            if preamble_at(mirror_all(locs), i, positive) {
                assert forall|k: int| 0 <= k < 8 implies #[trigger] locs[(i + k) % 300] == (if pattern[k] == !positive {
                    BitLocation::AlwaysTrue } else { BitLocation::AlwaysFalse }) by {
                    assert(mirror_all(locs)[(i + k) % 300] == (if pattern[k] == positive { BitLocation::AlwaysTrue } else { BitLocation::AlwaysFalse }));
                }
            }
        }
    }
}

/// The detector treats a bit stream and its complement alike: feeding complemented bits
/// gives the mirrored record of every position, and the scan finds the same preamble
/// position with the opposite polarity (or, alike, no candidate or several).
pub proof fn law_preamble_search_polarity(locs: Seq<BitLocation>, idx: nat, data: Seq<bool>)
    requires
        locs.len() == 300,
    ensures
        feed(mirror_all(locs), idx, negate(data)) == mirror_all(feed(locs, idx, data)),
        scan_result(mirror_all(feed(locs, idx, data))) == flip_polarity(scan_result(feed(locs, idx, data))),
{
    lemma_feed_mirror(locs, idx, data);
    let f = feed(locs, idx, data);
    lemma_positions_mirror(f, 300, true);
    lemma_positions_mirror(f, 300, false);
}

/// The record of every position mirrored, the position count unchanged.
pub open spec fn mirror_search(s: PreambleSearch) -> PreambleSearch {
    PreambleSearch { locations: mirror_all(s.locations), current_idx: s.current_idx }
}

proof fn lemma_run_polarity(s: PreambleSearch, inputs: Seq<Seq<bool>>)
    requires
        s.locations.len() == 300,
    ensures
        search_run(s, inputs).0.locations.len() == 300,
        search_run(mirror_search(s), inputs.map_values(|d: Seq<bool>| negate(d)))
            == (mirror_search(search_run(s, inputs).0), search_run(s, inputs).1.map_values(|r: Result<Option<(usize, i8)>, DigSigProcErr>| flip_polarity(r))),
    decreases inputs.len(),
{
    let neg = inputs.map_values(|d: Seq<bool>| negate(d));
    if inputs.len() > 0 {
        let init = inputs.drop_last();
        assert(neg.drop_last() =~= init.map_values(|d: Seq<bool>| negate(d)));
        lemma_run_polarity(s, init);
        let prev = search_run(s, init);
        law_preamble_search_polarity(prev.0.locations, prev.0.current_idx, inputs.last());
        lemma_feed_len(prev.0.locations, prev.0.current_idx, inputs.last());
        assert(neg.last() == negate(inputs.last()));
        let rs = search_run(s, inputs).1;
        assert(rs.map_values(|r: Result<Option<(usize, i8)>, DigSigProcErr>| flip_polarity(r))
            =~= prev.1.map_values(|r: Result<Option<(usize, i8)>, DigSigProcErr>| flip_polarity(r)).push(flip_polarity(search_step(prev.0, inputs.last()).1)));
    } else {
        assert(neg =~= Seq::<Seq<bool>>::empty());
        assert(search_run(s, inputs).1.map_values(|r: Result<Option<(usize, i8)>, DigSigProcErr>| flip_polarity(r)) =~= Seq::empty());
    }
}

/// Two detectors made fresh, one given the slices `inputs` and the other the same slices
/// with every bit complemented, answer alike at every call: the same preamble position with
/// opposite polarity, no answer together, and the error together.
pub proof fn law_detector_runs_polarity(inputs: Seq<Seq<bool>>)
    ensures
        search_run(initial_search(), inputs.map_values(|d: Seq<bool>| negate(d))).1
            == search_run(initial_search(), inputs).1.map_values(|r: Result<Option<(usize, i8)>, DigSigProcErr>| flip_polarity(r)),
        forall|j: int| 0 <= j < inputs.len() ==> {
            let r1 = #[trigger] search_run(initial_search(), inputs).1[j];
            let r2 = search_run(initial_search(), inputs.map_values(|d: Seq<bool>| negate(d))).1[j];
            &&& (r1 is Err <==> r2 is Err)
            &&& (r1 == Ok::<Option<(usize, i8)>, DigSigProcErr>(None) <==> r2 == Ok::<Option<(usize, i8)>, DigSigProcErr>(None))
            &&& forall|i: usize| r1 == Ok::<Option<(usize, i8)>, DigSigProcErr>(Some((i, 1i8)))
                <==> r2 == Ok::<Option<(usize, i8)>, DigSigProcErr>(Some((i, -1i8)))
            &&& forall|i: usize| r1 == Ok::<Option<(usize, i8)>, DigSigProcErr>(Some((i, -1i8)))
                <==> r2 == Ok::<Option<(usize, i8)>, DigSigProcErr>(Some((i, 1i8)))
        },
{
    let s = initial_search();
    assert(mirror_search(s).locations =~= s.locations);
    lemma_run_polarity(s, inputs);
    lemma_run_len(s, inputs);
    assert forall|j: int| 0 <= j < inputs.len() implies {
            let r1 = #[trigger] search_run(initial_search(), inputs).1[j];
            let r2 = search_run(initial_search(), inputs.map_values(|d: Seq<bool>| negate(d))).1[j];
            &&& (r1 is Err <==> r2 is Err)
            &&& (r1 == Ok::<Option<(usize, i8)>, DigSigProcErr>(None) <==> r2 == Ok::<Option<(usize, i8)>, DigSigProcErr>(None))
            &&& forall|i: usize| r1 == Ok::<Option<(usize, i8)>, DigSigProcErr>(Some((i, 1i8)))
                <==> r2 == Ok::<Option<(usize, i8)>, DigSigProcErr>(Some((i, -1i8)))
            &&& forall|i: usize| r1 == Ok::<Option<(usize, i8)>, DigSigProcErr>(Some((i, -1i8)))
                <==> r2 == Ok::<Option<(usize, i8)>, DigSigProcErr>(Some((i, 1i8)))
        } by {
        let r1 = search_run(initial_search(), inputs).1[j];
        assert(search_run(initial_search(), inputs.map_values(|d: Seq<bool>| negate(d))).1[j] == flip_polarity(r1));
        lemma_scan_polarity_values(r1);
    }
}

proof fn lemma_run_len(s: PreambleSearch, inputs: Seq<Seq<bool>>)
    ensures
        search_run(s, inputs).1.len() == inputs.len(),
        forall|j: int| 0 <= j < inputs.len() ==> (#[trigger] search_run(s, inputs).1[j] matches Ok(Some((_, p))) ==> p == 1 || p == -1),
    decreases inputs.len(),
{
    if inputs.len() > 0 {
        lemma_run_len(s, inputs.drop_last());
    }
}

proof fn lemma_scan_polarity_values(r1: Result<Option<(usize, i8)>, DigSigProcErr>)
    requires
        r1 matches Ok(Some((_, s))) ==> s == 1 || s == -1,
    ensures
        ({
            let r2 = flip_polarity(r1);
            &&& (r1 is Err <==> r2 is Err)
            &&& (r1 == Ok::<Option<(usize, i8)>, DigSigProcErr>(None) <==> r2 == Ok::<Option<(usize, i8)>, DigSigProcErr>(None))
            &&& forall|i: usize| r1 == Ok::<Option<(usize, i8)>, DigSigProcErr>(Some((i, 1i8)))
                <==> r2 == Ok::<Option<(usize, i8)>, DigSigProcErr>(Some((i, -1i8)))
            &&& forall|i: usize| r1 == Ok::<Option<(usize, i8)>, DigSigProcErr>(Some((i, -1i8)))
                <==> r2 == Ok::<Option<(usize, i8)>, DigSigProcErr>(Some((i, 1i8)))
        }),
{
}

pub struct PreambleDetector {
    bit_locations: [BitLocation; 300],
    current_idx: usize,
}

impl View for PreambleDetector {
    type V = PreambleSearch;

    closed spec fn view(&self) -> PreambleSearch {
        PreambleSearch { locations: self.bit_locations@, current_idx: self.current_idx as nat }
    }
}

proof fn lemma_feed_len(locs: Seq<BitLocation>, idx: nat, data: Seq<bool>)
    requires
        locs.len() == 300,
    ensures
        feed(locs, idx, data).len() == locs.len(),
    decreases data.len(),
{
    if data.len() > 0 {
        lemma_feed_len(locs, idx, data.drop_last());
    }
}

impl PreambleDetector {
    pub fn new() -> (d: Self)
        ensures
            d@ == initial_search(),
    {
        let d = PreambleDetector { bit_locations: [BitLocation::Uninitialized; 300], current_idx: 0 };
        assert(d@.locations =~= Seq::new(300, |i: int| BitLocation::Uninitialized));
        d
    }

    /// Records `data`; after each full turn of 300 bits, scans for the preamble: returns its
    /// position and polarity when exactly one candidate remains, `None` when several remain
    /// or the turn is not complete, and an error when none remains.
    pub fn apply(&mut self, data: &[bool]) -> (r: Result<Option<(usize, i8)>, DigSigProcErr>)
        requires
            old(self)@.current_idx + data@.len() <= usize::MAX,
        ensures
            final(self)@ == search_step(old(self)@, data@).0,
            r == search_step(old(self)@, data@).1,
    {
        let ghost locs0 = self.bit_locations@;
        let ghost idx0 = self.current_idx as nat;
        let mut n: usize = 0;
        while n < data.len()
            invariant
                n <= data@.len(),
                idx0 + data@.len() <= usize::MAX,
                locs0.len() == 300,
                self.current_idx == idx0 + n,
                self.bit_locations@ == feed(locs0, idx0, data@.take(n as int)),
            decreases data@.len() - n,
        {
            proof {
                assert(data@.take(n + 1).drop_last() =~= data@.take(n as int));
                lemma_feed_len(locs0, idx0, data@.take(n as int));
            }
            let p = self.current_idx % 300;
            let mut loc = self.bit_locations[p];
            loc.apply(data[n]);
            self.bit_locations[p] = loc;
            self.current_idx = self.current_idx + 1;
            n = n + 1;
        }
        assert(data@.take(data@.len() as int) =~= data@);

        if self.current_idx > 300 {
            self.current_idx = self.current_idx - 300;

            // After each time we wrap back around, try to detect the preamble
            let mut possible_pos_locs: Vec<usize> = Vec::new();
            let mut possible_neg_locs: Vec<usize> = Vec::new();
            let ghost locs = self.bit_locations@;

            for i in 0..300
                invariant
                    locs == self.bit_locations@,
                    locs.len() == 300,
                    possible_pos_locs@ == preamble_positions(locs, i as nat, true),
                    possible_neg_locs@ == preamble_positions(locs, i as nat, false),
            {
                if self.matches_at(i, true) {
                    possible_pos_locs.push(i);
                }
                if self.matches_at(i, false) {
                    possible_neg_locs.push(i);
                }
            }

            if possible_pos_locs.len() == 1 && possible_neg_locs.len() == 0 {
                Ok(Some((possible_pos_locs[0], 1)))
            } else if possible_pos_locs.len() == 0 && possible_neg_locs.len() == 1 {
                Ok(Some((possible_neg_locs[0], -1)))
            } else if possible_pos_locs.len() == 0 && possible_neg_locs.len() == 0 {
                Err(DigSigProcErr::InvalidTelemetryData("No possible preamble locations found"))
            } else {
                Ok(None)
            }
        } else {
            Ok(None)
        }
    }

    /// Whether the preamble of the given polarity is constant at the eight positions from `i`.
    fn matches_at(&self, i: usize, positive: bool) -> (r: bool)
        requires
            i < 300,
        ensures
            r == preamble_at(self@.locations, i as int, positive),
    {
        let pattern: [bool; 8] = [true, false, false, false, true, false, true, true];
        let mut k: usize = 0;
        let mut ok = true;
        while k < 8
            invariant
                i < 300,
                k <= 8,
                pattern@ == seq![true, false, false, false, true, false, true, true],
                ok == (forall|j: int| 0 <= j < k ==> #[trigger] self.bit_locations@[(i + j) % 300] == (if pattern@[j] == positive {
                    BitLocation::AlwaysTrue
                } else {
                    BitLocation::AlwaysFalse
                })),
            decreases 8 - k,
        {
            let expected = if pattern[k] == positive { BitLocation::AlwaysTrue } else { BitLocation::AlwaysFalse };
            ok = ok && self.bit_locations[(i + k) % 300] == expected;
            k = k + 1;
        }
        ok
    }
}

} // verus!
