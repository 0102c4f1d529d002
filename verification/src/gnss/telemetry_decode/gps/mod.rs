//! GPS L1 C/A telemetry decoding: preamble detection, parity checking of the ten
//! 30-bit words of a subframe, and decoding of the recovered 240 data bits.

pub mod preamble_detector;
pub mod l1_ca_subframe;

use vstd::prelude::*;
use crate::DigSigProcErr;
use std::collections::VecDeque;
use preamble_detector::{DetectorState, PreambleDetector, step, steps, findings_consistent, law_findings_consistent,
    law_detector_records_only_parity_checked_preambles, pos_pattern, neg_pattern, negate};
use crate::gnss::gps_l1_ca::telemetry_decode::subframe as sfm;

verus! {

pub const SUBFRAME_SIZE_W_PARITY_BITS: usize = 300;
pub const SUBFRAME_SIZE_DATA_ONLY_BITS: usize = 240;

/// The 24 data bits of a transmitted word are sent complemented when the last bit (D30) of
/// the previous word is set.
pub open spec fn data_bit(word: Seq<bool>, last_d30: bool, i: int) -> bool {
    word[i] ^ last_d30
}

/// The data bits D1..D24 (numbered from 0 here) that enter parity bit D(25+k),
/// `0 <= k < 6`, according to the interface specification (IS-GPS-200, table 20-XIV).
pub open spec fn parity_taps(k: int) -> Seq<usize> {
    if k == 0 {
        seq![0, 1, 2, 4, 5, 9, 10, 11, 12, 13, 16, 17, 19, 22]
    } else if k == 1 {
        seq![1, 2, 3, 5, 6, 10, 11, 12, 13, 14, 17, 18, 20, 23]
    } else if k == 2 {
        seq![0, 2, 3, 4, 6, 7, 11, 12, 13, 14, 15, 18, 19, 21]
    } else if k == 3 {
        seq![1, 3, 4, 5, 7, 8, 12, 13, 14, 15, 16, 19, 20, 22]
    } else if k == 4 {
        seq![0, 2, 4, 5, 6, 8, 9, 13, 14, 15, 16, 17, 20, 21, 23]
    } else {
        seq![2, 4, 5, 7, 8, 9, 10, 12, 14, 18, 21, 22, 23]
    }
}

/// Parity bits D25, D27 and D30 also take bit D29 of the previous word; the others take D30.
pub open spec fn uses_last_d29(k: int) -> bool {
    k == 0 || k == 2 || k == 5
}

/// The exclusive or of the (possibly complemented) data bits of `word` at the positions `taps`.
pub open spec fn xor_over(word: Seq<bool>, last_d30: bool, taps: Seq<usize>) -> bool
    decreases taps.len(),
{
    if taps.len() == 0 {
        false
    } else {
        xor_over(word, last_d30, taps.drop_last()) ^ data_bit(word, last_d30, taps.last() as int)
    }
}

/// Parity bit D(25+k), `0 <= k < 6`, computed from the data bits of `word` and the last two
/// bits of the previous word.
pub open spec fn parity_bit(word: Seq<bool>, last_d29: bool, last_d30: bool, k: int) -> bool {
    (if uses_last_d29(k) { last_d29 } else { last_d30 }) ^ xor_over(word, last_d30, parity_taps(k))
}

/// The last six bits of the 30-bit `word` are its parity bits.
pub open spec fn parity_ok(word: Seq<bool>, last_d29: bool, last_d30: bool) -> bool {
    forall|k: int| 0 <= k < 6 ==> #[trigger] word[24 + k] == parity_bit(word, last_d29, last_d30, k)
}

/// The exclusive or of the data bits at the positions `taps`.
fn xor_taps(word: &[bool], last_d30: bool, taps: &[usize]) -> (r: bool)
    requires
        word@.len() == 30,
        forall|i: int| 0 <= i < taps@.len() ==> #[trigger] taps@[i] < 24,
    ensures
        r == xor_over(word@, last_d30, taps@),
{
    let mut acc = false;
    let mut i: usize = 0;
    while i < taps.len()
        invariant
            word@.len() == 30,
            i <= taps@.len(),
            forall|j: int| 0 <= j < taps@.len() ==> #[trigger] taps@[j] < 24,
            acc == xor_over(word@, last_d30, taps@.take(i as int)),
        decreases taps@.len() - i,
    {
        assert(taps@.take(i + 1).drop_last() =~= taps@.take(i as int));
        acc = acc ^ (word[taps[i]] ^ last_d30);
        i = i + 1;
    }
    assert(taps@.take(taps@.len() as int) =~= taps@);
    acc
}

/// Parity bit D(25+k) of `word`.
fn compute_parity_bit(word: &[bool], last_d29: bool, last_d30: bool, k: usize) -> (p: bool)
    requires
        word@.len() == 30,
        k < 6,
    ensures
        p == parity_bit(word@, last_d29, last_d30, k as int),
{
    if k == 0 {
        let taps: [usize; 14] = [0, 1, 2, 4, 5, 9, 10, 11, 12, 13, 16, 17, 19, 22];
        assert(taps@ =~= parity_taps(0));
        last_d29 ^ xor_taps(word, last_d30, &taps)
    } else if k == 1 {
        let taps: [usize; 14] = [1, 2, 3, 5, 6, 10, 11, 12, 13, 14, 17, 18, 20, 23];
        assert(taps@ =~= parity_taps(1));
        last_d30 ^ xor_taps(word, last_d30, &taps)
    } else if k == 2 {
        let taps: [usize; 14] = [0, 2, 3, 4, 6, 7, 11, 12, 13, 14, 15, 18, 19, 21];
        assert(taps@ =~= parity_taps(2));
        last_d29 ^ xor_taps(word, last_d30, &taps)
    } else if k == 3 {
        let taps: [usize; 14] = [1, 3, 4, 5, 7, 8, 12, 13, 14, 15, 16, 19, 20, 22];
        assert(taps@ =~= parity_taps(3));
        last_d30 ^ xor_taps(word, last_d30, &taps)
    } else if k == 4 {
        let taps: [usize; 15] = [0, 2, 4, 5, 6, 8, 9, 13, 14, 15, 16, 17, 20, 21, 23];
        assert(taps@ =~= parity_taps(4));
        last_d30 ^ xor_taps(word, last_d30, &taps)
    } else {
        let taps: [usize; 13] = [2, 4, 5, 7, 8, 9, 10, 12, 14, 18, 21, 22, 23];
        assert(taps@ =~= parity_taps(5));
        last_d29 ^ xor_taps(word, last_d30, &taps)
    }
}

/// `w` with bit `i` complemented.
pub open spec fn flip(w: Seq<bool>, i: int) -> Seq<bool> {
    w.update(i, !w[i])
}

/// Complementing bit `i` of the word complements the exclusive or over `taps` exactly when
/// `i` is one of the (distinct) taps.
proof fn lemma_xor_over_flip(word: Seq<bool>, c: bool, taps: Seq<usize>, i: int)
    requires
        word.len() == 30,
        0 <= i < word.len(),
        taps.no_duplicates(),
        forall|j: int| 0 <= j < taps.len() ==> #[trigger] taps[j] < word.len(),
    ensures
        xor_over(flip(word, i), c, taps) == (xor_over(word, c, taps) ^ taps.contains(i as usize)),
    decreases taps.len(),
{
    if taps.len() > 0 {
        let front = taps.drop_last();
        assert forall|a: int, b: int| 0 <= a < b < front.len() implies front[a] != front[b] by {
            assert(taps[a] != taps[b]);
        }
        lemma_xor_over_flip(word, c, front, i);
        let l = taps.last() as int;
        assert(flip(word, i)[l] == (if l == i { !word[i] } else { word[l] }));
        assert(taps.last() == i as usize <==> l == i);
        if taps.contains(i as usize) {
            let j = choose|j: int| 0 <= j < taps.len() && taps[j] == i as usize;
            if j < taps.len() - 1 {
                assert(front[j] == i as usize);
                assert(taps.last() != i as usize);
            } else {
                assert(!front.contains(i as usize)) by {
                    if front.contains(i as usize) {
                        let m = choose|m: int| 0 <= m < front.len() && front[m] == i as usize;
                        assert(taps[m] == taps[taps.len() - 1]);
                    }
                }
            }
        } else {
            assert(!front.contains(i as usize)) by {
                if front.contains(i as usize) {
                    let m = choose|m: int| 0 <= m < front.len() && front[m] == i as usize;
                    assert(taps[m] == i as usize);
                }
            }
        }
    }
}

/// A parity bit that takes data bit `i`, `0 <= i < 24`.
spec fn covering_parity(i: int) -> int {
    if i == 0 { 0 
    } else if i == 1 { 0 
    } else if i == 2 { 0 
    } else if i == 3 { 1 
    } else if i == 4 { 0 
    } else if i == 5 { 0 
    } else if i == 6 { 1 
    } else if i == 7 { 2 
    } else if i == 8 { 3 
    } else if i == 9 { 0 
    } else if i == 10 { 0 
    } else if i == 11 { 0 
    } else if i == 12 { 0 
    } else if i == 13 { 0 
    } else if i == 14 { 1 
    } else if i == 15 { 2 
    } else if i == 16 { 0 
    } else if i == 17 { 0 
    } else if i == 18 { 1 
    } else if i == 19 { 0 
    } else if i == 20 { 1 
    } else if i == 21 { 2 
    } else if i == 22 { 0 
    } else { 1 }
}

/// The position of data bit `i` among the taps of `covering_parity(i)`.
spec fn covering_tap_index(i: int) -> int {
    if i == 0 { 0 
    } else if i == 1 { 1 
    } else if i == 2 { 2 
    } else if i == 3 { 2 
    } else if i == 4 { 3 
    } else if i == 5 { 4 
    } else if i == 6 { 4 
    } else if i == 7 { 5 
    } else if i == 8 { 5 
    } else if i == 9 { 5 
    } else if i == 10 { 6 
    } else if i == 11 { 7 
    } else if i == 12 { 8 
    } else if i == 13 { 9 
    } else if i == 14 { 9 
    } else if i == 15 { 10 
    } else if i == 16 { 10 
    } else if i == 17 { 11 
    } else if i == 18 { 11 
    } else if i == 19 { 12 
    } else if i == 20 { 12 
    } else if i == 21 { 13 
    } else if i == 22 { 13 
    } else { 13 }
}

/// Data bit `i` (numbered 1 to 24) of a transmitted word as the source sent it: the bit
/// received, complemented when bit D30 of the previous word is set.
pub open spec fn source_bit(word: Seq<bool>, last_d30: bool, i: int) -> bool {
    word[i - 1] ^ last_d30
}

proof fn lemma_parity_bit_0(w: Seq<bool>, p29: bool, p30: bool)
    ensures
        parity_bit(w, p29, p30, 0) == (p29 ^ source_bit(w, p30, 1) ^ source_bit(w, p30, 2) ^ source_bit(w, p30, 3) ^ source_bit(w, p30, 5) ^ source_bit(w, p30, 6) ^ source_bit(w, p30, 10) ^ source_bit(w, p30, 11) ^ source_bit(w, p30, 12) ^ source_bit(w, p30, 13) ^ source_bit(w, p30, 14) ^ source_bit(w, p30, 17) ^ source_bit(w, p30, 18) ^ source_bit(w, p30, 20) ^ source_bit(w, p30, 23)),
{
    reveal_with_fuel(xor_over, 16);
}

proof fn lemma_parity_bit_1(w: Seq<bool>, p29: bool, p30: bool)
    ensures
        parity_bit(w, p29, p30, 1) == (p30 ^ source_bit(w, p30, 2) ^ source_bit(w, p30, 3) ^ source_bit(w, p30, 4) ^ source_bit(w, p30, 6) ^ source_bit(w, p30, 7) ^ source_bit(w, p30, 11) ^ source_bit(w, p30, 12) ^ source_bit(w, p30, 13) ^ source_bit(w, p30, 14) ^ source_bit(w, p30, 15) ^ source_bit(w, p30, 18) ^ source_bit(w, p30, 19) ^ source_bit(w, p30, 21) ^ source_bit(w, p30, 24)),
{
    reveal_with_fuel(xor_over, 16);
}

proof fn lemma_parity_bit_2(w: Seq<bool>, p29: bool, p30: bool)
    ensures
        parity_bit(w, p29, p30, 2) == (p29 ^ source_bit(w, p30, 1) ^ source_bit(w, p30, 3) ^ source_bit(w, p30, 4) ^ source_bit(w, p30, 5) ^ source_bit(w, p30, 7) ^ source_bit(w, p30, 8) ^ source_bit(w, p30, 12) ^ source_bit(w, p30, 13) ^ source_bit(w, p30, 14) ^ source_bit(w, p30, 15) ^ source_bit(w, p30, 16) ^ source_bit(w, p30, 19) ^ source_bit(w, p30, 20) ^ source_bit(w, p30, 22)),
{
    reveal_with_fuel(xor_over, 16);
}

proof fn lemma_parity_bit_3(w: Seq<bool>, p29: bool, p30: bool)
    ensures
        parity_bit(w, p29, p30, 3) == (p30 ^ source_bit(w, p30, 2) ^ source_bit(w, p30, 4) ^ source_bit(w, p30, 5) ^ source_bit(w, p30, 6) ^ source_bit(w, p30, 8) ^ source_bit(w, p30, 9) ^ source_bit(w, p30, 13) ^ source_bit(w, p30, 14) ^ source_bit(w, p30, 15) ^ source_bit(w, p30, 16) ^ source_bit(w, p30, 17) ^ source_bit(w, p30, 20) ^ source_bit(w, p30, 21) ^ source_bit(w, p30, 23)),
{
    reveal_with_fuel(xor_over, 16);
}

proof fn lemma_parity_bit_4(w: Seq<bool>, p29: bool, p30: bool)
    ensures
        parity_bit(w, p29, p30, 4) == (p30 ^ source_bit(w, p30, 1) ^ source_bit(w, p30, 3) ^ source_bit(w, p30, 5) ^ source_bit(w, p30, 6) ^ source_bit(w, p30, 7) ^ source_bit(w, p30, 9) ^ source_bit(w, p30, 10) ^ source_bit(w, p30, 14) ^ source_bit(w, p30, 15) ^ source_bit(w, p30, 16) ^ source_bit(w, p30, 17) ^ source_bit(w, p30, 18) ^ source_bit(w, p30, 21) ^ source_bit(w, p30, 22) ^ source_bit(w, p30, 24)),
{
    reveal_with_fuel(xor_over, 16);
}

proof fn lemma_parity_bit_5(w: Seq<bool>, p29: bool, p30: bool)
    ensures
        parity_bit(w, p29, p30, 5) == (p29 ^ source_bit(w, p30, 3) ^ source_bit(w, p30, 5) ^ source_bit(w, p30, 6) ^ source_bit(w, p30, 8) ^ source_bit(w, p30, 9) ^ source_bit(w, p30, 10) ^ source_bit(w, p30, 11) ^ source_bit(w, p30, 13) ^ source_bit(w, p30, 15) ^ source_bit(w, p30, 19) ^ source_bit(w, p30, 22) ^ source_bit(w, p30, 23) ^ source_bit(w, p30, 24)),
{
    reveal_with_fuel(xor_over, 16);
}

/// Each parity bit of a word is given by its parity equation of the navigation message
/// (IS-GPS-200, table 20-XIV), with the data bits d1..d24 as the source sent them and D29*,
/// D30* the last two bits of the previous word; a word passes the parity check exactly when
/// its bits D25..D30 equal these six sums (modulo 2).
pub proof fn law_parity_bits_follow_the_equations(w: Seq<bool>, p29: bool, p30: bool)
    ensures
        parity_bit(w, p29, p30, 0) == (p29 ^ source_bit(w, p30, 1) ^ source_bit(w, p30, 2) ^ source_bit(w, p30, 3) ^ source_bit(w, p30, 5) ^ source_bit(w, p30, 6) ^ source_bit(w, p30, 10) ^ source_bit(w, p30, 11) ^ source_bit(w, p30, 12) ^ source_bit(w, p30, 13) ^ source_bit(w, p30, 14) ^ source_bit(w, p30, 17) ^ source_bit(w, p30, 18) ^ source_bit(w, p30, 20) ^ source_bit(w, p30, 23)),
        parity_bit(w, p29, p30, 1) == (p30 ^ source_bit(w, p30, 2) ^ source_bit(w, p30, 3) ^ source_bit(w, p30, 4) ^ source_bit(w, p30, 6) ^ source_bit(w, p30, 7) ^ source_bit(w, p30, 11) ^ source_bit(w, p30, 12) ^ source_bit(w, p30, 13) ^ source_bit(w, p30, 14) ^ source_bit(w, p30, 15) ^ source_bit(w, p30, 18) ^ source_bit(w, p30, 19) ^ source_bit(w, p30, 21) ^ source_bit(w, p30, 24)),
        parity_bit(w, p29, p30, 2) == (p29 ^ source_bit(w, p30, 1) ^ source_bit(w, p30, 3) ^ source_bit(w, p30, 4) ^ source_bit(w, p30, 5) ^ source_bit(w, p30, 7) ^ source_bit(w, p30, 8) ^ source_bit(w, p30, 12) ^ source_bit(w, p30, 13) ^ source_bit(w, p30, 14) ^ source_bit(w, p30, 15) ^ source_bit(w, p30, 16) ^ source_bit(w, p30, 19) ^ source_bit(w, p30, 20) ^ source_bit(w, p30, 22)),
        parity_bit(w, p29, p30, 3) == (p30 ^ source_bit(w, p30, 2) ^ source_bit(w, p30, 4) ^ source_bit(w, p30, 5) ^ source_bit(w, p30, 6) ^ source_bit(w, p30, 8) ^ source_bit(w, p30, 9) ^ source_bit(w, p30, 13) ^ source_bit(w, p30, 14) ^ source_bit(w, p30, 15) ^ source_bit(w, p30, 16) ^ source_bit(w, p30, 17) ^ source_bit(w, p30, 20) ^ source_bit(w, p30, 21) ^ source_bit(w, p30, 23)),
        parity_bit(w, p29, p30, 4) == (p30 ^ source_bit(w, p30, 1) ^ source_bit(w, p30, 3) ^ source_bit(w, p30, 5) ^ source_bit(w, p30, 6) ^ source_bit(w, p30, 7) ^ source_bit(w, p30, 9) ^ source_bit(w, p30, 10) ^ source_bit(w, p30, 14) ^ source_bit(w, p30, 15) ^ source_bit(w, p30, 16) ^ source_bit(w, p30, 17) ^ source_bit(w, p30, 18) ^ source_bit(w, p30, 21) ^ source_bit(w, p30, 22) ^ source_bit(w, p30, 24)),
        parity_bit(w, p29, p30, 5) == (p29 ^ source_bit(w, p30, 3) ^ source_bit(w, p30, 5) ^ source_bit(w, p30, 6) ^ source_bit(w, p30, 8) ^ source_bit(w, p30, 9) ^ source_bit(w, p30, 10) ^ source_bit(w, p30, 11) ^ source_bit(w, p30, 13) ^ source_bit(w, p30, 15) ^ source_bit(w, p30, 19) ^ source_bit(w, p30, 22) ^ source_bit(w, p30, 23) ^ source_bit(w, p30, 24)),
{
    lemma_parity_bit_0(w, p29, p30);
    lemma_parity_bit_1(w, p29, p30);
    lemma_parity_bit_2(w, p29, p30);
    lemma_parity_bit_3(w, p29, p30);
    lemma_parity_bit_4(w, p29, p30);
    lemma_parity_bit_5(w, p29, p30);
}

/// The parity of a word detects any single bit in error: when `word` passes its parity
/// check, the same word with any one of its 30 bits complemented fails it.
pub proof fn law_single_bit_error_detected(word: Seq<bool>, last_d29: bool, last_d30: bool, i: int)
    requires
        word.len() == 30,
        parity_ok(word, last_d29, last_d30),
        0 <= i < 30,
    ensures
        !parity_ok(flip(word, i), last_d29, last_d30),
{
    let w2 = flip(word, i);
    if i >= 24 {
        let k = i - 24;
        assert forall|t: int| 0 <= t < 6 implies #[trigger] xor_over(w2, last_d30, parity_taps(t)) == xor_over(word, last_d30, parity_taps(t)) by {
            lemma_xor_over_unchanged(word, w2, last_d30, parity_taps(t));
        }
        assert(word[24 + k] == parity_bit(word, last_d29, last_d30, k));
        assert(w2[24 + k] != parity_bit(w2, last_d29, last_d30, k));
    } else {
        let k = covering_parity(i);
        let j = covering_tap_index(i);
        let taps = parity_taps(k);
        assert(taps[j] == i as usize);
        assert(taps.no_duplicates());
        lemma_xor_over_flip(word, last_d30, taps, i);
        assert(word[24 + k] == parity_bit(word, last_d29, last_d30, k));
        assert(w2[24 + k] == word[24 + k]);
        assert(w2[24 + k] != parity_bit(w2, last_d29, last_d30, k));
    }
}

/// The exclusive or over taps below 24 does not see bits 24 and up.
proof fn lemma_xor_over_unchanged(w1: Seq<bool>, w2: Seq<bool>, c: bool, taps: Seq<usize>)
    requires
        w1.len() == 30,
        w2.len() == 30,
        forall|j: int| 0 <= j < 24 ==> #[trigger] w1[j] == w2[j],
        forall|j: int| 0 <= j < taps.len() ==> #[trigger] taps[j] < 24,
    ensures
        xor_over(w1, c, taps) == xor_over(w2, c, taps),
    decreases taps.len(),
{
    if taps.len() > 0 {
        lemma_xor_over_unchanged(w1, w2, c, taps.drop_last());
        assert(w1[taps.last() as int] == w2[taps.last() as int]);
    }
}

/// Checks the parity of one 30-bit word given bits D29 and D30 of the previous word.
pub(crate) fn parity_check(word: &[bool], last_d29: bool, last_d30: bool) -> (ok: bool)
    requires
        word@.len() == 30,
    ensures
        ok == parity_ok(word@, last_d29, last_d30),
{
    let mut k: usize = 0;
    let mut ok = true;
    while k < 6
        invariant
            word@.len() == 30,
            k <= 6,
            ok == (forall|j: int| 0 <= j < k ==> #[trigger] word@[24 + j] == parity_bit(word@, last_d29, last_d30, j)),
        decreases 6 - k,
    {
        let p = compute_parity_bit(word, last_d29, last_d30, k);
        ok = ok && word[24 + k] == p;
        k = k + 1;
    }
    ok
}

/// Bits D29 and D30 of the word before word `w` of a subframe; the first word is checked
/// as if both were zero.
pub open spec fn last_bits(sub: Seq<bool>, w: int) -> (bool, bool) {
    if w == 0 { (false, false) } else { (sub[30 * w - 2], sub[30 * w - 1]) }
}

/// Word `w` (30 bits) of a subframe.
pub open spec fn word_of(sub: Seq<bool>, w: int) -> Seq<bool> {
    sub.subrange(30 * w, 30 * w + 30)
}

/// Every one of the ten words of the 300-bit subframe `sub` passes its parity check.
pub open spec fn words_ok(sub: Seq<bool>) -> bool {
    forall|w: int| 0 <= w < 10 ==> #[trigger] parity_ok(word_of(sub, w), last_bits(sub, w).0, last_bits(sub, w).1)
}

/// `data` holds the 24 data bits of each of the ten words of `sub`, complemented where bit
/// D30 of the previous word is set (never for the first word).
pub open spec fn recovers_to(sub: Seq<bool>, data: Seq<bool>) -> bool {
    &&& data.len() == 240
    &&& forall|w: int, b: int| 0 <= w < 10 && 0 <= b < 24 ==>
            #[trigger] data[24 * w + b] == (sub[30 * w + b] ^ (w > 0 && sub[30 * w - 1]))
}

/// Checks the parity of the ten words of a subframe and strips the parity bits.
pub(crate) fn data_recover(subframe: [bool; 300]) -> (r: Result<[bool; 240], DigSigProcErr>)
    ensures
        r is Ok <==> words_ok(subframe@),
        r matches Ok(data) ==> recovers_to(subframe@, data@),
        !words_ok(subframe@) ==> r == Err::<[bool; 240], DigSigProcErr>(DigSigProcErr::InvalidTelemetryData("Bad parity check")),
{
    let mut w: usize = 0;
    while w < 10
        invariant
            w <= 10,
            forall|v: int| 0 <= v < w ==> #[trigger] parity_ok(word_of(subframe@, v), last_bits(subframe@, v).0, last_bits(subframe@, v).1),
        decreases 10 - w,
    {
        let (d29, d30) = if w == 0 { (false, false) } else { (subframe[30 * w - 2], subframe[30 * w - 1]) };
        if !parity_check(&subframe[(30 * w)..(30 * w + 30)], d29, d30) {
            assert(!parity_ok(word_of(subframe@, w as int), last_bits(subframe@, w as int).0, last_bits(subframe@, w as int).1));
            return Err(DigSigProcErr::InvalidTelemetryData("Bad parity check"));
        }
        w = w + 1;
    }

    let mut ans: [bool; 240] = [false; 240];
    for bit_idx in 0..24
        invariant
            forall|b: int| 0 <= b < bit_idx ==> #[trigger] ans@[b] == subframe@[b],
    {
        ans[bit_idx] = subframe[bit_idx];
    }
    for sf_idx in 1..10
        invariant
            forall|b: int| 0 <= b < 24 ==> #[trigger] ans@[b] == subframe@[b],
            forall|v: int, b: int| 1 <= v < sf_idx && 0 <= b < 24 ==>
                #[trigger] ans@[24 * v + b] == (subframe@[30 * v + b] ^ subframe@[30 * v - 1]),
    {
        for bit_idx in 0..24
            invariant
                1 <= sf_idx < 10,
                forall|b: int| 0 <= b < 24 ==> #[trigger] ans@[b] == subframe@[b],
                forall|v: int, b: int| 1 <= v < sf_idx && 0 <= b < 24 ==>
                    #[trigger] ans@[24 * v + b] == (subframe@[30 * v + b] ^ subframe@[30 * v - 1]),
                forall|b: int| 0 <= b < bit_idx ==>
                    #[trigger] ans@[24 * (sf_idx as int) + b] == (subframe@[30 * (sf_idx as int) + b] ^ subframe@[30 * (sf_idx as int) - 1]),
        {
            ans[(24 * sf_idx) + bit_idx] = subframe[(30 * sf_idx) + bit_idx] ^ subframe[(30 * sf_idx) - 1];
        }
    }
    proof {
        assert forall|w: int, b: int| 0 <= w < 10 && 0 <= b < 24 implies
            #[trigger] ans@[24 * w + b] == (subframe@[30 * w + b] ^ (w > 0 && subframe@[30 * w - 1])) by {
            if w == 0 {
                assert(ans@[b] == subframe@[b]);
            }
        }
    }
    Ok(ans)
}

/// The 240 data bits that `recovers_to` describes, written out bit by bit.
pub open spec fn recovered(sub: Seq<bool>) -> Seq<bool> {
    Seq::new(240, |k: int| sub[30 * (k / 24) + k % 24] ^ (k / 24 > 0 && sub[30 * (k / 24) - 1]))
}

/// Only one 240-bit sequence recovers from a subframe.
pub proof fn lemma_recovers_to_unique(sub: Seq<bool>, data: Seq<bool>)
    requires
        recovers_to(sub, data),
    ensures
        data == recovered(sub),
{
    assert forall|k: int| 0 <= k < 240 implies data[k] == #[trigger] recovered(sub)[k] by {
        let w = k / 24;
        let b = k % 24;
        assert(k == 24 * w + b);
        assert(data[24 * w + b] == (sub[30 * w + b] ^ (w > 0 && sub[30 * w - 1])));
    }
    assert(data =~= recovered(sub));
}

/// The 300 bits at the front of `buf`, complemented when the preamble was received inverted.
pub open spec fn subframe_bits(buf: Seq<(bool, usize)>, is_inverse_sense: bool) -> Seq<bool> {
    Seq::new(300, |i: int| buf[i].0 ^ is_inverse_sense)
}

/// The data bits are recovered as the navigation message sends them: bit `b` (1 to 24) of
/// word `w` (1 to 10) is received as data bit 24(w-1)+b, complemented when the last bit D30
/// of word w-1 is set (never for word 1).
pub proof fn law_data_sent_complemented_after_d30(sub: Seq<bool>, data: Seq<bool>)
    requires
        recovers_to(sub, data),
    ensures
        data.len() == 240,
        forall|w: int, b: int| 1 <= w <= 10 && 1 <= b <= 24 ==>
            #[trigger] sub[30 * (w - 1) + (b - 1)] == (data[24 * (w - 1) + (b - 1)] ^ (w > 1 && sub[30 * (w - 1) - 1])),
{
    assert forall|w: int, b: int| 1 <= w <= 10 && 1 <= b <= 24 implies
        #[trigger] sub[30 * (w - 1) + (b - 1)] == (data[24 * (w - 1) + (b - 1)] ^ (w > 1 && sub[30 * (w - 1) - 1])) by {
        assert(data[24 * (w - 1) + (b - 1)] == (sub[30 * (w - 1) + (b - 1)] ^ ((w - 1) > 0 && sub[30 * (w - 1) - 1])));
    }
}

/// A subframe is read in the polarity its preamble was found in: its bits are the bits
/// received, each complemented when the preamble was received inverted.
pub proof fn law_subframe_read_in_found_polarity(buf: Seq<(bool, usize)>)
    ensures
        forall|i: int| 0 <= i < 300 ==> #[trigger] subframe_bits(buf, false)[i] == buf[i].0,
        forall|i: int| 0 <= i < 300 ==> #[trigger] subframe_bits(buf, true)[i] == !buf[i].0,
{
}

/// What a telemetry decoder returns for one bit.
pub enum TelemetryDecoderResult {
    NotReady,
    /// A decoded subframe, its 240 data bits and the sample index where it starts.
    Decoded(l1_ca_subframe::Subframe, [bool; 240], usize),
    /// The subframe failed its parity checks or did not decode.
    Invalid(DigSigProcErr),
}

enum TelemetryDecoderState {
    LookingForPreamble,
    DecodingSubframes { is_inverse_sense: bool },
}

/// The abstract state of a telemetry decoder: its preamble detector, the bits (with the
/// sample index at which each started) not yet consumed, and, once a preamble has been
/// found, whether the bits are received inverted.
pub struct DecoderState {
    pub detector: DetectorState,
    pub buffer: Seq<(bool, usize)>,
    pub decoding: Option<bool>,
}

/// Turns a stream of bits into GPS L1 C/A subframes.
pub struct TelemetryDecoder {
    detector: PreambleDetector,
    detection_buffer: VecDeque<(bool, usize)>,
    state: TelemetryDecoderState,
}

impl View for TelemetryDecoder {
    type V = DecoderState;

    closed spec fn view(&self) -> DecoderState {
        DecoderState {
            detector: self.detector@,
            buffer: self.detection_buffer@,
            decoding: match self.state {
                TelemetryDecoderState::LookingForPreamble => None,
                TelemetryDecoderState::DecodingSubframes { is_inverse_sense } => Some(is_inverse_sense),
            },
        }
    }
}

/// The state of a decoder that has received nothing yet.
pub open spec fn initial_decoder_state() -> DecoderState {
    DecoderState { detector: preamble_detector::initial_state(), buffer: Seq::empty(), decoding: None }
}

/// The number of leading bits dropped when a preamble is found at `loc`.
pub open spec fn dropped(loc: usize, len: nat) -> int {
    if loc < len { loc as int } else { len as int }
}

/// What `apply` does with one `bit` in state `s`: the next state and the result it returns,
/// where the result is described by `result_ok` below.
pub open spec fn next_state(s: DecoderState, bit: (bool, usize)) -> DecoderState {
    let buf = s.buffer.push(bit);
    match s.decoding {
        None => {
            let det = step(s.detector, bit.0);
            match (det.preamble_location, det.inverse_sense) {
                (Some(loc), Some(inv)) => DecoderState { detector: det, buffer: buf.skip(dropped(loc, buf.len())), decoding: Some(inv) },
                _ => DecoderState { detector: det, buffer: buf, decoding: None },
            }
        },
        Some(inv) => {
            if buf.len() >= 300 {
                DecoderState { detector: s.detector, buffer: buf.skip(300), decoding: Some(inv) }
            } else {
                DecoderState { detector: s.detector, buffer: buf, decoding: Some(inv) }
            }
        },
    }
}

/// The result that `apply` returns for one `bit` in state `s`: nothing until a preamble has
/// been found and 300 bits are buffered; then the decoded subframe, its 240 data bits and the
/// sample index of its first bit; or, when a parity check fails, the parity error, and when
/// the subframe does not decode, the error that decoding gives.
pub open spec fn result_ok(s: DecoderState, bit: (bool, usize), r: TelemetryDecoderResult) -> bool {
    let buf = s.buffer.push(bit);
    match s.decoding {
        None => r is NotReady,
        Some(inv) => {
            if buf.len() >= 300 {
                let sub = subframe_bits(buf, inv);
                let data = recovered(sub);
                match r {
                    TelemetryDecoderResult::NotReady => false,
                    TelemetryDecoderResult::Decoded(sf, d, idx) =>
                        words_ok(sub) && sfm::is_valid(data) && d@ == data && idx == buf[0].1
                            && l1_ca_subframe::decodes_to(data, idx, sf),
                    TelemetryDecoderResult::Invalid(e) =>
                        if !words_ok(sub) {
                            e == DigSigProcErr::InvalidTelemetryData("Bad parity check")
                        } else {
                            !sfm::is_valid(data) && e == sfm::decode_error(data)
                        },
                }
            } else {
                r is NotReady
            }
        },
    }
}

/// The state after `bits` are received in order, starting from `s`.
pub open spec fn decoder_run(s: DecoderState, bits: Seq<(bool, usize)>) -> DecoderState
    decreases bits.len(),
{
    if bits.len() == 0 {
        s
    } else {
        next_state(decoder_run(s, bits.drop_last()), bits.last())
    }
}

proof fn lemma_run_buffer_len(bits: Seq<(bool, usize)>)
    ensures
        decoder_run(initial_decoder_state(), bits).buffer.len() <= bits.len(),
    decreases bits.len(),
{
    if bits.len() > 0 {
        lemma_run_buffer_len(bits.drop_last());
    }
}

/// The received bits of a stream of (bit, sample index) pairs.
pub open spec fn received_bits(bits: Seq<(bool, usize)>) -> Seq<bool> {
    bits.map_values(|x: (bool, usize)| x.0)
}

proof fn lemma_steps_shape(xs: Seq<bool>)
    ensures
        steps(preamble_detector::initial_state(), xs).current_bit == xs.len(),
        steps(preamble_detector::initial_state(), xs).buffer
            == (if xs.len() <= 30 { xs } else { xs.skip(xs.len() - 30) }),
    decreases xs.len(),
{
    if xs.len() > 0 {
        lemma_steps_shape(xs.drop_last());
        let p = xs.drop_last();
        let prev = if p.len() <= 30 { p } else { p.skip(p.len() - 30) };
        if xs.len() <= 30 {
            assert(prev.push(xs.last()) =~= xs);
        } else {
            assert(prev.push(xs.last()).len() > 30);
            assert(prev.push(xs.last()).drop_first() =~= xs.skip(xs.len() - 30));
        }
    } else {
        assert(xs =~= Seq::<bool>::empty());
    }
}

/// While a fresh decoder looks for the preamble, it keeps every bit received and its detector
/// has seen exactly those bits and found nothing.
proof fn lemma_run_looking(bits: Seq<(bool, usize)>)
    ensures
        decoder_run(initial_decoder_state(), bits).decoding is None ==> {
            let s = decoder_run(initial_decoder_state(), bits);
            &&& s.buffer == bits
            &&& s.detector == steps(preamble_detector::initial_state(), received_bits(bits))
            &&& s.detector.preamble_location is None
            &&& s.detector.inverse_sense is None
        },
    decreases bits.len(),
{
    if bits.len() == 0 {
        assert(received_bits(bits) =~= Seq::<bool>::empty());
    } else {
        let prev = bits.drop_last();
        lemma_run_looking(prev);
        assert(received_bits(bits).drop_last() =~= received_bits(prev));
        assert(received_bits(bits).last() == bits.last().0);
        assert(prev.push(bits.last()) =~= bits);
        law_findings_consistent(preamble_detector::initial_state(), received_bits(bits));
    }
}

/// A fresh decoder locks onto the stream only at a word that begins with the preamble and
/// passes its parity check, and aligns its buffer to subframe boundaries: the word is the
/// last 30 bits received, and the buffer then begins a whole number of 300-bit subframes
/// before that word (at the word itself when fewer than 330 bits have come), so that every
/// 300 bits taken from it later start where a subframe starts.
pub proof fn law_decoder_locks_at_a_preamble(bits: Seq<(bool, usize)>, bit: (bool, usize))
    requires
        decoder_run(initial_decoder_state(), bits).decoding is None,
        next_state(decoder_run(initial_decoder_state(), bits), bit).decoding is Some,
    ensures
        ({
            let all = bits.push(bit);
            let n = all.len() as int;
            let word = received_bits(all).subrange(n - 30, n);
            let s2 = next_state(decoder_run(initial_decoder_state(), bits), bit);
            &&& n >= 30
            &&& (s2.decoding == Some(false) ==> word.take(8) == pos_pattern() && parity_ok(word, false, false))
            &&& (s2.decoding == Some(true) ==> word.take(8) == neg_pattern() && parity_ok(negate(word), false, false))
            &&& exists|k: int| #![trigger all.skip(k)]
                0 <= k <= n - 30 && (n - 30 - k) % 300 == 0 && s2.buffer == all.skip(k)
        }),
{
    let s = decoder_run(initial_decoder_state(), bits);
    lemma_run_looking(bits);
    let all = bits.push(bit);
    let xs = received_bits(all);
    assert(received_bits(bits).push(bit.0) =~= xs);
    lemma_steps_shape(xs);
    let det = step(s.detector, bit.0);
    assert(xs.drop_last() =~= received_bits(bits));
    assert(det == steps(preamble_detector::initial_state(), xs));
    law_detector_records_only_parity_checked_preambles(s.detector, bit.0);
    let n = all.len() as int;
    assert(det.buffer.len() == 30);
    assert(n >= 30);
    if n == 30 {
        assert(xs.skip(0) =~= xs);
    }
    assert(det.buffer == xs.skip(n - 30));
    assert(xs.skip(n - 30) =~= xs.subrange(n - 30, n));
    let loc = det.preamble_location->0;
    assert(det.current_bit == n);
    assert(loc == ((n - 30) % 300) as usize);
    assert((n - 30) % 300 <= n - 30) by (nonlinear_arith)
        requires n >= 30;
    assert((n - 30 - (n - 30) % 300) % 300 == 0) by (nonlinear_arith)
        requires n >= 30;
    assert(dropped(loc, all.len()) == loc);
    assert(all.skip(loc as int) == all.skip(loc as int));
}

/// A decoded subframe comes from the 300 bits at the front of the buffer once the new bit
/// is in, read in the polarity found: all ten words pass their parity checks, its data bits
/// are the ones those words carry, and it is stamped with the sample index at which its first
/// bit started; afterwards those 300 bits are gone from the buffer.
pub proof fn law_decoded_subframe_origin(s: DecoderState, bit: (bool, usize), r: TelemetryDecoderResult)
    requires
        result_ok(s, bit, r),
        r is Decoded,
    ensures
        ({
            let buf = s.buffer.push(bit);
            &&& s.decoding is Some
            &&& buf.len() >= 300
            &&& r matches TelemetryDecoderResult::Decoded(sf, d, idx) && {
                let sub = subframe_bits(buf, s.decoding->0);
                &&& words_ok(sub)
                &&& recovers_to(sub, d@)
                &&& idx == buf[0].1
                &&& l1_ca_subframe::decodes_to(d@, idx, sf)
            }
            &&& next_state(s, bit).buffer == buf.skip(300)
        }),
{
    let buf = s.buffer.push(bit);
    let sub = subframe_bits(buf, s.decoding->0);
    lemma_recovered_recovers(sub);
}

proof fn lemma_recovered_recovers(sub: Seq<bool>)
    ensures
        recovers_to(sub, recovered(sub)),
{
    assert forall|w: int, b: int| 0 <= w < 10 && 0 <= b < 24 implies
        #[trigger] recovered(sub)[24 * w + b] == (sub[30 * w + b] ^ (w > 0 && sub[30 * w - 1])) by {
        assert((24 * w + b) / 24 == w) by (nonlinear_arith) requires 0 <= b < 24;
        assert((24 * w + b) % 24 == b) by (nonlinear_arith) requires 0 <= b < 24;
    }
}

/// A decoder made fresh answers `NotReady` to each of the first 299 bits it receives: no
/// subframe can be complete before 300 bits have arrived.
pub proof fn law_not_ready_before_subframe(bits: Seq<(bool, usize)>, bit: (bool, usize), r: TelemetryDecoderResult)
    requires
        bits.len() + 1 < 300,
        result_ok(decoder_run(initial_decoder_state(), bits), bit, r),
    ensures
        r is NotReady,
{
    lemma_run_buffer_len(bits);
}

impl TelemetryDecoder {
    /// The detector's invariant holds.
    pub closed spec fn wf(&self) -> bool {
        self.detector.wf()
    }

    pub fn new() -> (d: TelemetryDecoder)
        ensures
            d.wf(),
            d@ == initial_decoder_state(),
    {
        TelemetryDecoder {
            detector: preamble_detector::new_preamble_detector(),
            detection_buffer: VecDeque::new(),
            state: TelemetryDecoderState::LookingForPreamble,
        }
    }

    /// Whether `apply` can take another bit: while looking for a preamble, the detector's bit
    /// count must still have room to grow.
    pub fn accepts_bit(&self) -> (r: bool)
        ensures
            r == (self@.decoding is None ==> self@.detector.current_bit < usize::MAX),
    {
        match self.state {
            TelemetryDecoderState::LookingForPreamble => self.detector.bits_received() < usize::MAX,
            TelemetryDecoderState::DecodingSubframes { .. } => true,
        }
    }

    /// Forgets every bit received.
    pub fn initialize(&mut self)
        ensures
            final(self).wf(),
            final(self)@ == initial_decoder_state(),
    {
        self.detector.initialize();
        self.detection_buffer.clear();
        self.state = TelemetryDecoderState::LookingForPreamble;
    }

    /// Takes a bit and the index of the sample at which it started.  Returns `NotReady`
    /// until a preamble has been found and a whole subframe is buffered; then the decoded
    /// subframe with its data bits and the sample index where it starts, or an error when the
    /// subframe fails its parity checks or does not decode.
    pub fn apply(&mut self, bit: (bool, usize)) -> (r: TelemetryDecoderResult)
        requires
            old(self).wf(),
            old(self)@.decoding is None ==> old(self)@.detector.current_bit < usize::MAX,
        ensures
            final(self).wf(),
            final(self)@ == next_state(old(self)@, bit),
            result_ok(old(self)@, bit, r),
    {
        match self.state {
            TelemetryDecoderState::LookingForPreamble => {
                self.detector.apply(bit.0);
                self.detection_buffer.push_back(bit);
                let ghost buf = self.detection_buffer@;
                match (self.detector.get_result(), self.detector.is_inverse_sense()) {
                    (Ok(bit_locations), Ok(is_inverse_sense)) => {
                        // Preamble detected
                        self.state = TelemetryDecoderState::DecodingSubframes { is_inverse_sense };
                        let ghost det = self.detector;

                        // Drop bits to get to the start of the next subframe
                        let mut n: usize = 0;
                        while n < bit_locations
                            invariant
                                n <= bit_locations,
                                self.detector == det,
                                self.state == (TelemetryDecoderState::DecodingSubframes { is_inverse_sense }),
                                self.detection_buffer@ == buf.skip(if n < buf.len() { n as int } else { buf.len() as int }),
                            decreases bit_locations - n,
                        {
                            let _ = self.detection_buffer.pop_front();
                            n = n + 1;
                            assert(self.detection_buffer@ =~= buf.skip(if n < buf.len() { n as int } else { buf.len() as int }));
                        }
                        TelemetryDecoderResult::NotReady
                    },
                    (_, _) => {
                        // Preamble not yet detected, don't change state
                        TelemetryDecoderResult::NotReady
                    },
                }
            },
            TelemetryDecoderState::DecodingSubframes { is_inverse_sense } => {
                self.detection_buffer.push_back(bit);
                let ghost buf = self.detection_buffer@;
                let ghost det = self.detector;

                if self.detection_buffer.len() >= SUBFRAME_SIZE_W_PARITY_BITS {
                    let ghost sub = subframe_bits(buf, is_inverse_sense);
                    let mut next_subframe = [false; SUBFRAME_SIZE_W_PARITY_BITS];
                    match self.detection_buffer.pop_front() {
                        Some((b, first_idx)) => {
                            next_subframe[0] = b ^ is_inverse_sense;
                            let mut i: usize = 1;
                            while i < SUBFRAME_SIZE_W_PARITY_BITS
                                invariant
                                    1 <= i <= 300,
                                    self.detector == det,
                                    self.state == (TelemetryDecoderState::DecodingSubframes { is_inverse_sense }),
                                    buf.len() >= 300,
                                    sub == subframe_bits(buf, is_inverse_sense),
                                    self.detection_buffer@ == buf.skip(i as int),
                                    forall|j: int| 0 <= j < i ==> #[trigger] next_subframe@[j] == sub[j],
                                decreases 300 - i,
                            {
                                match self.detection_buffer.pop_front() {
                                    Some((b, _)) => { next_subframe[i] = b ^ is_inverse_sense; },
                                    None => {
                                        return TelemetryDecoderResult::Invalid(DigSigProcErr::InvalidTelemetryData("Not enough bits in detection_buffer"));
                                    },
                                }
                                i = i + 1;
                                assert(self.detection_buffer@ =~= buf.skip(i as int));
                            }
                            assert(next_subframe@ =~= sub);
                            match data_recover(next_subframe) {
                                Ok(bits) => {
                                    proof { lemma_recovers_to_unique(sub, bits@); }
                                    match l1_ca_subframe::decode(bits, first_idx) {
                                        Ok(sf) => TelemetryDecoderResult::Decoded(sf, bits, first_idx),
                                        Err(e) => TelemetryDecoderResult::Invalid(e),
                                    }
                                },
                                Err(e) => TelemetryDecoderResult::Invalid(e),
                            }
                        },
                        None => {
                            TelemetryDecoderResult::Invalid(DigSigProcErr::InvalidTelemetryData("Not enough bits in detection_buffer"))
                        },
                    }
                } else {
                    TelemetryDecoderResult::NotReady
                }
            },
        }
    }
}

} // verus!
