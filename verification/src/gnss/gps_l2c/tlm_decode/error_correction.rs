//! Decoding of the rate-1/2, constraint-length-7 convolutional code of CNAV messages.
//!
//! Every one of the 128 possible encoder states is a starting point; each received symbol
//! pair extends every surviving path by both possible data bits, and a path survives while
//! its count of mismatched symbols stays below `ERROR_THRES`.

use vstd::prelude::*;

verus! {

/// A path survives while fewer than this many of its symbols mismatch.
pub const ERROR_THRES: usize = 5;

/// The two code symbols (G1, G2) that the encoder emits in state `x`; both generators skip
/// bit 2 of the state.
pub open spec fn fec_symbols(x: u8) -> (bool, bool) {
    let bit6 = (x & 0x40u8) != 0u8;
    let bit5 = (x & 0x20u8) != 0u8;
    let bit4 = (x & 0x10u8) != 0u8;
    let bit3 = (x & 0x08u8) != 0u8;
    let bit1 = (x & 0x02u8) != 0u8;
    let bit0 = (x & 0x01u8) != 0u8;
    (bit6 ^ bit5 ^ bit4 ^ bit3 ^ bit0, bit6 ^ bit4 ^ bit3 ^ bit1 ^ bit0)
}

/// A decoding path: the current encoder state, the states it went through, and the number of
/// symbols that did not match.
pub struct Path {
    pub current_state: u8,
    pub prev_states: Seq<u8>,
    pub cumulative_error: nat,
}

/// The path extended by data bit `next_bit` when the symbols `expected` were received.
pub open spec fn extend(p: Path, next_bit: bool, expected: (bool, bool)) -> Path {
    let (g1, g2) = fec_symbols(p.current_state);
    Path {
        current_state: ((p.current_state / 2) + if next_bit { 64u8 } else { 0u8 }) as u8,
        prev_states: p.prev_states.push(p.current_state),
        cumulative_error: p.cumulative_error + (if g1 != expected.0 { 1nat } else { 0nat }) + (if g2 != expected.1 { 1nat } else { 0nat }),
    }
}

/// `p` as a sequence of zero or one path: kept only while its error is below the threshold.
pub open spec fn keep(p: Path) -> Seq<Path> {
    if p.cumulative_error < ERROR_THRES { seq![p] } else { Seq::empty() }
}

/// Every path of `ps` extended by a one bit and then by a zero bit, in order, keeping those
/// below the error threshold.
pub open spec fn expand(ps: Seq<Path>, expected: (bool, bool)) -> Seq<Path>
    decreases ps.len(),
{
    if ps.len() == 0 {
        Seq::empty()
    } else {
        expand(ps.drop_last(), expected) + keep(extend(ps.last(), true, expected)) + keep(extend(ps.last(), false, expected))
    }
}

/// The 128 paths that start in each encoder state.
pub open spec fn initial_paths() -> Seq<Path> {
    Seq::new(128, |i: int| Path { current_state: i as u8, prev_states: Seq::empty(), cumulative_error: 0 })
}

/// The paths that survive the first `n` symbol pairs of `symbols`.
pub open spec fn survivors(symbols: Seq<bool>, n: nat) -> Seq<Path>
    decreases n,
{
    if n == 0 {
        initial_paths()
    } else {
        expand(survivors(symbols, (n - 1) as nat), (symbols[2 * n - 2], symbols[2 * n - 1]))
    }
}

/// The index of the first path with the least error.
pub open spec fn first_min(ps: Seq<Path>) -> int
    decreases ps.len(),
{
    if ps.len() <= 1 {
        0
    } else {
        let j = first_min(ps.drop_last());
        if ps.last().cumulative_error < ps[j].cumulative_error { ps.len() - 1 } else { j }
    }
}

/// The decoded bits of a path: the low bit of each state it went through.
pub open spec fn path_bits(p: Path) -> Seq<bool> {
    p.prev_states.map_values(|s: u8| s % 2 == 1)
}

/// The result of decoding `symbols` (pairs of code symbols; a trailing odd symbol is
/// ignored): none when no path survives, else the bits of the first surviving path with the
/// least error.
pub open spec fn decoded(symbols: Seq<bool>) -> Option<Seq<bool>> {
    let ps = survivors(symbols, symbols.len() / 2);
    if ps.len() == 0 { None } else { Some(path_bits(ps[first_min(ps)])) }
}

struct History {
    current_state: u8,
    prev_states: Vec<u8>,
    cumulative_error: usize,
}

impl View for History {
    type V = Path;

    closed spec fn view(&self) -> Path {
        Path {
            current_state: self.current_state,
            prev_states: self.prev_states@,
            cumulative_error: self.cumulative_error as nat,
        }
    }
}

spec fn paths_of(hs: Seq<History>) -> Seq<Path> {
    hs.map_values(|h: History| h@)
}

fn cnav_fec(x: u8) -> (r: (bool, bool))
    ensures
        r == fec_symbols(x),
{
    let bit6: bool = (x & 0x40) != 0;
    let bit5: bool = (x & 0x20) != 0;
    let bit4: bool = (x & 0x10) != 0;
    let bit3: bool = (x & 0x08) != 0;

    // Both G1 and G2 skip bit2

    let bit1: bool = (x & 0x02) != 0;
    let bit0: bool = (x & 0x01) != 0;

    let g1: bool = bit6 ^ bit5 ^ bit4 ^ bit3 ^ bit0;
    let g2: bool = bit6 ^ bit4 ^ bit3 ^ bit1 ^ bit0;

    (g1, g2)
}

impl History {
    fn new(s0: u8) -> (h: Self)
        ensures
            h@ == (Path { current_state: s0, prev_states: Seq::empty(), cumulative_error: 0 }),
    {
        History { current_state: s0, prev_states: Vec::new(), cumulative_error: 0 }
    }

    fn transition(&self, next_bit: bool, expected_values: (bool, bool)) -> (h: Self)
        requires
            self.cumulative_error < ERROR_THRES,
        ensures
            h@ == extend(self@, next_bit, expected_values),
    {
        // Calculate error
        let mut cumulative_error = self.cumulative_error;
        let (g1, g2) = cnav_fec(self.current_state);
        let (g1_exp, g2_exp) = expected_values;
        if g1 != g1_exp {
            cumulative_error += 1;
        }
        if g2 != g2_exp {
            cumulative_error += 1;
        }

        // Update state
        let current_state: u8 = (self.current_state / 2) + if next_bit { 64 } else { 0 };

        // Update history
        let mut prev_states = self.prev_states.clone();
        assert(prev_states@ =~= self.prev_states@);
        prev_states.push(self.current_state);

        History { current_state, prev_states, cumulative_error }
    }
}

/// Decodes pairs of code symbols into data bits; `None` when no path stays below the error
/// threshold.
pub fn decode(symbols: Vec<bool>) -> (r: Option<Vec<bool>>)
    ensures
        match decoded(symbols@) {
            None => r is None,
            Some(bits) => r matches Some(v) && v@ == bits,
        },
{
    let mut best_solutions: Vec<History> = Vec::new();
    let mut i: u8 = 0;
    while i < 128
        invariant
            i <= 128,
            best_solutions@.len() == i,
            paths_of(best_solutions@) == initial_paths().take(i as int),
            forall|j: int| 0 <= j < best_solutions@.len() ==> #[trigger] best_solutions@[j].cumulative_error == 0,
        decreases 128 - i,
    {
        let h = History::new(i);
        let ghost before = best_solutions@;
        best_solutions.push(h);
        assert(best_solutions@ == before.push(h));
        i = i + 1;
        assert forall|j: int| 0 <= j < i implies #[trigger] paths_of(best_solutions@)[j] == initial_paths().take(i as int)[j] by {
            if j < i - 1 {
                assert(paths_of(before)[j] == initial_paths().take(i - 1)[j]);
            }
        }
        assert(paths_of(best_solutions@) =~= initial_paths().take(i as int));
    }
    assert(initial_paths().take(128) =~= initial_paths());

    let n_chunks = symbols.len() / 2;
    let mut k: usize = 0;
    while k < n_chunks
        invariant
            n_chunks == symbols@.len() / 2,
            k <= n_chunks,
            paths_of(best_solutions@) == survivors(symbols@, k as nat),
            best_solutions@.len() > 0,
            forall|j: int| 0 <= j < best_solutions@.len() ==> #[trigger] best_solutions@[j].cumulative_error < ERROR_THRES,
        decreases n_chunks - k,
    {
        assert(2 * k + 1 < symbols.len());
        let c0 = symbols[2 * k];
        let c1 = symbols[2 * k + 1];
        let mut new_solutions: Vec<History> = Vec::new();
        let mut j: usize = 0;
        while j < best_solutions.len()
            invariant
                j <= best_solutions@.len(),
                forall|m: int| 0 <= m < best_solutions@.len() ==> #[trigger] best_solutions@[m].cumulative_error < ERROR_THRES,
                paths_of(new_solutions@) == expand(paths_of(best_solutions@).take(j as int), (c0, c1)),
                forall|m: int| 0 <= m < new_solutions@.len() ==> #[trigger] new_solutions@[m].cumulative_error < ERROR_THRES,
            decreases best_solutions@.len() - j,
        {
            let h = &best_solutions[j];
            let if_true = h.transition(true, (c0, c1));
            let if_false = h.transition(false, (c0, c1));
            let ghost before = paths_of(new_solutions@);

            if if_true.cumulative_error < ERROR_THRES {
                new_solutions.push(if_true);
            }
            if if_false.cumulative_error < ERROR_THRES {
                new_solutions.push(if_false);
            }
            proof {
                let ps = paths_of(best_solutions@);
                assert(ps.take(j + 1).drop_last() =~= ps.take(j as int));
                assert(ps.take(j + 1).last() == best_solutions@[j as int]@);
                assert(paths_of(new_solutions@) =~= before + keep(extend(best_solutions@[j as int]@, true, (c0, c1)))
                    + keep(extend(best_solutions@[j as int]@, false, (c0, c1))));
            }
            j = j + 1;
        }
        assert(paths_of(best_solutions@).take(best_solutions@.len() as int) =~= paths_of(best_solutions@));

        if new_solutions.len() == 0 {
            proof { lemma_survivors_stay_empty(symbols@, (k + 1) as nat, n_chunks as nat); }
            return None;
        }

        best_solutions = new_solutions;
        k = k + 1;
    }

    // The first history with the least error
    let mut best_idx: usize = 0;
    let mut m: usize = 1;
    proof { reveal_with_fuel(first_min, 2); }
    while m < best_solutions.len()
        invariant
            1 <= m <= best_solutions@.len(),
            best_idx < m,
            best_idx == first_min(paths_of(best_solutions@).take(m as int)),
        decreases best_solutions@.len() - m,
    {
        let ghost ps = paths_of(best_solutions@);
        assert(ps.take(m + 1).drop_last() =~= ps.take(m as int));
        if best_solutions[m].cumulative_error < best_solutions[best_idx].cumulative_error {
            best_idx = m;
        }
        m = m + 1;
    }
    assert(paths_of(best_solutions@).take(best_solutions@.len() as int) =~= paths_of(best_solutions@));

    let best = &best_solutions[best_idx];
    let mut bits: Vec<bool> = Vec::new();
    let mut t: usize = 0;
    while t < best.prev_states.len()
        invariant
            t <= best.prev_states@.len(),
            bits@ == path_bits(best@).take(t as int),
        decreases best.prev_states@.len() - t,
    {
        bits.push(best.prev_states[t] % 2 == 1);
        t = t + 1;
        assert(bits@ =~= path_bits(best@).take(t as int));
    }
    assert(path_bits(best@).take(t as int) =~= path_bits(best@));
    Some(bits)
}

proof fn lemma_expand_empty(expected: (bool, bool))
    ensures
        expand(Seq::<Path>::empty(), expected) == Seq::<Path>::empty(),
{
}

/// Once no path survives, none survives any later symbol pair.
proof fn lemma_survivors_stay_empty(symbols: Seq<bool>, k: nat, n: nat)
    requires
        k <= n,
        survivors(symbols, k).len() == 0,
    ensures
        survivors(symbols, n).len() == 0,
    decreases n - k,
{
    if k < n {
        let e = (symbols[2 * (k + 1) - 2], symbols[2 * (k + 1) - 1]);
        assert(survivors(symbols, k) =~= Seq::<Path>::empty());
        lemma_expand_empty(e);
        lemma_survivors_stay_empty(symbols, k + 1, n);
    }
}

/// The encoder state after the first `k` of `bits`, starting in state `s0`: each data bit
/// enters at bit 6 as the state shifts down by one.
pub open spec fn encoder_state(s0: u8, bits: Seq<bool>, k: nat) -> u8
    decreases k,
{
    if k == 0 {
        s0
    } else {
        let s = encoder_state(s0, bits, (k - 1) as nat);
        ((s / 2) + if bits[k - 1] { 64u8 } else { 0u8 }) as u8
    }
}

/// The code symbols that the encoder emits for `bits` from state `s0`: the two symbols of
/// the state before each bit.
pub open spec fn encode(s0: u8, bits: Seq<bool>) -> Seq<bool> {
    Seq::new(2 * bits.len(), |i: int|
        if i % 2 == 0 { fec_symbols(encoder_state(s0, bits, (i / 2) as nat)).0 } else { fec_symbols(encoder_state(s0, bits, (i / 2) as nat)).1 })
}

/// Extending any path of `ps` by either bit, when it stays below the threshold, gives a path
/// of `expand(ps, e)`.
proof fn lemma_expand_contains(ps: Seq<Path>, e: (bool, bool), i: int, b: bool)
    requires
        0 <= i < ps.len(),
        extend(ps[i], b, e).cumulative_error < ERROR_THRES,
    ensures
        expand(ps, e).contains(extend(ps[i], b, e)),
    decreases ps.len(),
{
    let x = extend(ps[i], b, e);
    let front = expand(ps.drop_last(), e);
    let t = keep(extend(ps.last(), true, e));
    let f = keep(extend(ps.last(), false, e));
    assert(expand(ps, e) == front + t + f);
    if i == ps.len() - 1 {
        if b {
            assert((front + t + f)[front.len() as int] == x);
        } else {
            assert((front + t + f)[(front.len() + t.len()) as int] == x);
        }
    } else {
        assert(ps.drop_last()[i] == ps[i]);
        lemma_expand_contains(ps.drop_last(), e, i, b);
        let j = choose|j: int| 0 <= j < front.len() && front[j] == x;
        assert((front + t + f)[j] == x);
    }
}

/// Every path of `expand(ps, e)` stays below the error threshold.
proof fn lemma_expand_below_threshold(ps: Seq<Path>, e: (bool, bool))
    ensures
        forall|j: int| 0 <= j < expand(ps, e).len() ==> #[trigger] expand(ps, e)[j].cumulative_error < ERROR_THRES,
    decreases ps.len(),
{
    if ps.len() > 0 {
        lemma_expand_below_threshold(ps.drop_last(), e);
        let front = expand(ps.drop_last(), e);
        let t = keep(extend(ps.last(), true, e));
        let f = keep(extend(ps.last(), false, e));
        assert forall|j: int| 0 <= j < expand(ps, e).len() implies #[trigger] expand(ps, e)[j].cumulative_error < ERROR_THRES by {
            if j < front.len() {
                assert((front + t + f)[j] == front[j]);
            } else if j < front.len() + t.len() {
                assert((front + t + f)[j] == t[j - front.len()]);
            } else {
                assert((front + t + f)[j] == f[j - front.len() - t.len()]);
            }
        }
    }
}

/// The first path with the least error has no more error than any path, and strictly less
/// than every path before it.
pub proof fn lemma_first_min(ps: Seq<Path>)
    requires
        ps.len() > 0,
    ensures
        0 <= first_min(ps) < ps.len(),
        forall|j: int| 0 <= j < ps.len() ==> ps[first_min(ps)].cumulative_error <= #[trigger] ps[j].cumulative_error,
        forall|j: int| 0 <= j < first_min(ps) ==> ps[first_min(ps)].cumulative_error < #[trigger] ps[j].cumulative_error,
    decreases ps.len(),
{
    if ps.len() > 1 {
        let front = ps.drop_last();
        lemma_first_min(front);
        let m = first_min(front);
        assert forall|j: int| 0 <= j < ps.len() implies ps[first_min(ps)].cumulative_error <= #[trigger] ps[j].cumulative_error by {
            if j < ps.len() - 1 {
                assert(front[j] == ps[j]);
            }
        }
        assert forall|j: int| 0 <= j < first_min(ps) implies ps[first_min(ps)].cumulative_error < #[trigger] ps[j].cumulative_error by {
            assert(front[j] == ps[j]);
            assert(front[m] == ps[m]);
        }
    }
}

/// Decoding the symbols that the encoder emits for any data bits from any start state, with
/// no symbol in error, succeeds, and the path it returns explains every symbol.
pub proof fn law_error_free_symbols_decode(s0: u8, bits: Seq<bool>)
    requires
        s0 < 128,
    ensures
        decoded(encode(s0, bits)) is Some,
        ({
            let ps = survivors(encode(s0, bits), bits.len());
            ps[first_min(ps)].cumulative_error == 0
        }),
{
    let sym = encode(s0, bits);
    assert(sym.len() / 2 == bits.len());
    lemma_mismatches_self(sym, 2 * bits.len());
    lemma_tracked_survives(s0, bits, sym, bits.len());
    let ps = survivors(sym, bits.len());
    let i = choose|i: int| 0 <= i < ps.len() && ps[i] == tracked_path(s0, bits, sym, bits.len());
    lemma_first_min(ps);
    assert(ps[first_min(ps)].cumulative_error <= ps[i].cumulative_error);
}

proof fn lemma_mismatches_self(a: Seq<bool>, n: nat)
    ensures
        mismatches(a, a, n) == 0,
    decreases n,
{
    if n > 0 {
        lemma_mismatches_self(a, (n - 1) as nat);
    }
}

/// Decoding returns the first surviving path with the least error: no surviving path has
/// less error, and every surviving path before it has more.
pub proof fn law_decoded_path_has_least_error(symbols: Seq<bool>)
    requires
        decoded(symbols) is Some,
    ensures
        ({
            let ps = survivors(symbols, symbols.len() / 2);
            let i = first_min(ps);
            &&& 0 <= i < ps.len()
            &&& decoded(symbols) == Some(path_bits(ps[i]))
            &&& ps[i].cumulative_error < ERROR_THRES
            &&& forall|j: int| 0 <= j < ps.len() ==> ps[i].cumulative_error <= #[trigger] ps[j].cumulative_error
            &&& forall|j: int| 0 <= j < i ==> ps[i].cumulative_error < #[trigger] ps[j].cumulative_error
        }),
{
    let n = symbols.len() / 2;
    let ps = survivors(symbols, n);
    lemma_first_min(ps);
    if n > 0 {
        lemma_expand_below_threshold(survivors(symbols, (n - 1) as nat), (symbols[2 * n - 2], symbols[2 * n - 1]));
    }
}


/// The number of positions below `n` at which `a` and `b` differ.
pub open spec fn mismatches(a: Seq<bool>, b: Seq<bool>, n: nat) -> nat
    decreases n,
{
    if n == 0 {
        0
    } else {
        mismatches(a, b, (n - 1) as nat) + (if a[n - 1] != b[n - 1] { 1nat } else { 0nat })
    }
}

/// The low bit of each encoder state before each of `bits`, from state `s0`: what decoding
/// returns for the path that follows the encoder.
pub open spec fn state_low_bits(s0: u8, bits: Seq<bool>) -> Seq<bool> {
    Seq::new(bits.len(), |j: int| encoder_state(s0, bits, j as nat) % 2 == 1)
}

/// The decoding path that follows the encoder from `s0` through the first `k` of `bits`,
/// with the count of received symbols `sym` that differ from what the encoder emits.
pub open spec fn tracked_path(s0: u8, bits: Seq<bool>, sym: Seq<bool>, k: nat) -> Path {
    Path {
        current_state: encoder_state(s0, bits, k),
        prev_states: Seq::new(k, |j: int| encoder_state(s0, bits, j as nat)),
        cumulative_error: mismatches(sym, encode(s0, bits), 2 * k),
    }
}

proof fn lemma_mismatches_prefix(a1: Seq<bool>, b1: Seq<bool>, a2: Seq<bool>, b2: Seq<bool>, n: nat)
    requires
        forall|i: int| 0 <= i < n ==> a1[i] == a2[i] && b1[i] == b2[i],
    ensures
        mismatches(a1, b1, n) == mismatches(a2, b2, n),
    decreases n,
{
    if n > 0 {
        lemma_mismatches_prefix(a1, b1, a2, b2, (n - 1) as nat);
    }
}

proof fn lemma_mismatches_monotone(a: Seq<bool>, b: Seq<bool>, m: nat, n: nat)
    requires
        m <= n,
    ensures
        mismatches(a, b, m) <= mismatches(a, b, n),
    decreases n,
{
    if m < n {
        lemma_mismatches_monotone(a, b, m, (n - 1) as nat);
    }
}

proof fn lemma_state_prefix(s0: u8, bits: Seq<bool>, b: bool, j: nat)
    requires
        j <= bits.len(),
    ensures
        encoder_state(s0, bits.push(b), j) == encoder_state(s0, bits, j),
    decreases j,
{
    if j > 0 {
        lemma_state_prefix(s0, bits, b, (j - 1) as nat);
    }
}

/// Following the encoder through one more bit is extending its path by that bit.
proof fn lemma_tracked_extend(s0: u8, bits: Seq<bool>, sym: Seq<bool>, k: nat)
    requires
        0 < k <= bits.len(),
    ensures
        extend(tracked_path(s0, bits, sym, (k - 1) as nat), bits[k - 1], (sym[2 * k - 2], sym[2 * k - 1]))
            == tracked_path(s0, bits, sym, k),
{
    let km = (k - 1) as nat;
    let enc = encode(s0, bits);
    let p = tracked_path(s0, bits, sym, km);
    let x = extend(p, bits[k - 1], (sym[2 * k - 2], sym[2 * k - 1]));
    assert(x.prev_states =~= tracked_path(s0, bits, sym, k).prev_states);
    assert((2 * k - 2) / 2 == km && (2 * k - 1) / 2 == km);
    assert((2 * k - 2) % 2 == 0 && (2 * k - 1) % 2 == 1);
    assert(enc[2 * k - 2] == fec_symbols(encoder_state(s0, bits, km)).0);
    assert(enc[2 * k - 1] == fec_symbols(encoder_state(s0, bits, km)).1);
    assert(mismatches(sym, enc, (2 * k) as nat) == mismatches(sym, enc, (2 * k - 1) as nat) + (if sym[2 * k - 1] != enc[2 * k - 1] { 1nat } else { 0nat }));
    assert(mismatches(sym, enc, (2 * k - 1) as nat) == mismatches(sym, enc, (2 * k - 2) as nat) + (if sym[2 * k - 2] != enc[2 * k - 2] { 1nat } else { 0nat }));
}

/// Appending a bit changes nothing of the path through the bits before it.
proof fn lemma_tracked_prefix(s0: u8, bits: Seq<bool>, b: bool, sym: Seq<bool>, k: nat)
    requires
        k <= bits.len(),
    ensures
        tracked_path(s0, bits.push(b), sym, k) == tracked_path(s0, bits, sym, k),
{
    lemma_state_prefix(s0, bits, b, k);
    assert forall|j: int| 0 <= j < k implies #[trigger] encoder_state(s0, bits.push(b), j as nat) == encoder_state(s0, bits, j as nat) by {
        lemma_state_prefix(s0, bits, b, j as nat);
    }
    assert(tracked_path(s0, bits.push(b), sym, k).prev_states =~= tracked_path(s0, bits, sym, k).prev_states);
    assert forall|i: int| 0 <= i < 2 * k implies #[trigger] encode(s0, bits.push(b))[i] == encode(s0, bits)[i] by {
        lemma_state_prefix(s0, bits, b, (i / 2) as nat);
    }
    lemma_mismatches_prefix(sym, encode(s0, bits.push(b)), sym, encode(s0, bits), 2 * k);
}

/// Every path of `expand(ps, e)` extends some path of `ps` by one bit.
proof fn lemma_expand_members(ps: Seq<Path>, e: (bool, bool), j: int)
    requires
        0 <= j < expand(ps, e).len(),
    ensures
        exists|i: int, b: bool| 0 <= i < ps.len() && expand(ps, e)[j] == #[trigger] extend(ps[i], b, e),
    decreases ps.len(),
{
    let front = expand(ps.drop_last(), e);
    let t = keep(extend(ps.last(), true, e));
    let f = keep(extend(ps.last(), false, e));
    assert(expand(ps, e) == front + t + f);
    let i = ps.len() - 1;
    if j < front.len() {
        assert((front + t + f)[j] == front[j]);
        lemma_expand_members(ps.drop_last(), e, j);
        let (i0, b0) = choose|i: int, b: bool| 0 <= i < ps.drop_last().len() && front[j] == #[trigger] extend(ps.drop_last()[i], b, e);
        assert(ps.drop_last()[i0] == ps[i0]);
        assert(expand(ps, e)[j] == extend(ps[i0], b0, e));
    } else if j < front.len() + t.len() {
        assert((front + t + f)[j] == t[j - front.len()]);
        assert(expand(ps, e)[j] == extend(ps[i], true, e));
    } else {
        assert((front + t + f)[j] == f[j - front.len() - t.len()]);
        assert(expand(ps, e)[j] == extend(ps[i], false, e));
    }
}

/// Every surviving path follows the encoder from some start state through some data bits,
/// its error being the number of received symbols that differ from what the encoder emits.
proof fn lemma_survivors_are_tracked(sym: Seq<bool>, k: nat, j: int)
    requires
        0 <= j < survivors(sym, k).len(),
    ensures
        exists|s0: u8, bits: Seq<bool>| s0 < 128 && bits.len() == k && survivors(sym, k)[j] == #[trigger] tracked_path(s0, bits, sym, k),
    decreases k,
{
    if k == 0 {
        let s0 = j as u8;
        let bits = Seq::<bool>::empty();
        assert(tracked_path(s0, bits, sym, 0).prev_states =~= Seq::<u8>::empty());
        assert(survivors(sym, 0)[j] == tracked_path(s0, bits, sym, 0));
    } else {
        let km = (k - 1) as nat;
        let ps = survivors(sym, km);
        let e = (sym[2 * k - 2], sym[2 * k - 1]);
        lemma_expand_members(ps, e, j);
        let (i, b) = choose|i: int, b: bool| 0 <= i < ps.len() && expand(ps, e)[j] == #[trigger] extend(ps[i], b, e);
        lemma_survivors_are_tracked(sym, km, i);
        let (s0, bits) = choose|s0: u8, bits: Seq<bool>| s0 < 128 && bits.len() == km && ps[i] == #[trigger] tracked_path(s0, bits, sym, km);
        let bits2 = bits.push(b);
        lemma_tracked_prefix(s0, bits, b, sym, km);
        lemma_tracked_extend(s0, bits2, sym, k);
        assert(bits2[k - 1] == b);
        assert(survivors(sym, k)[j] == tracked_path(s0, bits2, sym, k));
    }
}

/// The path that follows the encoder survives as long as fewer than `ERROR_THRES` of the
/// received symbols differ from what the encoder emits.
proof fn lemma_tracked_survives(s0: u8, bits: Seq<bool>, sym: Seq<bool>, k: nat)
    requires
        s0 < 128,
        k <= bits.len(),
        mismatches(sym, encode(s0, bits), 2 * k) < ERROR_THRES,
    ensures
        survivors(sym, k).contains(tracked_path(s0, bits, sym, k)),
    decreases k,
{
    if k == 0 {
        assert(tracked_path(s0, bits, sym, 0).prev_states =~= Seq::<u8>::empty());
        assert(initial_paths()[s0 as int] == tracked_path(s0, bits, sym, 0));
    } else {
        let km = (k - 1) as nat;
        lemma_mismatches_monotone(sym, encode(s0, bits), 2 * km, 2 * k);
        lemma_tracked_survives(s0, bits, sym, km);
        let ps = survivors(sym, km);
        let i = choose|i: int| 0 <= i < ps.len() && ps[i] == tracked_path(s0, bits, sym, km);
        lemma_tracked_extend(s0, bits, sym, k);
        lemma_expand_contains(ps, (sym[2 * k - 2], sym[2 * k - 1]), i, bits[k - 1]);
    }
}

/// Decoding finds the closest encoding. When it returns bits, they are the state bits of an
/// encoding (a start state and data bits) that differs from the received symbols in fewer
/// than `ERROR_THRES` places and in no more places than any other encoding of as many bits;
/// it returns nothing exactly when every encoding differs in at least `ERROR_THRES` places.
pub proof fn law_decoded_is_closest_encoding(symbols: Seq<bool>)
    ensures
        decoded(symbols) matches Some(out) ==> exists|s0: u8, bits: Seq<bool>|
            #![trigger state_low_bits(s0, bits)]
            s0 < 128 && bits.len() == symbols.len() / 2 && out == state_low_bits(s0, bits)
            && mismatches(symbols, encode(s0, bits), 2 * (symbols.len() / 2)) < ERROR_THRES
            && forall|s1: u8, bits1: Seq<bool>| s1 < 128 && bits1.len() == symbols.len() / 2 ==>
                mismatches(symbols, encode(s0, bits), 2 * (symbols.len() / 2))
                    <= #[trigger] mismatches(symbols, encode(s1, bits1), 2 * (symbols.len() / 2)),
        decoded(symbols) is None <==> forall|s1: u8, bits1: Seq<bool>| s1 < 128 && bits1.len() == symbols.len() / 2 ==>
            #[trigger] mismatches(symbols, encode(s1, bits1), 2 * (symbols.len() / 2)) >= ERROR_THRES,
{
    let n = symbols.len() / 2;
    let ps = survivors(symbols, n);
    if ps.len() == 0 {
        assert forall|s1: u8, bits1: Seq<bool>| s1 < 128 && bits1.len() == n implies
            #[trigger] mismatches(symbols, encode(s1, bits1), 2 * n) >= ERROR_THRES by {
            if mismatches(symbols, encode(s1, bits1), 2 * n) < ERROR_THRES {
                lemma_tracked_survives(s1, bits1, symbols, n);
            }
        }
    } else {
        lemma_first_min(ps);
        let m = first_min(ps);
        if n > 0 {
            lemma_expand_below_threshold(survivors(symbols, (n - 1) as nat), (symbols[2 * n - 2], symbols[2 * n - 1]));
        }
        assert(ps[m].cumulative_error < ERROR_THRES);
        lemma_survivors_are_tracked(symbols, n, m);
        let (s0, bits) = choose|s0: u8, bits: Seq<bool>| s0 < 128 && bits.len() == n && ps[m] == #[trigger] tracked_path(s0, bits, symbols, n);
        assert(path_bits(ps[m]) =~= state_low_bits(s0, bits));
        assert forall|s1: u8, bits1: Seq<bool>| s1 < 128 && bits1.len() == n implies
            mismatches(symbols, encode(s0, bits), 2 * n) <= #[trigger] mismatches(symbols, encode(s1, bits1), 2 * n) by {
            if mismatches(symbols, encode(s1, bits1), 2 * n) < ERROR_THRES {
                lemma_tracked_survives(s1, bits1, symbols, n);
                let j = choose|j: int| 0 <= j < ps.len() && ps[j] == tracked_path(s1, bits1, symbols, n);
                assert(ps[m].cumulative_error <= ps[j].cumulative_error);
            }
        }
        assert(!(forall|s1: u8, bits1: Seq<bool>| s1 < 128 && bits1.len() == n ==>
            #[trigger] mismatches(symbols, encode(s1, bits1), 2 * n) >= ERROR_THRES));
        assert(state_low_bits(s0, bits) == state_low_bits(s0, bits));
    }
}

/// Symbols within four errors of an encoding always decode: when the received symbols differ
/// in fewer than `ERROR_THRES` places from what the encoder emits for some data bits from
/// some start state, decoding returns bits, and they belong to an encoding that differs from
/// the received symbols in no more places.
pub proof fn law_few_symbol_errors_decode(s0: u8, bits: Seq<bool>, symbols: Seq<bool>)
    requires
        s0 < 128,
        symbols.len() / 2 == bits.len(),
        mismatches(symbols, encode(s0, bits), 2 * bits.len()) < ERROR_THRES,
    ensures
        decoded(symbols) is Some,
        exists|s1: u8, bits1: Seq<bool>|
            #![trigger state_low_bits(s1, bits1)]
            s1 < 128 && bits1.len() == bits.len() && decoded(symbols) == Some(state_low_bits(s1, bits1))
            && mismatches(symbols, encode(s1, bits1), 2 * bits.len()) <= mismatches(symbols, encode(s0, bits), 2 * bits.len()),
{
    law_decoded_is_closest_encoding(symbols);
    assert(mismatches(symbols, encode(s0, bits), 2 * (symbols.len() / 2)) < ERROR_THRES);
}

} // verus!
