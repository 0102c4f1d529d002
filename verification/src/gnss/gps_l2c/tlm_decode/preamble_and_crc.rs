//! Framing of GPS L2C (CNAV) messages: a 300-bit window that starts with the preamble
//! 10001011 (in either polarity) and whose CRC checks is one message.

use vstd::prelude::*;
use super::error_detection::{self, crc_ok};

verus! {

/// The preamble as transmitted.
pub open spec fn pos_preamble() -> Seq<bool> {
    seq![true, false, false, false, true, false, true, true]
}

/// The preamble as received on the inverted carrier.
pub open spec fn neg_preamble() -> Seq<bool> {
    seq![false, true, true, true, false, true, false, false]
}

/// The CNAV preamble is 10001011 (IS-GPS-200, message bits 1-8), and a signal received on
/// the inverted carrier shows its complement 01110100.
pub proof fn law_cnav_preamble_is_10001011()
    ensures
        pos_preamble() == seq![true, false, false, false, true, false, true, true],
        neg_preamble() == seq![false, true, true, true, false, true, false, false],
{
}

/// Every bit of `s` complemented.
pub open spec fn negate(s: Seq<bool>) -> Seq<bool> {
    Seq::new(s.len(), |i: int| !s[i])
}

/// The abstract state of the framer: the bits buffered and, once a message has been found,
/// the polarity of the signal (`None` while searching).
pub struct FramerState {
    pub buffer: Seq<bool>,
    pub locked: Option<bool>,
}

/// The framer state after bit `b`, and the 276-bit message (CRC removed) it returns, if any.
pub open spec fn framer_step(s: FramerState, b: bool) -> (FramerState, Option<Seq<bool>>) {
    match s.locked {
        None => {
            let pushed = s.buffer.push(b);
            let buf = if pushed.len() > 300 { pushed.drop_first() } else { pushed };
            if buf.len() == 300 {
                if buf.take(8) == pos_preamble() && crc_ok(buf) {
                    (FramerState { buffer: Seq::empty(), locked: Some(false) }, Some(buf.take(276)))
                } else if buf.take(8) == neg_preamble() {
                    let inv = negate(buf);
                    if crc_ok(inv) {
                        (FramerState { buffer: Seq::empty(), locked: Some(true) }, Some(inv.take(276)))
                    } else {
                        (FramerState { buffer: Seq::empty(), locked: None }, None)
                    }
                } else {
                    (FramerState { buffer: buf, locked: None }, None)
                }
            } else {
                (FramerState { buffer: buf, locked: None }, None)
            }
        },
        Some(inv) => {
            let buf = s.buffer.push(b ^ inv);
            if buf.len() == 300 {
                if crc_ok(buf) {
                    (FramerState { buffer: Seq::empty(), locked: Some(inv) }, Some(buf.take(276)))
                } else {
                    (FramerState { buffer: buf, locked: None }, None)
                }
            } else {
                (FramerState { buffer: buf, locked: Some(inv) }, None)
            }
        },
    }
}

/// The framer only ever returns messages whose CRC checks: a message returned is the first
/// 276 bits of a 300-bit window, in the polarity the framer then locks to, that ends with the
/// new bit and passes the CRC check; the framer then starts the next window afresh.  While
/// searching, the window also begins with the preamble.
pub proof fn law_framer_returns_only_crc_checked_messages(s: FramerState, b: bool)
    ensures
        framer_step(s, b).1 matches Some(v) ==> {
            let s2 = framer_step(s, b).0;
            &&& s2.buffer.len() == 0
            &&& s2.locked is Some
            &&& exists|w: Seq<bool>| #![trigger crc_ok(w)]
                w.len() == 300 && crc_ok(w) && v == w.take(276) && w.last() == (b ^ s2.locked->0)
                && (s.locked is None ==> w.take(8) == pos_preamble())
        },
{
    match s.locked {
        None => {
            let pushed = s.buffer.push(b);
            let buf = if pushed.len() > 300 { pushed.drop_first() } else { pushed };
            assert(buf.last() == b);
            if buf.len() == 300 && !(buf.take(8) == pos_preamble() && crc_ok(buf)) && buf.take(8) == neg_preamble() {
                let inv = negate(buf);
                assert(inv.last() == !b);
                assert(inv.take(8) =~= pos_preamble());
            }
        },
        Some(inv) => {
            let buf = s.buffer.push(b ^ inv);
            assert(buf.last() == (b ^ inv));
        },
    }
}

/// While the framer is locked, a window whose CRC fails is never returned: the framer drops
/// its lock and returns nothing.
pub proof fn law_framer_drops_lock_on_crc_failure(s: FramerState, b: bool)
    requires
        s.locked is Some,
        s.buffer.len() == 299,
        !crc_ok(s.buffer.push(b ^ s.locked->0)),
    ensures
        framer_step(s, b).1 is None,
        framer_step(s, b).0.locked is None,
{
}

#[derive(Debug)]
enum State {
    Initial,
    Valid { is_inverse: bool },
}

/// Finds CNAV messages in a stream of bits.
#[derive(Debug)]
pub struct PreambleAndCrc {
    buffer: Vec<bool>,
    state: State,
}

impl View for PreambleAndCrc {
    type V = FramerState;

    closed spec fn view(&self) -> FramerState {
        FramerState {
            buffer: self.buffer@,
            locked: match self.state {
                State::Initial => None,
                State::Valid { is_inverse } => Some(is_inverse),
            },
        }
    }
}

/// The first eight bits of `buf` equal `pattern` (eight bits).
fn starts_with(buf: &Vec<bool>, pattern: [bool; 8]) -> (r: bool)
    requires
        buf@.len() >= 8,
    ensures
        r == (buf@.take(8) == pattern@),
{
    let mut i: usize = 0;
    let mut same = true;
    while i < 8
        invariant
            i <= 8,
            buf@.len() >= 8,
            same == (forall|j: int| 0 <= j < i ==> buf@[j] == pattern@[j]),
        decreases 8 - i,
    {
        same = same && buf[i] == pattern[i];
        i = i + 1;
    }
    assert(same == (buf@.take(8) =~= pattern@));
    same
}

/// The first 276 bits of `buf` (at least 276 long).
fn first_276(buf: &Vec<bool>) -> (r: Vec<bool>)
    requires
        buf@.len() >= 276,
    ensures
        r@ == buf@.take(276),
{
    let mut r: Vec<bool> = Vec::new();
    let mut i: usize = 0;
    while i < 276
        invariant
            i <= 276,
            buf@.len() >= 276,
            r@ == buf@.take(i as int),
        decreases 276 - i,
    {
        r.push(buf[i]);
        i = i + 1;
        assert(r@ =~= buf@.take(i as int));
    }
    r
}

impl PreambleAndCrc {
    /// At most 300 bits are buffered, fewer than 300 once locked.
    pub closed spec fn wf(&self) -> bool {
        &&& self.buffer@.len() <= 300
        &&& self.state is Valid ==> self.buffer@.len() < 300
    }

    pub fn new() -> (r: Self)
        ensures
            r.wf(),
            r@ == (FramerState { buffer: Seq::empty(), locked: None }),
    {
        PreambleAndCrc { buffer: Vec::new(), state: State::Initial }
    }

    /// Takes one bit; returns the 276 message bits (CRC removed, polarity corrected) when
    /// the last 300 bits form a message.
    pub fn apply(&mut self, b: bool) -> (r: Option<Vec<bool>>)
        requires
            old(self).wf(),
        ensures
            final(self).wf(),
            final(self)@ == framer_step(old(self)@, b).0,
            r matches Some(v) ==> framer_step(old(self)@, b).1 == Some(v@),
            r is None ==> framer_step(old(self)@, b).1 is None,
    {
        match self.state {
            State::Initial => {
                self.buffer.push(b);
                if self.buffer.len() > 300 {
                    self.buffer.remove(0);
                }
                let ghost buf = self.buffer@;
                assert(buf =~= {
                    let pushed = old(self)@.buffer.push(b);
                    if pushed.len() > 300 { pushed.drop_first() } else { pushed }
                });

                if self.buffer.len() == 300 {
                    let pos = starts_with(&self.buffer, [true, false, false, false, true, false, true, true]);
                    let neg = starts_with(&self.buffer, [false, true, true, true, false, true, false, false]);
                    assert([true, false, false, false, true, false, true, true]@ =~= pos_preamble());
                    assert([false, true, true, true, false, true, false, false]@ =~= neg_preamble());
                    if pos && error_detection::is_subframe_crc_ok(self.buffer.as_slice()) {
                        let msg = first_276(&self.buffer);
                        self.buffer.clear();
                        self.state = State::Valid { is_inverse: false };
                        Some(msg)
                    } else if neg {
                        let mut inverse_buffer: Vec<bool> = Vec::new();
                        let mut i: usize = 0;
                        while i < 300
                            invariant
                                i <= 300,
                                buf.len() == 300,
                                self.buffer@ == buf,
                                inverse_buffer@ == negate(buf).take(i as int),
                            decreases 300 - i,
                        {
                            inverse_buffer.push(!self.buffer[i]);
                            i = i + 1;
                            assert(inverse_buffer@ =~= negate(buf).take(i as int));
                        }
                        assert(negate(buf).take(300) =~= negate(buf));
                        self.buffer.clear();
                        if error_detection::is_subframe_crc_ok(inverse_buffer.as_slice()) {
                            let msg = first_276(&inverse_buffer);
                            self.state = State::Valid { is_inverse: true };
                            Some(msg)
                        } else {
                            None
                        }
                    } else {
                        proof {
                            if pos {
                                assert(pos_preamble()[0] != neg_preamble()[0]);
                            }
                        }
                        None
                    }
                } else {
                    None
                }
            },
            State::Valid { is_inverse } => {
                self.buffer.push(b ^ is_inverse);
                if self.buffer.len() == 300 {
                    if error_detection::is_subframe_crc_ok(self.buffer.as_slice()) {
                        // The CRC checks, so stay locked and return the message without the CRC
                        let msg = first_276(&self.buffer);
                        self.buffer.clear();
                        Some(msg)
                    } else {
                        // The CRC failed, so go back to searching
                        self.state = State::Initial;
                        None
                    }
                } else {
                    None
                }
            },
        }
    }
}

} // verus!
