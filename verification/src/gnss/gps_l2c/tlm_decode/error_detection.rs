//! CRC-24Q check of GPS L2C (CNAV) messages.

use vstd::prelude::*;

verus! {

/// The CRC-24Q generator polynomial, highest-order coefficient first.
pub const CRC_24Q_POLYNOMIAL: [bool; 25] = [true, true, false, false, false, false, true, true, false, false, true, false,
    false, true, true, false, false, true, true, true, true, true, false, true, true];

/// The generator polynomial as a sequence.
pub open spec fn crc24q_poly() -> Seq<bool> {
    seq![true, true, false, false, false, false, true, true, false, false, true, false,
        false, true, true, false, false, true, true, true, true, true, false, true, true]
}

/// The generator is the CRC-24Q polynomial of IS-GPS-200:
/// g(X) = X^24 + X^23 + X^18 + X^17 + X^14 + X^11 + X^10 + X^7 + X^6 + X^5 + X^4 + X^3 + X + 1,
/// coefficient `k` of the sequence being that of X^(24 - k).
pub proof fn law_generator_is_crc24q()
    ensures
        crc24q_poly().len() == 25,
        forall|k: int| 0 <= k < 25 ==> (#[trigger] crc24q_poly()[k] <==> {
            let e = 24 - k;
            e == 24 || e == 23 || e == 18 || e == 17 || e == 14 || e == 11 || e == 10 || e == 7
                || e == 6 || e == 5 || e == 4 || e == 3 || e == 1 || e == 0
        }),
{
    assert forall|k: int| 0 <= k < 25 implies (#[trigger] crc24q_poly()[k] <==> {
            let e = 24 - k;
            e == 24 || e == 23 || e == 18 || e == 17 || e == 14 || e == 11 || e == 10 || e == 7
                || e == 6 || e == 5 || e == 4 || e == 3 || e == 1 || e == 0
        }) by {
        if k == 0 {} else if k == 1 {} else if k == 2 {} else if k == 3 {} else if k == 4 {} else if k == 5 {}
        else if k == 6 {} else if k == 7 {} else if k == 8 {} else if k == 9 {} else if k == 10 {} else if k == 11 {}
        else if k == 12 {} else if k == 13 {} else if k == 14 {} else if k == 15 {} else if k == 16 {} else if k == 17 {}
        else if k == 18 {} else if k == 19 {} else if k == 20 {} else if k == 21 {} else if k == 22 {} else if k == 23 {} else {}
    }
}

/// One step of polynomial long division over GF(2): when the coefficient at position `i`
/// is set, the generator (aligned at `i`) is added to `m`.
pub open spec fn reduce_at(m: Seq<bool>, i: int) -> Seq<bool> {
    if m[i] {
        Seq::new(m.len(), |k: int| if i <= k < i + 25 { m[k] ^ crc24q_poly()[k - i] } else { m[k] })
    } else {
        m
    }
}

/// `m` after the division steps at positions `0..n`.
pub open spec fn reduce_upto(m: Seq<bool>, n: nat) -> Seq<bool>
    decreases n,
{
    if n == 0 {
        m
    } else {
        reduce_at(reduce_upto(m, (n - 1) as nat), n - 1)
    }
}

/// The remainder of dividing the 300-bit `m` by the generator polynomial over GF(2).
pub open spec fn crc_remainder(m: Seq<bool>) -> Seq<bool> {
    reduce_upto(m, 276)
}

/// A 300-bit message whose CRC checks: the remainder of the division is zero.
pub open spec fn crc_ok(m: Seq<bool>) -> bool {
    &&& m.len() == 300
    &&& forall|k: int| 0 <= k < 300 ==> !#[trigger] crc_remainder(m)[k]
}

proof fn lemma_reduce_len(m: Seq<bool>, n: nat)
    ensures
        reduce_upto(m, n).len() == m.len(),
    decreases n,
{
    if n > 0 {
        lemma_reduce_len(m, (n - 1) as nat);
    }
}

/// The sum over GF(2) of two messages of one length: their bitwise exclusive or.
pub open spec fn xor_bits(a: Seq<bool>, b: Seq<bool>) -> Seq<bool> {
    Seq::new(a.len(), |k: int| a[k] ^ b[k])
}

proof fn lemma_reduce_at_xor(a: Seq<bool>, b: Seq<bool>, i: int)
    requires
        a.len() == b.len(),
        0 <= i < a.len(),
    ensures
        reduce_at(xor_bits(a, b), i) == xor_bits(reduce_at(a, i), reduce_at(b, i)),
{
    assert(reduce_at(xor_bits(a, b), i) =~= xor_bits(reduce_at(a, i), reduce_at(b, i)));
}

proof fn lemma_reduce_upto_xor(a: Seq<bool>, b: Seq<bool>, n: nat)
    requires
        a.len() == b.len(),
        n <= a.len(),
    ensures
        reduce_upto(xor_bits(a, b), n) == xor_bits(reduce_upto(a, n), reduce_upto(b, n)),
    decreases n,
{
    if n > 0 {
        lemma_reduce_upto_xor(a, b, (n - 1) as nat);
        lemma_reduce_len(a, (n - 1) as nat);
        lemma_reduce_len(b, (n - 1) as nat);
        lemma_reduce_at_xor(reduce_upto(a, (n - 1) as nat), reduce_upto(b, (n - 1) as nat), n - 1);
    }
}

/// The CRC is linear over GF(2): the remainder of the sum of two 300-bit messages is the sum
/// of their remainders, so the messages whose CRC checks are closed under that sum.
pub proof fn law_crc_linear(a: Seq<bool>, b: Seq<bool>)
    requires
        a.len() == 300,
        b.len() == 300,
    ensures
        crc_remainder(xor_bits(a, b)) == xor_bits(crc_remainder(a), crc_remainder(b)),
        crc_ok(a) && crc_ok(b) ==> crc_ok(xor_bits(a, b)),
{
    lemma_reduce_upto_xor(a, b, 276);
    lemma_reduce_len(a, 276);
    if crc_ok(a) && crc_ok(b) {
        assert forall|k: int| 0 <= k < 300 implies !#[trigger] crc_remainder(xor_bits(a, b))[k] by {
            assert(!crc_remainder(a)[k] && !crc_remainder(b)[k]);
        }
    }
}

/// The 300-bit word with no bit set.
pub open spec fn zero_word() -> Seq<bool> {
    Seq::new(300, |k: int| false)
}

/// The generator polynomial placed at positions `i..i + 25` of a 300-bit word.
pub open spec fn shifted_poly(i: int) -> Seq<bool> {
    Seq::new(300, |k: int| i <= k < i + 25 && crc24q_poly()[k - i])
}

/// The product over GF(2) of the generator and the quotient whose first `n` coefficients
/// are those of `q`: the sum of the generator placed at each position where `q` is set.
pub open spec fn poly_product(q: Seq<bool>, n: nat) -> Seq<bool>
    decreases n,
{
    if n == 0 {
        zero_word()
    } else {
        xor_bits(poly_product(q, (n - 1) as nat), if q[n - 1] { shifted_poly(n - 1) } else { zero_word() })
    }
}

proof fn lemma_reduce_zero(n: nat)
    requires
        n <= 276,
    ensures
        reduce_upto(zero_word(), n) == zero_word(),
    decreases n,
{
    if n > 0 {
        lemma_reduce_zero((n - 1) as nat);
    }
}

proof fn lemma_reduce_shifted(i: int, n: nat)
    requires
        0 <= i < 276,
        n <= 276,
    ensures
        reduce_upto(shifted_poly(i), n) == (if n <= i { shifted_poly(i) } else { zero_word() }),
    decreases n,
{
    if n > 0 {
        lemma_reduce_shifted(i, (n - 1) as nat);
        if n - 1 == i {
            assert(reduce_at(shifted_poly(i), i) =~= zero_word());
        } else if n - 1 > i {
            assert(reduce_at(zero_word(), n - 1) =~= zero_word());
        }
    }
}

proof fn lemma_product_len(q: Seq<bool>, n: nat)
    ensures
        poly_product(q, n).len() == 300,
    decreases n,
{
    if n > 0 {
        lemma_product_len(q, (n - 1) as nat);
    }
}

proof fn lemma_product_has_no_remainder(q: Seq<bool>, n: nat)
    requires
        n <= 276,
    ensures
        reduce_upto(poly_product(q, n), 276) == zero_word(),
    decreases n,
{
    if n == 0 {
        lemma_reduce_zero(276);
    } else {
        lemma_product_has_no_remainder(q, (n - 1) as nat);
        lemma_product_len(q, (n - 1) as nat);
        let term = if q[n - 1] { shifted_poly(n - 1) } else { zero_word() };
        lemma_reduce_upto_xor(poly_product(q, (n - 1) as nat), term, 276);
        if q[n - 1] {
            lemma_reduce_shifted(n - 1, 276);
        } else {
            lemma_reduce_zero(276);
        }
        assert(xor_bits(zero_word(), zero_word()) =~= zero_word());
    }
}

/// The quotient bit that long division takes at position `i`.
pub open spec fn quotient_of(m: Seq<bool>) -> Seq<bool> {
    Seq::new(276, |i: int| reduce_upto(m, i as nat)[i])
}

proof fn lemma_division_steps(m: Seq<bool>, n: nat)
    requires
        m.len() == 300,
        n <= 276,
    ensures
        reduce_upto(m, n) == xor_bits(m, poly_product(quotient_of(m), n)),
    decreases n,
{
    lemma_product_len(quotient_of(m), n);
    if n == 0 {
        assert(xor_bits(m, zero_word()) =~= m);
    } else {
        let k = (n - 1) as nat;
        lemma_division_steps(m, k);
        lemma_product_len(quotient_of(m), k);
        lemma_reduce_len(m, k);
        let r = reduce_upto(m, k);
        let term = if r[k as int] { shifted_poly(k as int) } else { zero_word() };
        assert(quotient_of(m)[k as int] == r[k as int]);
        assert(reduce_at(r, k as int) =~= xor_bits(r, term));
        assert(xor_bits(xor_bits(m, poly_product(quotient_of(m), k)), term)
            =~= xor_bits(m, xor_bits(poly_product(quotient_of(m), k), term)));
    }
}

/// The CRC of a 300-bit message checks exactly when the message, read as a polynomial over
/// GF(2), is a multiple of the generator polynomial.
pub proof fn law_crc_ok_iff_multiple_of_generator(m: Seq<bool>)
    requires
        m.len() == 300,
    ensures
        crc_ok(m) <==> exists|q: Seq<bool>| q.len() == 276 && m == #[trigger] poly_product(q, 276),
{
    if crc_ok(m) {
        lemma_division_steps(m, 276);
        let q = quotient_of(m);
        lemma_product_len(q, 276);
        assert(crc_remainder(m) =~= zero_word());
        assert(m =~= poly_product(q, 276)) by {
            assert forall|k: int| 0 <= k < 300 implies m[k] == poly_product(q, 276)[k] by {
                assert(!crc_remainder(m)[k]);
                assert(crc_remainder(m)[k] == (m[k] ^ poly_product(q, 276)[k]));
            }
        }
    }
    if exists|q: Seq<bool>| q.len() == 276 && m == #[trigger] poly_product(q, 276) {
        let q = choose|q: Seq<bool>| q.len() == 276 && m == #[trigger] poly_product(q, 276);
        lemma_product_has_no_remainder(q, 276);
        assert forall|k: int| 0 <= k < 300 implies !#[trigger] crc_remainder(m)[k] by {
            assert(crc_remainder(m) == zero_word());
        }
    }
}

/// Checks the CRC of a 300-bit message (276 bits followed by 24 CRC bits); any other length
/// fails.
pub fn is_subframe_crc_ok(message_w_crc: &[bool]) -> (ok: bool)
    ensures
        ok == crc_ok(message_w_crc@),
{
    if message_w_crc.len() != 300 {
        return false;
    }

    // Make a copy of the slice because we'll need to mutate it
    let mut m: [bool; 300] = [true; 300];
    for i in 0..300
        invariant
            message_w_crc@.len() == 300,
            forall|k: int| 0 <= k < i ==> #[trigger] m@[k] == message_w_crc@[k],
    {
        m[i] = message_w_crc[i];
    }
    assert(m@ =~= reduce_upto(message_w_crc@, 0));

    let poly = CRC_24Q_POLYNOMIAL;
    assert(poly@ =~= crc24q_poly());
    for i in 0..276
        invariant
            message_w_crc@.len() == 300,
            poly@ == crc24q_poly(),
            m@ == reduce_upto(message_w_crc@, i as nat),
    {
        proof { lemma_reduce_len(message_w_crc@, i as nat); }
        let ghost before = m@;
        if m[i] {
            for j in 0..25
                invariant
                    before.len() == 300,
                    poly@ == crc24q_poly(),
                    i < 276,
                    before[i as int],
                    forall|k: int| 0 <= k < 300 ==> #[trigger] m@[k] ==
                        (if i <= k < i + j { before[k] ^ crc24q_poly()[k - i] } else { before[k] }),
            {
                m[i + j] = m[i + j] ^ poly[j];
            }
        }
        assert(m@ =~= reduce_at(before, i as int));
    }

    let mut all_zero = true;
    for k in 0..300
        invariant
            m@ == crc_remainder(message_w_crc@),
            all_zero == (forall|j: int| 0 <= j < k ==> !#[trigger] crc_remainder(message_w_crc@)[j]),
    {
        all_zero = all_zero && !m[k];
    }
    all_zero
}

} // verus!
