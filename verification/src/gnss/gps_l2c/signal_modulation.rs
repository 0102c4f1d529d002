//! The spreading codes of the GPS L2C signal: the moderate-length (CM) and long (CL) codes,
//! both generated by the same 27-stage modular shift register from per-PRN initial states.

use vstd::prelude::*;

verus! {

/// Given in IS-GPS-200K, Table 3-IIa.
pub const CM_INITIAL_STATE: [[bool; 27]; 32] = [
    [true, true, true, true, false, false, false, true, false, true, false, false, false, false, true, true, true, true, true, true, false, true, true, false, true, false, false], // PRN 01
    [true, true, true, true, false, true, true, true, false, false, false, false, false, false, true, true, false, false, false, false, false, false, true, true, true, false, true], // PRN 02
    [false, false, false, false, false, false, false, true, false, true, true, true, true, false, false, true, true, true, false, false, true, true, false, false, true, false, false], // PRN 03
    [false, false, false, true, true, false, true, true, false, false, true, false, true, true, false, true, false, true, true, true, true, false, true, false, true, false, false], // PRN 04
    [true, true, false, false, false, false, false, false, true, true, false, false, false, false, false, false, true, true, true, false, false, true, true, true, false, false, true], // PRN 05
    [true, true, true, false, false, false, false, true, true, false, true, false, false, true, true, false, true, false, true, true, true, false, true, true, false, true, true], // PRN 06
    [false, false, true, false, true, false, true, false, false, true, false, true, false, false, true, false, false, false, false, false, false, true, true, true, false, false, false], // PRN 07
    [true, true, false, false, false, true, true, true, true, false, true, true, false, false, true, true, true, false, false, true, true, true, true, false, false, false, true], // PRN 08
    [false, false, false, true, false, false, true, true, true, true, false, true, true, false, false, false, false, true, true, true, false, false, true, false, false, false, true], // PRN 09
    [true, true, true, false, true, true, false, true, true, false, false, false, false, true, true, false, false, true, false, false, false, true, false, false, true, true, false], // PRN 10
    [true, true, true, false, false, true, false, true, true, true, false, true, false, false, true, false, true, false, false, false, true, true, false, false, true, false, true], // PRN 11
    [false, false, false, false, true, false, true, false, false, true, false, false, false, true, true, true, true, true, true, true, false, false, false, false, true, true, false], // PRN 12
    [false, false, false, false, true, false, false, false, true, false, true, false, true, true, false, true, false, false, false, false, false, false, false, false, false, true, true], // PRN 13
    [false, true, false, false, true, true, false, false, false, true, true, false, true, false, true, true, false, true, false, true, true, true, false, true, false, false, true], // PRN 14
    [false, false, false, false, false, false, false, false, true, false, true, true, false, false, true, true, false, false, true, false, false, false, false, false, false, false, false], // PRN 15
    [false, true, false, false, true, false, false, true, false, false, false, false, false, true, false, false, false, true, true, false, true, false, false, false, true, true, false], // PRN 16
    [true, false, true, true, false, false, false, false, false, false, true, false, true, true, false, true, false, false, false, false, false, false, true, false, true, true, false], // PRN 17
    [false, true, false, false, false, false, true, false, true, true, false, true, false, true, false, false, false, true, true, true, true, false, false, false, true, false, true], // PRN 18
    [false, false, false, true, true, false, true, false, false, false, false, false, false, true, false, false, true, false, false, false, true, true, false, false, true, false, false], // PRN 19
    [false, false, true, false, true, false, false, false, false, false, false, true, true, true, false, false, false, true, false, true, false, true, true, true, true, false, false], // PRN 20
    [false, false, false, true, false, false, true, false, false, false, false, false, false, true, false, false, true, true, true, false, true, false, true, true, false, true, true], // PRN 21
    [true, true, true, false, true, false, true, false, false, true, true, true, true, false, false, true, false, false, false, true, true, false, true, false, true, true, true], // PRN 22
    [false, false, false, true, false, false, true, false, true, true, true, true, true, false, false, false, true, true, true, false, true, true, true, true, true, true, true], // PRN 23
    [true, true, true, true, false, false, false, false, true, false, true, false, false, false, false, false, false, true, true, true, false, true, true, false, false, false, false], // PRN 24
    [true, true, true, false, false, false, false, false, false, false, true, false, true, true, true, true, false, false, false, false, true, false, true, true, true, false, false], // PRN 25
    [false, false, false, false, false, true, false, false, false, false, true, false, true, false, false, true, true, true, false, true, false, true, true, false, false, false, true], // PRN 26
    [true, true, true, false, false, true, false, true, true, true, false, false, false, true, true, false, true, true, true, false, false, true, false, false, true, false, true], // PRN 27
    [true, true, true, false, true, true, true, true, true, false, true, true, false, true, false, true, false, false, false, false, true, true, true, false, false, true, false], // PRN 28
    [false, true, true, false, false, true, false, false, true, true, true, false, false, true, false, true, true, true, true, false, false, false, true, true, true, false, false], // PRN 29
    [true, true, true, false, false, true, false, false, false, true, false, false, true, false, true, false, true, false, false, false, false, false, false, false, true, true, true], // PRN 30
    [true, true, true, false, true, false, false, true, false, true, false, false, true, true, false, false, true, false, false, false, true, false, true, true, false, true, true], // PRN 31
    [false, false, false, true, false, true, false, false, false, false, false, true, true, true, true, false, true, false, false, true, false, false, false, true, false, true, true], // PRN 32
];

/// Given in IS-GPS-200K, Table 3-IIa.
pub const CL_INITIAL_STATE: [[bool; 27]; 32] = [
    [true, true, false, false, true, false, true, false, false, false, false, true, true, false, false, true, false, true, true, true, true, true, true, true, false, true, false], // PRN 01
    [true, false, true, false, false, false, true, true, false, true, true, false, false, false, true, false, false, false, false, true, true, true, true, false, false, true, false], // PRN 02
    [false, true, false, false, true, false, false, false, false, false, true, true, true, true, false, false, false, false, false, false, false, false, false, true, true, true, false], // PRN 03
    [true, true, true, false, false, true, false, false, false, true, false, false, false, false, false, true, true, false, false, false, true, false, false, false, true, false, false], // PRN 04
    [false, false, false, false, false, false, false, false, true, false, false, true, true, false, false, false, true, true, false, true, true, true, false, false, true, false, true], // PRN 05
    [false, false, false, true, false, true, false, true, true, false, false, false, false, true, false, false, true, true, false, true, true, false, true, false, true, true, false], // PRN 06
    [true, true, false, true, false, true, false, true, false, true, false, true, false, true, false, false, false, true, false, true, false, true, true, true, true, true, false], // PRN 07
    [false, true, false, false, false, false, true, true, false, false, false, true, false, true, false, true, false, false, true, true, true, true, true, true, true, true, true], // PRN 08
    [false, false, false, false, false, true, true, false, true, true, false, true, true, true, false, false, true, true, false, true, true, true, true, true, true, false, false], // PRN 09
    [true, false, true, true, true, false, false, false, true, true, false, true, false, true, false, false, true, false, false, false, false, true, true, true, true, true, false], // PRN 10
    [false, false, false, false, true, false, false, true, true, false, false, true, true, true, false, false, true, true, true, false, true, false, true, false, true, false, true], // PRN 11
    [false, false, true, false, false, true, true, true, true, true, true, true, true, true, true, true, true, false, true, false, false, true, false, true, false, false, false], // PRN 12
    [true, true, false, false, false, false, true, true, false, true, false, true, false, false, true, true, true, false, false, true, true, true, false, true, true, false, true], // PRN 13
    [false, false, false, false, false, false, false, true, true, false, false, false, false, true, true, true, true, true, false, true, true, true, false, false, false, true, true], // PRN 14
    [false, false, false, true, false, false, true, true, false, true, false, true, false, false, true, true, false, true, true, false, true, true, true, false, true, false, true], // PRN 15
    [true, true, false, true, true, true, false, false, true, true, false, true, false, false, true, false, false, true, true, true, false, false, true, false, false, false, true], // PRN 16
    [true, true, false, false, false, false, true, false, true, true, false, false, false, false, false, false, true, false, false, true, false, false, true, false, false, false, false], // PRN 17
    [false, false, false, false, false, false, false, true, false, true, false, true, true, true, true, true, true, false, false, true, false, false, false, false, true, true, true], // PRN 18
    [true, false, true, false, true, false, true, false, true, false, false, true, true, true, false, false, true, true, true, false, false, true, false, true, false, false, true], // PRN 19
    [false, true, false, true, true, false, true, true, false, true, false, true, false, true, false, true, true, true, true, true, true, true, true, false, true, false, true], // PRN 20
    [false, false, false, false, false, false, true, true, false, true, true, true, true, true, false, false, false, false, true, true, true, false, false, false, false, true, true], // PRN 21
    [true, false, true, false, false, false, false, false, true, true, false, false, true, true, true, true, false, false, true, false, true, true, false, true, true, true, false], // PRN 22
    [true, true, true, true, false, false, false, true, true, true, true, true, true, false, false, true, true, true, true, false, false, true, false, false, false, true, true], // PRN 23
    [true, true, false, false, false, true, true, false, true, true, false, true, false, true, true, true, false, false, true, true, true, false, true, false, true, true, false], // PRN 24
    [true, true, true, true, true, false, false, true, true, true, true, false, false, true, false, false, false, true, true, false, false, false, true, false, false, false, false], // PRN 25
    [true, true, true, false, true, false, false, false, false, true, true, true, false, true, false, true, true, true, true, false, false, true, true, true, true, false, false], // PRN 26
    [true, true, true, false, false, false, false, false, false, true, false, true, false, true, false, false, false, true, false, false, false, true, false, false, false, true, true], // PRN 27
    [false, true, false, false, true, false, false, true, false, true, false, true, true, true, false, true, true, true, false, true, false, true, true, false, false, true, true], // PRN 28
    [false, false, true, false, true, true, false, true, false, true, true, true, true, true, false, true, false, true, false, true, true, false, false, false, true, false, false], // PRN 29
    [true, true, true, true, false, false, true, true, false, false, true, true, false, true, true, false, true, false, false, true, false, true, false, false, true, false, true], // PRN 30
    [false, false, true, false, false, false, false, true, false, false, true, true, false, false, false, false, false, false, true, false, false, true, true, false, true, true, false], // PRN 31
    [false, true, false, true, false, true, true, false, true, false, true, false, false, true, true, false, false, true, true, true, true, false, false, true, true, true, false], // PRN 32
];

/// The stages that take the feedback of the output stage (IS-GPS-200K, figure 3-9).
pub open spec fn is_tap(k: int) -> bool {
    k == 3 || k == 6 || k == 8 || k == 11 || k == 14 || k == 16 || k == 18 || k == 21 || k == 22 || k == 23 || k == 24
}

/// The register after one shift: stage 26 is the output, which enters stage 0 and is added
/// to every tapped stage as the contents move up by one.
pub open spec fn shifted(s: Seq<bool>) -> Seq<bool> {
    Seq::new(27, |k: int| if k == 0 { s[26] } else { s[k - 1] ^ (is_tap(k) && s[26]) })
}

/// The register after `n` shifts from state `s`.
pub open spec fn state_after(s: Seq<bool>, n: nat) -> Seq<bool>
    decreases n,
{
    if n == 0 { s } else { shifted(state_after(s, (n - 1) as nat)) }
}

/// The first `n` chips that the register emits from state `s`.
pub open spec fn code_chips(s: Seq<bool>, n: nat) -> Seq<bool> {
    Seq::new(n, |k: int| state_after(s, k as nat)[26])
}

/// A shift loses no information: two different register states never shift to the same
/// state, so the register runs through a cycle.
pub proof fn law_shift_injective(s1: Seq<bool>, s2: Seq<bool>)
    requires
        s1.len() == 27,
        s2.len() == 27,
        shifted(s1) == shifted(s2),
    ensures
        s1 == s2,
{
    assert(s1[26] == shifted(s1)[0]);
    assert(s2[26] == shifted(s2)[0]);
    assert forall|k: int| 0 <= k < 26 implies s1[k] == s2[k] by {
        assert(shifted(s1)[k + 1] == shifted(s2)[k + 1]);
        assert(shifted(s1)[k + 1] == (s1[k] ^ (is_tap(k + 1) && s1[26])));
        assert(shifted(s2)[k + 1] == (s2[k] ^ (is_tap(k + 1) && s2[26])));
    }
    assert(s1 =~= s2);
}

/// A 27-stage modular (Galois) linear feedback shift register.
pub struct ModularShiftRegister {
    pub state: [bool; 27],
}

impl ModularShiftRegister {
    /// Emits the output stage and shifts the register.
    pub fn shift(&mut self) -> (current_output: bool)
        ensures
            current_output == old(self).state@[26],
            final(self).state@ == shifted(old(self).state@),
    {
        let s = self.state;
        let current_output: bool = s[26];

        self.state = [
            current_output,
            s[0],
            s[1],
            s[2] ^ current_output,
            s[3],
            s[4],
            s[5] ^ current_output,
            s[6],
            s[7] ^ current_output,
            s[8],
            s[9],
            s[10] ^ current_output,
            s[11],
            s[12],
            s[13] ^ current_output,
            s[14],
            s[15] ^ current_output,
            s[16],
            s[17] ^ current_output,
            s[18],
            s[19],
            s[20] ^ current_output,
            s[21] ^ current_output,
            s[22] ^ current_output,
            s[23] ^ current_output,
            s[24],
            s[25],
        ];

        assert(self.state@ =~= shifted(old(self).state@));
        current_output
    }
}

/// The 10230-chip CM code of PRN `prn` (1 to 32).
pub fn cm_code(prn: usize) -> (ans: [bool; 10230])
    requires
        1 <= prn <= 32,
    ensures
        ans@ == code_chips(CM_INITIAL_STATE@[prn - 1]@, 10230),
{
    let mut ans: [bool; 10230] = [false; 10230];
    let mut shift_reg = ModularShiftRegister { state: CM_INITIAL_STATE[prn - 1] };
    let ghost s0 = CM_INITIAL_STATE@[prn - 1]@;
    for idx in 0..10230
        invariant
            shift_reg.state@ == state_after(s0, idx as nat),
            forall|k: int| 0 <= k < idx ==> #[trigger] ans@[k] == state_after(s0, k as nat)[26],
    {
        ans[idx] = shift_reg.shift();
    }
    assert(ans@ =~= code_chips(s0, 10230));
    ans
}

/// The 767250-chip CL code of PRN `prn` (1 to 32).
pub fn cl_code(prn: usize) -> (ans: [bool; 767250])
    requires
        1 <= prn <= 32,
    ensures
        ans@ == code_chips(CL_INITIAL_STATE@[prn - 1]@, 767250),
{
    let mut ans: [bool; 767250] = [false; 767250];
    let mut shift_reg = ModularShiftRegister { state: CL_INITIAL_STATE[prn - 1] };
    let ghost s0 = CL_INITIAL_STATE@[prn - 1]@;
    for idx in 0..767250
        invariant
            shift_reg.state@ == state_after(s0, idx as nat),
            forall|k: int| 0 <= k < idx ==> #[trigger] ans@[k] == state_after(s0, k as nat)[26],
    {
        ans[idx] = shift_reg.shift();
    }
    assert(ans@ =~= code_chips(s0, 767250));
    ans
}

} // verus!
