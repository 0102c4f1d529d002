use rust_radio::gnss::gps_l2c::signal_modulation::{cm_code, ModularShiftRegister, CL_INITIAL_STATE, CM_INITIAL_STATE};

const CM_FINAL_STATE: [[bool; 27]; 32] = [
    [true, false, true, true, false, true, false, true, false, true, false, true, true, true, false, true, true, false, false, false, false, false, false, false, false, true, false], // PRN 01
    [false, false, false, false, true, true, true, false, false, true, false, false, true, false, false, true, false, true, false, false, false, false, true, true, true, false, false], // PRN 02
    [true, true, true, false, true, false, false, true, true, true, false, false, true, false, false, false, true, true, true, true, true, false, false, true, false, false, true], // PRN 03
    [true, false, true, false, false, true, false, false, true, false, true, false, false, true, false, false, true, false, false, false, false, false, false, true, false, true, true], // PRN 04
    [true, false, false, true, true, false, false, true, true, false, false, false, true, false, true, true, false, true, false, true, false, false, false, true, false, true, true], // PRN 05
    [true, true, false, true, true, false, true, true, true, false, false, false, true, false, false, true, false, false, true, false, true, false, true, false, true, false, false], // PRN 06
    [true, true, false, true, false, true, false, true, false, false, true, true, false, true, false, false, true, false, true, true, false, true, false, true, false, true, true], // PRN 07
    [true, false, true, false, false, false, true, false, true, true, true, true, false, false, false, false, true, true, false, true, true, true, false, false, true, false, false], // PRN 08
    [true, false, true, false, true, false, false, false, false, false, true, true, false, false, false, false, true, false, true, true, true, true, true, true, true, false, true], // PRN 09
    [false, true, false, true, false, false, true, false, false, false, true, false, false, false, false, true, false, true, true, false, true, false, false, false, true, true, false], // PRN 10
    [false, true, false, false, true, true, true, true, false, false, false, true, true, true, true, true, false, false, false, false, false, false, false, false, false, true, false], // PRN 11
    [true, true, false, true, false, true, true, false, false, false, true, true, false, false, false, true, false, true, true, false, true, false, true, true, false, false, true], // PRN 12
    [true, false, false, false, true, true, true, false, true, false, false, false, true, true, true, false, false, false, true, false, true, true, true, true, false, false, true], // PRN 13
    [true, true, false, false, true, true, false, false, false, true, false, false, false, true, true, false, false, true, false, true, false, true, false, true, false, false, true], // PRN 14
    [false, true, false, false, true, true, true, false, false, false, false, false, true, false, false, false, true, true, true, false, false, false, false, true, true, true, true], // PRN 15
    [true, false, true, false, true, true, true, false, true, true, false, true, true, false, false, false, false, false, true, true, true, true, false, false, true, false, true], // PRN 16
    [false, false, false, true, false, false, false, true, true, false, false, false, true, false, true, true, true, false, true, true, true, false, true, true, true, false, false], // PRN 17
    [true, true, true, false, true, true, false, false, true, false, true, true, false, false, false, true, false, false, false, false, true, false, false, false, false, true, true], // PRN 18
    [true, false, false, false, false, true, false, true, false, false, false, true, false, true, false, false, false, false, false, false, true, false, false, false, true, false, true], // PRN 19
    [false, true, true, true, true, false, true, false, true, true, true, false, false, true, true, true, true, false, false, false, true, false, false, true, false, false, true], // PRN 20
    [false, false, true, true, false, false, false, true, true, false, true, true, false, true, false, true, false, false, true, true, false, true, false, true, true, true, true], // PRN 21
    [false, false, true, false, false, true, false, false, false, true, true, true, true, true, false, true, true, false, true, false, false, true, true, false, false, true, false], // PRN 22
    [true, true, false, false, false, false, false, true, false, true, false, false, false, false, false, true, false, true, false, true, false, false, false, false, false, true, true], // PRN 23
    [false, false, true, true, true, true, true, true, true, true, true, true, false, true, true, true, false, true, true, true, false, true, false, true, false, false, false], // PRN 24
    [true, true, false, false, true, true, false, false, false, false, false, true, true, true, true, true, true, true, true, false, true, true, true, false, false, false, false], // PRN 25
    [true, true, false, true, false, true, false, true, true, true, false, false, true, true, false, true, true, true, false, false, true, false, false, false, true, true, true], // PRN 26
    [true, false, false, false, false, false, true, true, false, true, false, true, true, true, true, true, true, false, true, true, false, false, true, true, false, false, false], // PRN 27
    [false, true, false, false, true, false, false, false, true, true, true, true, true, true, true, true, true, true, false, false, true, false, false, false, false, false, false], // PRN 28
    [true, true, true, true, true, true, false, true, true, false, true, false, true, true, false, true, true, false, true, true, false, true, true, true, false, true, true], // PRN 29
    [false, false, true, false, false, false, false, false, false, false, false, false, false, false, true, false, false, false, true, true, true, false, false, true, false, false, false], // PRN 30
    [true, false, false, false, true, true, false, false, true, false, false, false, false, true, true, true, true, true, false, false, true, false, true, true, false, true, false], // PRN 31
    [true, true, false, false, true, false, true, false, false, false, false, true, false, true, false, true, true, true, true, false, false, true, true, true, true, false, true], // PRN 32
];

const CL_FINAL_STATE: [[bool; 27]; 32] = [
    [false, true, false, true, true, false, true, true, true, true, true, true, false, true, false, true, false, false, false, true, false, false, true, true, true, true, false], // PRN 01
    [false, false, true, true, true, false, true, true, true, true, false, true, false, false, true, true, true, false, false, false, false, true, true, false, true, true, false], // PRN 02
    [true, true, true, true, true, true, false, false, true, true, true, true, true, false, true, true, true, false, true, false, false, false, false, false, true, false, true], // PRN 03
    [false, false, false, true, false, false, true, true, true, false, true, false, false, false, false, false, true, false, true, true, false, false, true, false, true, false, false], // PRN 04
    [false, false, false, true, false, true, false, true, false, true, true, true, true, true, true, false, false, false, true, false, false, false, true, true, false, true, true], // PRN 05
    [true, true, true, true, true, false, false, false, true, true, true, true, true, false, false, false, true, true, true, true, false, true, true, false, true, false, true], // PRN 06
    [false, false, true, false, true, true, false, true, true, false, false, false, false, false, true, true, false, true, true, true, true, false, true, false, true, true, false], // PRN 07
    [true, true, false, false, false, true, false, false, false, true, true, false, false, false, true, false, false, true, true, false, true, false, false, true, false, false, true], // PRN 08
    [false, true, true, true, false, true, false, true, false, false, false, true, true, false, true, false, false, false, false, true, true, false, true, false, false, true, true], // PRN 09
    [false, false, false, true, false, true, false, false, true, false, true, false, true, true, false, true, true, false, false, false, false, true, false, false, true, true, false], // PRN 10
    [false, true, true, false, false, false, true, false, true, true, true, false, false, false, true, false, false, true, false, true, true, true, true, true, false, true, true], // PRN 11
    [true, false, true, false, false, false, true, false, false, true, true, false, true, true, true, true, true, false, true, true, true, true, true, true, false, true, true], // PRN 12
    [false, true, false, true, true, true, false, true, false, true, false, true, true, true, true, false, true, false, true, true, false, false, true, true, true, false, false], // PRN 13
    [true, true, true, false, true, true, false, false, true, false, true, true, false, true, false, false, false, false, true, true, true, true, true, true, false, false, true], // PRN 14
    [true, true, false, false, true, true, false, false, true, false, true, true, false, true, false, true, true, false, true, false, true, true, true, false, false, true, true], // PRN 15
    [false, true, false, false, true, true, false, false, true, true, false, true, false, false, true, true, true, false, false, true, true, true, true, false, false, false, false], // PRN 16
    [false, false, false, false, true, true, false, false, false, false, true, true, true, true, false, true, true, true, false, true, true, true, true, false, true, true, false], // PRN 17
    [true, true, true, false, false, true, false, true, true, true, false, true, true, false, false, false, true, true, true, true, false, false, false, true, false, true, true], // PRN 18
    [false, true, false, false, true, true, false, true, false, true, true, false, true, true, true, true, false, false, true, true, false, true, false, true, true, false, false], // PRN 19
    [true, true, false, true, false, false, false, false, true, true, true, true, false, true, true, false, true, true, false, false, true, true, false, true, true, false, true], // PRN 20
    [true, true, true, false, true, true, false, false, false, false, false, true, false, true, false, true, false, true, false, true, true, true, false, false, true, false, true], // PRN 21
    [false, false, false, false, false, false, false, false, false, false, true, true, false, false, true, true, true, false, false, false, false, true, true, true, true, false, false], // PRN 22
    [false, false, true, true, true, true, false, false, true, false, true, true, false, false, true, false, true, true, true, true, false, false, false, true, true, false, false], // PRN 23
    [false, false, false, false, false, false, false, false, true, true, false, true, false, true, false, false, true, true, true, true, false, true, true, false, false, true, false], // PRN 24
    [false, false, false, false, true, false, false, true, true, true, false, false, true, false, true, true, true, true, false, true, false, true, false, true, false, false, false], // PRN 25
    [false, true, true, false, true, true, false, false, false, true, true, true, false, true, true, false, true, true, false, true, false, true, false, true, true, false, false], // PRN 26
    [true, true, false, false, true, false, true, false, true, false, false, false, true, false, true, true, false, true, true, true, true, false, true, false, true, true, false], // PRN 27
    [true, false, false, true, true, true, true, true, false, true, false, true, false, true, false, true, false, false, false, false, false, true, true, false, false, false, true], // PRN 28
    [true, true, false, false, false, false, false, true, false, false, false, false, true, true, false, true, true, false, false, false, false, false, true, true, false, false, true], // PRN 29
    [false, false, false, false, false, true, false, true, false, true, false, false, false, false, true, false, true, false, true, false, true, false, true, false, true, true, false], // PRN 30
    [true, true, true, false, false, false, true, false, true, false, false, true, true, false, false, true, false, false, true, false, true, false, false, false, false, false, true], // PRN 31
    [true, true, false, false, false, true, true, false, true, false, true, true, true, true, true, false, true, true, false, false, true, true, true, true, false, false, true], // PRN 32
];


#[test]
fn shift_emits_the_last_stage_and_feeds_it_back() {
    let mut state = [false; 27];
    state[26] = true;
    let mut reg = ModularShiftRegister { state };
    assert!(reg.shift());
    let mut expected = [false; 27];
    for k in [0usize, 3, 6, 8, 11, 14, 16, 18, 21, 22, 23, 24] {
        expected[k] = true;
    }
    assert_eq!(reg.state, expected);
    assert!(!reg.shift());
    assert!(reg.state[1] && reg.state[4] && reg.state[25]);
}

#[test]
fn cm_code_registers_reach_their_final_states() {
    for prn in 1..=32 {
        let mut reg = ModularShiftRegister { state: CM_INITIAL_STATE[prn - 1] };
        for _ in 0..10229 {
            reg.shift();
        }
        assert_eq!(reg.state, CM_FINAL_STATE[prn - 1], "PRN {}", prn);
    }
}

#[test]
fn cm_code_is_the_register_output() {
    for prn in [1usize, 17, 32] {
        let code = cm_code(prn);
        let mut reg = ModularShiftRegister { state: CM_INITIAL_STATE[prn - 1] };
        for chip in code.iter() {
            assert_eq!(*chip, reg.shift());
        }
    }
}

fn cl_final(prns: std::ops::RangeInclusive<usize>) {
    for prn in prns {
        let mut reg = ModularShiftRegister { state: CL_INITIAL_STATE[prn - 1] };
        for _ in 0..767249 {
            reg.shift();
        }
        assert_eq!(reg.state, CL_FINAL_STATE[prn - 1], "PRN {}", prn);
    }
}

#[test]
fn cl_code_registers_reach_their_final_states_prn_1_to_8() {
    cl_final(1..=8);
}

#[test]
fn cl_code_registers_reach_their_final_states_prn_9_to_16() {
    cl_final(9..=16);
}

#[test]
fn cl_code_registers_reach_their_final_states_prn_17_to_24() {
    cl_final(17..=24);
}

#[test]
fn cl_code_registers_reach_their_final_states_prn_25_to_32() {
    cl_final(25..=32);
}

#[test]
fn cl_code_is_the_register_output() {
    let code = rust_radio::gnss::gps_l2c::signal_modulation::cl_code(5);
    let mut reg = ModularShiftRegister { state: CL_INITIAL_STATE[4] };
    for chip in code.iter() {
        assert_eq!(*chip, reg.shift());
    }
}

#[test]
fn different_states_shift_to_different_states() {
    let a = CM_INITIAL_STATE[0];
    let mut b = a;
    b[13] = !b[13];
    let mut ra = ModularShiftRegister { state: a };
    let mut rb = ModularShiftRegister { state: b };
    ra.shift();
    rb.shift();
    assert_ne!(ra.state, rb.state);
}
