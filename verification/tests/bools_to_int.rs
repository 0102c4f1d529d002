use rust_radio::utils::bools_to_int;
use rust_radio::DigSigProcErr;

fn bits(s: &str) -> Vec<bool> {
    s.chars().map(|c| c == '1').collect()
}

#[test]
fn unsigned_fields_read_most_significant_bit_first() {
    assert_eq!(bools_to_int::to_u8(&bits("10001011")), Ok(0x8b));
    assert_eq!(bools_to_int::to_u8(&bits("101")), Ok(5));
    assert_eq!(bools_to_int::to_u8(&[]), Ok(0));
    assert_eq!(bools_to_int::to_u16(&bits("1111111111111111")), Ok(0xffff));
    assert_eq!(bools_to_int::to_u32(&bits("10000000000000000")), Ok(0x10000));
}

#[test]
fn signed_fields_are_twos_complement_of_their_width() {
    assert_eq!(bools_to_int::to_i8(&bits("11111111")), Ok(-1));
    assert_eq!(bools_to_int::to_i8(&bits("10000000")), Ok(-128));
    assert_eq!(bools_to_int::to_i8(&bits("01111111")), Ok(127));
    assert_eq!(bools_to_int::to_i16(&bits("10000000000000")), Ok(-8192));
    assert_eq!(bools_to_int::to_i32(&bits("1111111111111111111110")), Ok(-2));
    assert_eq!(bools_to_int::to_i64(&bits("100000000000000000000000000000000")), Ok(-(1i64 << 32)));
    assert_eq!(bools_to_int::to_i64(&[true; 64]), Ok(-1));
    assert_eq!(bools_to_int::to_i16(&[]), Ok(0));
}

#[test]
fn fields_wider_than_the_type_are_refused() {
    assert!(matches!(bools_to_int::to_u8(&[false; 9]), Err(DigSigProcErr::InvalidTelemetryData(_))));
    assert!(matches!(bools_to_int::to_u16(&[false; 17]), Err(DigSigProcErr::InvalidTelemetryData(_))));
    assert!(matches!(bools_to_int::to_u32(&[false; 33]), Err(DigSigProcErr::InvalidTelemetryData(_))));
    assert!(matches!(bools_to_int::to_i8(&[false; 9]), Err(DigSigProcErr::InvalidTelemetryData(_))));
    assert!(matches!(bools_to_int::to_i16(&[false; 17]), Err(DigSigProcErr::InvalidTelemetryData(_))));
    assert!(matches!(bools_to_int::to_i32(&[false; 33]), Err(DigSigProcErr::InvalidTelemetryData(_))));
    assert!(matches!(bools_to_int::to_i64(&[false; 65]), Err(DigSigProcErr::InvalidTelemetryData(_))));
}
