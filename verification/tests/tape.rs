use trng::tape::{Tape, TapeErrorType};

#[test]
fn tape_pfw_by_1_equals_current_plus_1_test() {
    let mut tape = Tape::default();

    tape.pfw(1).unwrap();

    assert_eq!(tape.ptr_index, 1);
}

#[test]
#[should_panic]
fn tape_pfw_by_200000_panics_test() {
    let mut tape = Tape::default();

    tape.pfw(200000).unwrap();
}

#[test]
fn tape_pbw_by_n_equals_current_minus_n_test() {
    let mut tape = Tape::default();

    let fwd: usize = 20;
    let bwd: usize = 5;

    tape.pfw(fwd).unwrap();
    tape.pbw(bwd).unwrap();

    assert_eq!(tape.ptr_index, fwd - bwd);
}

#[test]
fn tape_inc_by_n_equals_cell_value_plus_n_test() {
    let mut tape = Tape::default();

    let by: u8 = 72;

    let value_before = tape.data[tape.ptr_index];
    tape.inc(by).unwrap();
    let value_after = tape.data[tape.ptr_index];

    assert_eq!(value_after, value_before + by);
}

#[test]
fn tape_dec_by_n_equals_cell_value_plus_n_test() {
    let mut tape = Tape::default();

    tape.inc(100).unwrap();
    let by: u8 = 50;
    tape.dec(by).unwrap();
    let value_after = tape.get_current_value();

    assert_eq!(value_after.unwrap(), 50);
}

#[test]
#[should_panic]
fn tape_dec_panics_test() {
    let mut tape = Tape::default();
    let by: u8 = 1;
    tape.dec(by).unwrap();
    let value_after = tape.get_current_value();

    assert_eq!(value_after.unwrap(), 50);
}

#[test]
fn wrt_successful_test() {
    let mut tape = Tape::default();
    tape.inc(72).unwrap();
    let res = tape.wrt();

    assert!(!res.is_err());
}

#[test]
fn wrti_successful_test() {
    let mut tape = Tape::default();
    tape.inc(255).unwrap();
    let res = tape.wrti8();

    assert!(!res.is_err());
}

#[test]
fn wrti8_successful_test() {
    let mut tape = Tape::default();
    tape.inc(127).unwrap();
    let res = tape.wrti8();

    assert!(!res.is_err());
}

#[test]
fn wrti16_successful_test() {
    let mut tape = Tape::default();
    tape.inc(16).unwrap();
    tape.pfw(1).unwrap();
    tape.inc(16).unwrap();
    tape.pbw(1).unwrap();
    let res = tape.wrti16();

    assert!(!res.is_err());
}

#[test]
fn wrti32_successful_test() {
    let mut tape = Tape::default();
    tape.inc(16).unwrap();
    tape.pfw(1).unwrap();
    tape.inc(16).unwrap();
    tape.pfw(1).unwrap();
    tape.inc(16).unwrap();
    tape.pbw(2).unwrap();
    let res = tape.wrti32();

    assert!(!res.is_err());
}

#[test]
fn wrti64_successful_test() {
    let mut tape = Tape::default();
    tape.inc(1).unwrap();
    tape.pfw(1).unwrap();
    tape.inc(0).unwrap();
    tape.pfw(1).unwrap();
    tape.inc(0).unwrap();
    tape.pfw(1).unwrap();
    tape.inc(0).unwrap();
    tape.pfw(1).unwrap();
    tape.inc(0).unwrap();
    tape.pfw(1).unwrap();
    tape.inc(0).unwrap();
    tape.pfw(1).unwrap();
    tape.inc(0).unwrap();
    tape.pfw(1).unwrap();
    tape.inc(0).unwrap();
    tape.pbw(7).unwrap();
    let res = tape.wrti64();

    assert!(!res.is_err());
}

#[test]
fn wrtu8_successful_test() {
    let mut tape = Tape::default();
    tape.inc(255).unwrap();
    let res = tape.wrtu8();

    assert!(!res.is_err());
}

#[test]
fn wrtu16_successful_test() {
    let mut tape = Tape::default();
    tape.inc(16).unwrap();
    tape.pfw(1).unwrap();
    tape.inc(16).unwrap();
    tape.pbw(1).unwrap();
    let res = tape.wrtu16();

    assert!(!res.is_err());
}

#[test]
fn wrtu32_successful_test() {
    let mut tape = Tape::default();
    tape.inc(0).unwrap();
    tape.pfw(1).unwrap();
    tape.inc(0).unwrap();
    tape.pfw(1).unwrap();
    tape.inc(0).unwrap();
    tape.pfw(1).unwrap();
    tape.inc(1).unwrap();
    tape.pbw(3).unwrap();
    let res = tape.wrtu32();

    assert!(!res.is_err());
}

#[test]
fn wrtu64_successful_test() {
    let mut tape = Tape::default();
    tape.inc(1).unwrap();
    tape.pfw(1).unwrap();
    tape.inc(0).unwrap();
    tape.pfw(1).unwrap();
    tape.inc(0).unwrap();
    tape.pfw(1).unwrap();
    tape.inc(0).unwrap();
    tape.pfw(1).unwrap();
    tape.inc(0).unwrap();
    tape.pfw(1).unwrap();
    tape.inc(0).unwrap();
    tape.pfw(1).unwrap();
    tape.inc(0).unwrap();
    tape.pfw(1).unwrap();
    tape.inc(0).unwrap();
    tape.pbw(7).unwrap();
    let res = tape.wrtu64();

    assert!(!res.is_err());
}

#[test]
fn wrtf32_successful_test() {
    let mut tape = Tape::default();
    tape.inc(0).unwrap();
    tape.pfw(1).unwrap();
    tape.inc(0).unwrap();
    tape.pfw(1).unwrap();
    tape.inc(0).unwrap();
    tape.pfw(1).unwrap();
    tape.inc(1).unwrap();
    tape.pbw(3).unwrap();
    let res = tape.wrtf32();

    assert!(!res.is_err());
}

#[test]
fn wrtf64_successful_test() {
    let mut tape = Tape::default();
    tape.inc(255).unwrap();
    tape.pfw(1).unwrap();
    tape.inc(0).unwrap();
    tape.pfw(1).unwrap();
    tape.inc(0).unwrap();
    tape.pfw(1).unwrap();
    tape.inc(0).unwrap();
    tape.pfw(1).unwrap();
    tape.inc(0).unwrap();
    tape.pfw(1).unwrap();
    tape.inc(0).unwrap();
    tape.pfw(1).unwrap();
    tape.inc(255).unwrap();
    tape.pfw(1).unwrap();
    tape.inc(255).unwrap();
    tape.pbw(7).unwrap();
    let res = tape.wrtf64();

    assert!(!res.is_err());
}

#[test]
fn set_successful_test() {
    let mut tape = Tape::default();
    let res = tape.set("Hello");

    assert!(!res.is_err())
}

#[test]
fn seti8_successful_test() {
    let mut tape = Tape::default();
    let res = tape.seti8(127);

    assert!(!res.is_err())
}

#[test]
fn seti16_successful_test() {
    let mut tape = Tape::default();
    let res = tape.seti16(1031);

    assert!(!res.is_err())
}

#[test]
fn seti32_successful_test() {
    let mut tape = Tape::default();
    let res = tape.seti32(i32::MAX);

    assert!(!res.is_err())
}

#[test]
fn seti64_successful_test() {
    let mut tape = Tape::default();
    let res = tape.seti64(i64::MAX);

    assert!(!res.is_err())
}

#[test]
fn setu8_successful_test() {
    let mut tape = Tape::default();
    let res = tape.setu8(127);

    assert!(!res.is_err())
}

#[test]
fn setu16_successful_test() {
    let mut tape = Tape::default();
    let res = tape.setu16(1031);

    assert!(!res.is_err())
}

#[test]
fn setu32_successful_test() {
    let mut tape = Tape::default();
    let res = tape.setu32(u32::MAX);

    assert!(!res.is_err())
}

#[test]
fn setu64_successful_test() {
    let mut tape = Tape::default();
    let res = tape.setu64(u64::MAX);

    assert!(!res.is_err())
}

#[test]
fn wra_successful_test() {
    let mut tape = Tape::default();

    let mut res = tape.set("Hello");
    assert!(!res.is_err());

    tape.pbw(5).unwrap();
    res = tape.wra();

    assert!(!res.is_err())
}

#[test]
fn rda_successful_test() {
    let mut tape = Tape::default();

    let res = tape.rda();

    assert!(!res.is_err())
}

#[test]
fn clr_successful_test() {
    let mut tape = Tape::default();

    let res = tape.set("Hello");
    assert!(!res.is_err());

    tape.pbw(5).unwrap();
    tape.clr().unwrap();

    assert_eq!(tape.get_current_value().unwrap(), 0)
}

#[test]
fn reset_successful_test() {
    let mut tape = Tape::default();

    tape.set("Hellooooooooooooooooooooooooooooooooooo!").unwrap();

    tape.reset();

    assert_eq!(tape.get_current_value().unwrap(), 0);
}

#[test]
fn wra_emits_exact_run_test() {
    let mut tape = Tape::default();

    tape.set("Hello").unwrap();
    tape.pbw(5).unwrap();
    tape.wra().unwrap();

    assert_eq!(tape.output.as_slice(), b"Hello");
    assert_eq!(tape.ptr_index, 5);
    assert_eq!(tape.get_current_value().unwrap(), 0);
}

#[test]
fn clr_zeroes_run_and_parks_pointer_test() {
    let mut tape = Tape::default();

    tape.set("Hi").unwrap();
    tape.pbw(2).unwrap();
    tape.clr().unwrap();

    assert_eq!(tape.data[0], 0);
    assert_eq!(tape.data[1], 0);
    assert_eq!(tape.ptr_index, 2);
}

#[test]
fn pbw_past_zero_fails_with_index_and_moves_nothing_test() {
    let mut tape = Tape::new(10);

    let res = tape.pbw(1);

    let err = res.unwrap_err();
    assert!(matches!(err.error_type(), TapeErrorType::Index));
    assert_eq!(tape.ptr_index, 0);
}

#[test]
fn pfw_past_capacity_fails_with_index_and_moves_nothing_test() {
    let mut tape = Tape::new(10);

    tape.pfw(3).unwrap();
    let res = tape.pfw(7);

    let err = res.unwrap_err();
    assert!(matches!(err.error_type(), TapeErrorType::Index));
    assert_eq!(
        err.description().as_str(),
        "Moving the pointer 7 step(s) forward would result in overshooting the tape."
    );
    assert_eq!(tape.ptr_index, 3);
}

#[test]
fn inc_overflow_fails_with_overflow_test() {
    let mut tape = Tape::new(10);

    tape.inc(200).unwrap();
    let res = tape.inc(100);

    let err = res.unwrap_err();
    assert!(matches!(err.error_type(), TapeErrorType::Overflow));
    assert_eq!(tape.get_current_value().unwrap(), 200);
}

#[test]
fn dec_underflow_fails_with_overflow_test() {
    let mut tape = Tape::new(10);

    let res = tape.dec(1);

    let err = res.unwrap_err();
    assert!(matches!(err.error_type(), TapeErrorType::Overflow));
    assert_eq!(
        err.description().as_str(),
        "Subtracting 1 from the current cell value would result in an overflow."
    );
}

#[test]
fn move_round_trip_restores_pointer_test() {
    let mut tape = Tape::new(100);

    tape.pfw(42).unwrap();
    tape.pbw(42).unwrap();

    assert_eq!(tape.ptr_index, 0);
}

#[test]
fn cell_round_trip_restores_value_test() {
    let mut tape = Tape::new(100);

    tape.inc(7).unwrap();
    tape.inc(100).unwrap();
    tape.dec(100).unwrap();

    assert_eq!(tape.get_current_value().unwrap(), 7);
}

#[test]
fn wrti8_emits_signed_decimal_text_test() {
    let mut tape = Tape::new(10);

    tape.inc(255).unwrap();
    tape.wrti8().unwrap();

    assert_eq!(tape.output.as_slice(), b"-1");
}

#[test]
fn wrtu16_emits_unsigned_decimal_text_test() {
    let mut tape = Tape::new(10);

    tape.setu16(1031).unwrap();
    tape.pbw(2).unwrap();
    tape.wrtu16().unwrap();

    assert_eq!(tape.output.as_slice(), b"1031");
}

#[test]
fn seti32_writes_big_endian_bytes_test() {
    let mut tape = Tape::new(10);

    tape.seti32(0x01020304).unwrap();

    assert_eq!(tape.data[0], 1);
    assert_eq!(tape.data[1], 2);
    assert_eq!(tape.data[2], 3);
    assert_eq!(tape.data[3], 4);
    assert_eq!(tape.ptr_index, 4);
}

#[test]
fn wrtf32_emits_float_decimal_text_test() {
    let mut tape = Tape::new(10);

    // 1.5f32 is 0x3FC00000 big-endian.
    tape.setu8(0x3f).unwrap();
    tape.setu8(0xc0).unwrap();
    tape.setu8(0x00).unwrap();
    tape.setu8(0x00).unwrap();
    tape.pbw(4).unwrap();
    tape.wrtf32().unwrap();

    assert_eq!(tape.output.as_slice(), b"1.5");
}

#[test]
fn wrtf64_emits_float_decimal_text_test() {
    let mut tape = Tape::new(10);

    // 2.0f64 is 0x4000000000000000 big-endian.
    tape.setu8(0x40).unwrap();
    tape.pfw(7).unwrap();
    tape.pbw(8).unwrap();
    tape.wrtf64().unwrap();

    assert_eq!(tape.output.as_slice(), b"2");
}

#[test]
fn rdi_stores_one_byte_without_moving_test() {
    let mut tape = Tape::new(10);

    tape.input = b"AB".to_vec();
    tape.rdi().unwrap();

    assert_eq!(tape.get_current_value().unwrap(), b'A');
    assert_eq!(tape.ptr_index, 0);

    tape.rdi().unwrap();
    assert_eq!(tape.get_current_value().unwrap(), b'B');
}

#[test]
fn rdi_at_end_of_input_is_a_no_op_test() {
    let mut tape = Tape::new(10);

    tape.rdi().unwrap();

    assert_eq!(tape.get_current_value().unwrap(), 0);
    assert_eq!(tape.ptr_index, 0);
}

#[test]
fn rda_reads_line_without_storing_the_line_feed_test() {
    let mut tape = Tape::new(10);

    tape.input = b"Hi\nrest".to_vec();
    tape.rda().unwrap();

    assert_eq!(tape.data[0], b'H');
    assert_eq!(tape.data[1], b'i');
    assert_eq!(tape.data[2], 0);
    assert_eq!(tape.ptr_index, 2);
    assert_eq!(tape.input_pos, 3);
}
