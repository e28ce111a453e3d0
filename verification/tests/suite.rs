use trng::tape::Tape;
use trng::Interpreter;

#[test]
fn tape_tape_pfw_by_1_equals_current_plus_1_test() {
    let mut tape = Tape::default();

    tape.pfw(1).unwrap();

    assert_eq!(tape.ptr_index, 1);
}

#[test]
fn tape_tape_pbw_by_n_equals_current_minus_n_test() {
    let mut tape = Tape::default();

    let fwd: usize = 20;
    let bwd: usize = 5;

    tape.pfw(fwd).unwrap();
    tape.pbw(bwd).unwrap();

    assert_eq!(tape.ptr_index, fwd - bwd);
}

#[test]
fn tape_tape_inc_by_n_equals_cell_value_plus_n_test() {
    let mut tape = Tape::default();

    let by: u8 = 72;

    let value_before = tape.data[tape.ptr_index];
    tape.inc(by).unwrap();
    let value_after = tape.data[tape.ptr_index];

    assert_eq!(value_after, value_before + by);
}

#[test]
fn tape_tape_dec_by_n_equals_cell_value_plus_n_test() {
    let mut tape = Tape::default();

    tape.inc(100).unwrap();
    let by: u8 = 50;
    tape.dec(by).unwrap();
    let value_after = tape.get_current_value();

    assert_eq!(value_after.unwrap(), 50);
}

#[test]
fn tape_set_successful_test() {
    let mut tape = Tape::default();
    let res = tape.set("Hello");

    assert!(!res.is_err())
}

#[test]
fn tape_clr_successful_test() {
    let mut tape = Tape::default();

    let res = tape.set("Hello");
    assert!(!res.is_err());

    tape.pbw(5).unwrap();
    tape.clr().unwrap();

    assert_eq!(tape.get_current_value().unwrap(), 0)
}

#[test]
fn mod_tape_pfw_by_1_equals_current_plus_1_test() {
    let mut tape = Tape::default();

    tape.pfw(1).unwrap();

    assert_eq!(tape.ptr_index, 1);
}

#[test]
fn mod_tape_pbw_by_n_equals_current_minus_n_test() {
    let mut tape = Tape::default();

    let fwd: usize = 20;
    let bwd: usize = 5;

    tape.pfw(fwd).unwrap();
    tape.pbw(bwd).unwrap();

    assert_eq!(tape.ptr_index, fwd - bwd);
}

#[test]
fn mod_tape_inc_by_n_equals_cell_value_plus_n_test() {
    let mut tape = Tape::default();

    let by: u8 = 72;

    let value_before = tape.data[tape.ptr_index];
    tape.inc(by).unwrap();
    let value_after = tape.data[tape.ptr_index];

    assert_eq!(value_after, value_before + by);
}

#[test]
fn mod_tape_dec_by_n_equals_cell_value_plus_n_test() {
    let mut tape = Tape::default();

    tape.inc(100).unwrap();
    let by: u8 = 50;
    tape.dec(by).unwrap();
    let value_after = tape.get_current_value();

    assert_eq!(value_after.unwrap(), 50);
}

#[test]
fn mod_set_successful_test() {
    let mut tape = Tape::default();
    let res = tape.set("Hello");

    assert!(!res.is_err())
}

#[test]
fn mod_clr_successful_test() {
    let mut tape = Tape::default();

    let res = tape.set("Hello");
    assert!(!res.is_err());

    tape.pbw(5).unwrap();
    tape.clr().unwrap();

    assert_eq!(tape.get_current_value().unwrap(), 0)
}

#[test]
fn tape_wrti8_successful_test() {
    let mut tape = Tape::default();
    tape.inc(127).unwrap();
    let res = tape.wrti8();

    assert!(!res.is_err());
}

#[test]
fn tape_wrti16_successful_test() {
    let mut tape = Tape::default();
    tape.inc(16).unwrap();
    tape.pfw(1).unwrap();
    tape.inc(16).unwrap();
    tape.pbw(1).unwrap();
    let res = tape.wrti16();

    assert!(!res.is_err());
}

#[test]
fn tape_wrti32_successful_test() {
    let mut tape = Tape::default();
    tape.inc(16).unwrap();
    tape.pfw(1).unwrap();
    tape.inc(16).unwrap();
    tape.pfw(1).unwrap();
    tape.inc(16).unwrap();
    tape.pbw(2).unwrap();
    let res = tape.wrti32();

    assert!(!res.is_err());
}

#[test]
fn tape_wrti64_successful_test() {
    let mut tape = Tape::default();
    tape.inc(1).unwrap();
    tape.pfw(1).unwrap();
    tape.inc(0).unwrap();
    tape.pfw(1).unwrap();
    tape.inc(0).unwrap();
    tape.pfw(1).unwrap();
    tape.inc(0).unwrap();
    tape.pfw(1).unwrap();
    tape.inc(0).unwrap();
    tape.pfw(1).unwrap();
    tape.inc(0).unwrap();
    tape.pfw(1).unwrap();
    tape.inc(0).unwrap();
    tape.pfw(1).unwrap();
    tape.inc(0).unwrap();
    tape.pbw(7).unwrap();
    let res = tape.wrti64();

    assert!(!res.is_err());
}

#[test]
fn mod_wrti8_successful_test() {
    let mut tape = Tape::default();
    tape.inc(127).unwrap();
    let res = tape.wrti8();

    assert!(!res.is_err());
}

#[test]
fn mod_wrti16_successful_test() {
    let mut tape = Tape::default();
    tape.inc(16).unwrap();
    tape.pfw(1).unwrap();
    tape.inc(16).unwrap();
    tape.pbw(1).unwrap();
    let res = tape.wrti16();

    assert!(!res.is_err());
}

#[test]
fn mod_wrti32_successful_test() {
    let mut tape = Tape::default();
    tape.inc(16).unwrap();
    tape.pfw(1).unwrap();
    tape.inc(16).unwrap();
    tape.pfw(1).unwrap();
    tape.inc(16).unwrap();
    tape.pbw(2).unwrap();
    let res = tape.wrti32();

    assert!(!res.is_err());
}

#[test]
fn mod_wrti64_successful_test() {
    let mut tape = Tape::default();
    tape.inc(1).unwrap();
    tape.pfw(1).unwrap();
    tape.inc(0).unwrap();
    tape.pfw(1).unwrap();
    tape.inc(0).unwrap();
    tape.pfw(1).unwrap();
    tape.inc(0).unwrap();
    tape.pfw(1).unwrap();
    tape.inc(0).unwrap();
    tape.pfw(1).unwrap();
    tape.inc(0).unwrap();
    tape.pfw(1).unwrap();
    tape.inc(0).unwrap();
    tape.pfw(1).unwrap();
    tape.inc(0).unwrap();
    tape.pbw(7).unwrap();
    let res = tape.wrti64();

    assert!(!res.is_err());
}

#[test]
fn tape_wrtu8_successful_test() {
    let mut tape = Tape::default();
    tape.inc(255).unwrap();
    let res = tape.wrtu8();

    assert!(!res.is_err());
}

#[test]
fn tape_wrtu16_successful_test() {
    let mut tape = Tape::default();
    tape.inc(16).unwrap();
    tape.pfw(1).unwrap();
    tape.inc(16).unwrap();
    tape.pbw(1).unwrap();
    let res = tape.wrtu16();

    assert!(!res.is_err());
}

#[test]
fn tape_wrtu32_successful_test() {
    let mut tape = Tape::default();
    tape.inc(0).unwrap();
    tape.pfw(1).unwrap();
    tape.inc(0).unwrap();
    tape.pfw(1).unwrap();
    tape.inc(0).unwrap();
    tape.pfw(1).unwrap();
    tape.inc(1).unwrap();
    tape.pbw(3).unwrap();
    let res = tape.wrtu32();

    assert!(!res.is_err());
}

#[test]
fn tape_wrtu64_successful_test() {
    let mut tape = Tape::default();
    tape.inc(1).unwrap();
    tape.pfw(1).unwrap();
    tape.inc(0).unwrap();
    tape.pfw(1).unwrap();
    tape.inc(0).unwrap();
    tape.pfw(1).unwrap();
    tape.inc(0).unwrap();
    tape.pfw(1).unwrap();
    tape.inc(0).unwrap();
    tape.pfw(1).unwrap();
    tape.inc(0).unwrap();
    tape.pfw(1).unwrap();
    tape.inc(0).unwrap();
    tape.pfw(1).unwrap();
    tape.inc(0).unwrap();
    tape.pbw(7).unwrap();
    let res = tape.wrtu64();

    assert!(!res.is_err());
}

#[test]
fn mod_wrtu8_successful_test() {
    let mut tape = Tape::default();
    tape.inc(255).unwrap();
    let res = tape.wrtu8();

    assert!(!res.is_err());
}

#[test]
fn mod_wrtu16_successful_test() {
    let mut tape = Tape::default();
    tape.inc(16).unwrap();
    tape.pfw(1).unwrap();
    tape.inc(16).unwrap();
    tape.pbw(1).unwrap();
    let res = tape.wrtu16();

    assert!(!res.is_err());
}

#[test]
fn mod_wrtu32_successful_test() {
    let mut tape = Tape::default();
    tape.inc(0).unwrap();
    tape.pfw(1).unwrap();
    tape.inc(0).unwrap();
    tape.pfw(1).unwrap();
    tape.inc(0).unwrap();
    tape.pfw(1).unwrap();
    tape.inc(1).unwrap();
    tape.pbw(3).unwrap();
    let res = tape.wrtu32();

    assert!(!res.is_err());
}

#[test]
fn mod_wrtu64_successful_test() {
    let mut tape = Tape::default();
    tape.inc(1).unwrap();
    tape.pfw(1).unwrap();
    tape.inc(0).unwrap();
    tape.pfw(1).unwrap();
    tape.inc(0).unwrap();
    tape.pfw(1).unwrap();
    tape.inc(0).unwrap();
    tape.pfw(1).unwrap();
    tape.inc(0).unwrap();
    tape.pfw(1).unwrap();
    tape.inc(0).unwrap();
    tape.pfw(1).unwrap();
    tape.inc(0).unwrap();
    tape.pfw(1).unwrap();
    tape.inc(0).unwrap();
    tape.pbw(7).unwrap();
    let res = tape.wrtu64();

    assert!(!res.is_err());
}

#[test]
fn tape_wrtf32_successful_test() {
    let mut tape = Tape::default();
    tape.inc(0).unwrap();
    tape.pfw(1).unwrap();
    tape.inc(0).unwrap();
    tape.pfw(1).unwrap();
    tape.inc(0).unwrap();
    tape.pfw(1).unwrap();
    tape.inc(1).unwrap();
    tape.pbw(3).unwrap();
    let res = tape.wrtf32();

    assert!(!res.is_err());
}

#[test]
fn tape_wrtf64_successful_test() {
    let mut tape = Tape::default();
    tape.inc(255).unwrap();
    tape.pfw(1).unwrap();
    tape.inc(0).unwrap();
    tape.pfw(1).unwrap();
    tape.inc(0).unwrap();
    tape.pfw(1).unwrap();
    tape.inc(0).unwrap();
    tape.pfw(1).unwrap();
    tape.inc(0).unwrap();
    tape.pfw(1).unwrap();
    tape.inc(0).unwrap();
    tape.pfw(1).unwrap();
    tape.inc(255).unwrap();
    tape.pfw(1).unwrap();
    tape.inc(255).unwrap();
    tape.pbw(7).unwrap();
    let res = tape.wrtf64();

    assert!(!res.is_err());
}

#[test]
fn mod_wrtf32_successful_test() {
    let mut tape = Tape::default();
    tape.inc(0).unwrap();
    tape.pfw(1).unwrap();
    tape.inc(0).unwrap();
    tape.pfw(1).unwrap();
    tape.inc(0).unwrap();
    tape.pfw(1).unwrap();
    tape.inc(1).unwrap();
    tape.pbw(3).unwrap();
    let res = tape.wrtf32();

    assert!(!res.is_err());
}

#[test]
fn mod_wrtf64_successful_test() {
    let mut tape = Tape::default();
    tape.inc(255).unwrap();
    tape.pfw(1).unwrap();
    tape.inc(0).unwrap();
    tape.pfw(1).unwrap();
    tape.inc(0).unwrap();
    tape.pfw(1).unwrap();
    tape.inc(0).unwrap();
    tape.pfw(1).unwrap();
    tape.inc(0).unwrap();
    tape.pfw(1).unwrap();
    tape.inc(0).unwrap();
    tape.pfw(1).unwrap();
    tape.inc(255).unwrap();
    tape.pfw(1).unwrap();
    tape.inc(255).unwrap();
    tape.pbw(7).unwrap();
    let res = tape.wrtf64();

    assert!(!res.is_err());
}

#[test]
fn tape_reset_successful_test() {
    let mut tape = Tape::default();

    tape.set("Hellooooooooooooooooooooooooooooooooooo!").unwrap();

    tape.reset();

    assert_eq!(tape.get_current_value().unwrap(), 0);
}

#[test]
fn mod_reset_successful_test() {
    let mut tape = Tape::default();

    tape.set("Hellooooooooooooooooooooooooooooooooooo!").unwrap();

    tape.reset();

    assert_eq!(tape.get_current_value().unwrap(), 0);
}

#[test]
fn tape_wrti_successful_test() {
    let mut tape = Tape::default();
    tape.inc(255).unwrap();
    let res = tape.wrti8();

    assert!(!res.is_err());
}

#[test]
fn interpreter_wrt_is_successful_test() {
    let code = r#"
            set Hello
            pbw 5
            wrt
            pfw 1
            wrt
            pfw 1
            wrt
            pfw 1
            wrt
            pfw 1
            wrt
            "#;

    let mut interpreter = Interpreter::default();
    let run_result = interpreter.run(code.as_bytes());

    assert!(!run_result.is_err());
}

#[test]
fn interpreter_wra_is_successful_test() {
    let code = "
            set Hello
            pbw 5
            wra";

    let mut interpreter = Interpreter::default();
    let run_result = interpreter.run(code.as_bytes());

    assert!(!run_result.is_err());
}
