use trng::Interpreter;

#[test]
fn wrt_is_successful_test() {
    let code = r#"
            set Hello
            pbw 5
            wrt
            pfw 1
            wrt
            pfw 1
            wrt
            pfw 1
            wrt
            pfw 1
            wrt
            "#;

    let mut interpreter = Interpreter::default();
    let run_result = interpreter.run(code.as_bytes());

    assert!(!run_result.is_err());
}

#[test]
fn wra_is_successful_test() {
    let code = "
            set Hello
            pbw 5
            wra";

    let mut interpreter = Interpreter::default();
    let run_result = interpreter.run(code.as_bytes());

    assert!(!run_result.is_err());
}

#[test]
fn reset_is_successful_test() {
    let code = "set Hello";

    let mut interpreter = Interpreter::default();
    let run_result = interpreter.run(code.as_bytes());

    assert!(!run_result.is_err());

    interpreter.reset();

    assert_eq!(interpreter.get_data()[0], 0)
}

#[test]
fn run_emits_hello_test() {
    let code = "set Hello pbw 5 wra";

    let mut interpreter = Interpreter::default();
    interpreter.run(code.as_bytes()).unwrap();

    assert_eq!(interpreter.get_output().as_slice(), b"Hello");
}

#[test]
fn empty_loop_with_zero_cell_exits_at_once_test() {
    let code = "lop pol inc 7";

    let mut interpreter = Interpreter::default();
    interpreter.run(code.as_bytes()).unwrap();

    // The loop body ran zero times and execution carried on past the
    // loop-close: the increment after it still ran.
    assert_eq!(interpreter.get_data()[0], 7);
}

#[test]
fn countdown_loop_runs_body_cell_times_test() {
    // Cell 0 counts down from 5; cell 1 counts the passes.
    let code = "inc 5 lop pfw 1 inc 1 pbw 1 dec 1 pol";

    let mut interpreter = Interpreter::default();
    interpreter.run(code.as_bytes()).unwrap();

    assert_eq!(interpreter.get_data()[0], 0);
    assert_eq!(interpreter.get_data()[1], 5);
}

#[test]
fn unknown_token_fails_with_text_and_position_test() {
    let code = "pfw 1\nblorp";

    let mut interpreter = Interpreter::default();
    let err = interpreter.run(code.as_bytes()).unwrap_err();

    assert_eq!(
        err.description.as_str(),
        "Found unknown token 'blorp'. - ln: 2, col: 1"
    );
}

#[test]
fn missing_operand_fails_test() {
    let code = "pfw";

    let mut interpreter = Interpreter::default();
    let err = interpreter.run(code.as_bytes()).unwrap_err();

    assert_eq!(err.description.as_str(), "Expected 'num'. Found nothing instead.");
}

#[test]
fn wrong_kind_operand_fails_with_position_test() {
    let code = "inc wrt";

    let mut interpreter = Interpreter::default();
    let err = interpreter.run(code.as_bytes()).unwrap_err();

    assert_eq!(
        err.description.as_str(),
        "Expected 'num'. Found 'wrt' - ln: 1, col: 5"
    );
}

#[test]
fn unparsable_operand_fails_test() {
    let code = "inc 999";

    let mut interpreter = Interpreter::default();
    let err = interpreter.run(code.as_bytes()).unwrap_err();

    assert_eq!(
        err.description.as_str(),
        "Could not parse '999' as a numeric operand."
    );
}

#[test]
fn loop_close_without_open_fails_test() {
    let code = "pol";

    let mut interpreter = Interpreter::default();
    let err = interpreter.run(code.as_bytes()).unwrap_err();

    assert_eq!(
        err.description.as_str(),
        "Expected an index on the loop stack. Found nothing."
    );
}

#[test]
fn bare_numeric_literal_fails_test() {
    let code = "5";

    let mut interpreter = Interpreter::default();
    let err = interpreter.run(code.as_bytes()).unwrap_err();

    assert_eq!(err.description.as_str(), "Unexpected error.");
}

#[test]
fn move_backward_past_start_fails_and_keeps_tape_test() {
    let code = "pbw 1";

    let mut interpreter = Interpreter::default();
    let err = interpreter.run(code.as_bytes()).unwrap_err();

    assert_eq!(
        err.description.as_str(),
        "Tape Error [Index error]: Moving the pointer 1 step(s) backward would result in overshooting the tape."
    );
    assert_eq!(interpreter.get_data()[0], 0);
}

#[test]
fn cell_overflow_fails_with_overflow_error_test() {
    let code = "inc 200 inc 100";

    let mut interpreter = Interpreter::default();
    let err = interpreter.run(code.as_bytes()).unwrap_err();

    assert_eq!(
        err.description.as_str(),
        "Tape Error [Overflow error]: Adding 100 to the current cell value would result in an overflow."
    );
    // The failed increment changed nothing.
    assert_eq!(interpreter.get_data()[0], 200);
}

#[test]
fn typed_write_emits_decimal_text_test() {
    let code = "seti32 1031 pbw 4 wrti32";

    let mut interpreter = Interpreter::default();
    interpreter.run(code.as_bytes()).unwrap();

    assert_eq!(interpreter.get_output().as_slice(), b"1031");
}

#[test]
fn typed_write_negative_value_test() {
    let code = "seti16 -2 pbw 2 wrti16";

    let mut interpreter = Interpreter::default();
    interpreter.run(code.as_bytes()).unwrap();

    assert_eq!(interpreter.get_output().as_slice(), b"-2");
}

#[test]
fn typed_unsigned_round_trip_test() {
    let code = "setu64 18446744073709551615 pbw 8 wrtu64";

    let mut interpreter = Interpreter::default();
    interpreter.run(code.as_bytes()).unwrap();

    assert_eq!(interpreter.get_output().as_slice(), b"18446744073709551615");
}

#[test]
fn float_set_and_write_round_trip_test() {
    let code = "setf32 1.5 pbw 4 wrtf32";

    let mut interpreter = Interpreter::default();
    interpreter.run(code.as_bytes()).unwrap();

    assert_eq!(interpreter.get_output().as_slice(), b"1.5");
}

#[test]
fn float64_set_and_write_round_trip_test() {
    let code = "setf64 -2.25 pbw 8 wrtf64";

    let mut interpreter = Interpreter::default();
    interpreter.run(code.as_bytes()).unwrap();

    assert_eq!(interpreter.get_output().as_slice(), b"-2.25");
}

#[test]
fn float_operand_must_be_numeric_test() {
    let code = "setf32 abc";

    let mut interpreter = Interpreter::default();
    let err = interpreter.run(code.as_bytes()).unwrap_err();

    assert_eq!(
        err.description.as_str(),
        "Expected 'num'. Found 'abc' - ln: 1, col: 8"
    );
}

#[test]
fn rdi_reads_supplied_input_test() {
    let code = "rdi wrt";

    let mut interpreter = Interpreter::default();
    interpreter.set_input(b"Q".to_vec());
    interpreter.run(code.as_bytes()).unwrap();

    assert_eq!(interpreter.get_data()[0], b'Q');
    assert_eq!(interpreter.get_output().as_slice(), b"Q");
}

#[test]
fn rda_reads_line_into_tape_test() {
    let code = "rda pbw 2 wra";

    let mut interpreter = Interpreter::default();
    interpreter.set_input(b"Hi\nmore".to_vec());
    interpreter.run(code.as_bytes()).unwrap();

    assert_eq!(interpreter.get_output().as_slice(), b"Hi");
}

#[test]
fn clr_clears_string_test() {
    let code = "set Hi pbw 2 clr";

    let mut interpreter = Interpreter::default();
    interpreter.run(code.as_bytes()).unwrap();

    assert_eq!(interpreter.get_data()[0], 0);
    assert_eq!(interpreter.get_data()[1], 0);
}

#[test]
fn empty_source_is_a_successful_run_test() {
    let mut interpreter = Interpreter::default();

    let run_result = interpreter.run(b"");

    assert!(!run_result.is_err());
}

#[test]
fn interpreter_new_sizes_the_tape_test() {
    let interpreter = Interpreter::new(16);

    assert_eq!(interpreter.get_data().len(), 16);
}
