use test_generator::model::{Input, Assert, InputWithAsserts, InputListWithAsserts};
use test_generator::loader::{Field, LoadErrorKind};
use test_generator::assemble::{preamble, emit_tb};

fn simple(a: i64, b: i64, c: i64) -> Vec<Field> {
    vec![Field::Int(a), Field::Int(b), Field::Int(c)]
}

fn asserted(a: i64, b: i64, c: i64, list: Vec<i64>) -> Vec<Field> {
    vec![Field::Int(a), Field::Int(b), Field::Int(c), Field::List(list)]
}

fn entry(reset: bool, number: u8, first: bool) -> InputWithAsserts {
    InputWithAsserts { input: Input { reset, number, first }, asserts: None }
}

#[test]
fn loads_simple_element() {
    let arr = vec![simple(1, 5, 0)];
    let prog = InputListWithAsserts::from_fields(&arr).unwrap();
    assert_eq!(prog.inputs.len(), 1);
    assert!(prog.inputs[0].input.reset);
    assert_eq!(prog.inputs[0].input.number, 5);
    assert!(!prog.inputs[0].input.first);
    assert!(prog.inputs[0].asserts.is_none());
}

#[test]
fn loads_asserted_element() {
    let arr = vec![asserted(0, 255, 2, vec![7, 0])];
    let prog = InputListWithAsserts::from_fields(&arr).unwrap();
    assert_eq!(prog.inputs.len(), 1);
    assert!(!prog.inputs[0].input.reset);
    assert_eq!(prog.inputs[0].input.number, 255);
    assert!(prog.inputs[0].input.first);
    let asserts = prog.inputs[0].asserts.unwrap();
    assert!(asserts.unlock);
    assert!(!asserts.warning);
}

#[test]
fn rejects_out_of_range_number() {
    let arr = vec![simple(0, 256, 0)];
    let err = InputListWithAsserts::from_fields(&arr).unwrap_err();
    assert_eq!(err.index, 0);
    assert_eq!(err.kind, LoadErrorKind::ValueOutOfRange);
}

#[test]
fn rejects_negative_number() {
    let arr = vec![simple(0, -1, 0)];
    let err = InputListWithAsserts::from_fields(&arr).unwrap_err();
    assert_eq!(err.kind, LoadErrorKind::ValueOutOfRange);
}

#[test]
fn rejects_out_of_range_assert_entry() {
    let arr = vec![asserted(0, 1, 0, vec![0, 300])];
    let err = InputListWithAsserts::from_fields(&arr).unwrap_err();
    assert_eq!(err.kind, LoadErrorKind::ValueOutOfRange);
}

#[test]
fn rejects_short_assert_list() {
    let arr = vec![asserted(0, 1, 0, vec![1])];
    let err = InputListWithAsserts::from_fields(&arr).unwrap_err();
    assert_eq!(err.index, 0);
    assert_eq!(err.kind, LoadErrorKind::ShortAssertList);
}

#[test]
fn rejects_wrong_field_count() {
    let arr = vec![vec![Field::Int(0), Field::Int(1)]];
    let err = InputListWithAsserts::from_fields(&arr).unwrap_err();
    assert_eq!(err.kind, LoadErrorKind::WrongShape);

    let arr = vec![vec![
        Field::Int(0),
        Field::Int(1),
        Field::Int(0),
        Field::Int(2),
        Field::Int(3),
    ]];
    let err = InputListWithAsserts::from_fields(&arr).unwrap_err();
    assert_eq!(err.kind, LoadErrorKind::WrongShape);
}

#[test]
fn rejects_integer_fourth_field() {
    let arr = vec![vec![Field::Int(0), Field::Int(1), Field::Int(0), Field::Int(2)]];
    let err = InputListWithAsserts::from_fields(&arr).unwrap_err();
    assert_eq!(err.kind, LoadErrorKind::WrongShape);
}

#[test]
fn rejects_list_in_scalar_position() {
    let arr = vec![vec![Field::List(vec![1]), Field::Int(1), Field::Int(0)]];
    let err = InputListWithAsserts::from_fields(&arr).unwrap_err();
    assert_eq!(err.kind, LoadErrorKind::NonIntegerField);
}

#[test]
fn reports_first_failing_element() {
    let arr = vec![simple(0, 1, 0), simple(0, 999, 0), vec![Field::Int(0)]];
    let err = InputListWithAsserts::from_fields(&arr).unwrap_err();
    assert_eq!(err.index, 1);
    assert_eq!(err.kind, LoadErrorKind::ValueOutOfRange);
}

#[test]
fn error_kinds_describe_themselves() {
    assert_eq!(
        LoadErrorKind::ValueOutOfRange.describe(),
        "integer value lies outside the range 0 to 255"
    );
    assert_eq!(
        LoadErrorKind::ShortAssertList.describe(),
        "nested assertion list has fewer than two entries"
    );
    assert_eq!(
        LoadErrorKind::WrongShape.describe(),
        "element is not three integers optionally followed by a nested list"
    );
    assert_eq!(
        LoadErrorKind::NonIntegerField.describe(),
        "element has a non-integer value among its first three fields"
    );
}

#[test]
fn emits_number_as_two_hex_digits() {
    assert_eq!(Input { reset: false, number: 0, first: false }.emit_number(), "\tnumber <= x\"00\";");
    assert_eq!(Input { reset: false, number: 36, first: false }.emit_number(), "\tnumber <= x\"24\";");
    assert_eq!(
        Input { reset: false, number: 255, first: false }.emit_number(),
        "\tnumber <= x\"ff\";"
    );
}

#[test]
fn emits_bit_assignments() {
    let i = Input { reset: true, number: 0, first: false };
    assert_eq!(i.emit_reset(), "\treset <= '1';");
    assert_eq!(i.emit_first(), "\tfirst <= '0';");
}

#[test]
fn first_cycle_emits_all_three_assignments() {
    let i = Input { reset: false, number: 16, first: true };
    assert_eq!(i.emit(), "\treset <= '0';\n\tnumber <= x\"10\";\n\tfirst <= '1';\n");
}

#[test]
fn unchanged_cycle_emits_no_assignments() {
    let i = Input { reset: true, number: 9, first: false };
    assert_eq!(i.emit_diff(&i), "");
}

#[test]
fn changed_field_alone_is_reemitted() {
    let prev = Input { reset: false, number: 9, first: false };
    assert_eq!(Input { reset: true, number: 9, first: false }.emit_diff(&prev), "\treset <= '1';\n");
    assert_eq!(
        Input { reset: false, number: 10, first: false }.emit_diff(&prev),
        "\tnumber <= x\"0a\";\n"
    );
    assert_eq!(Input { reset: false, number: 9, first: true }.emit_diff(&prev), "\tfirst <= '1';\n");
}

#[test]
fn assertions_follow_the_wait() {
    let e = InputWithAsserts {
        input: Input { reset: false, number: 1, first: false },
        asserts: Some(Assert { unlock: true, warning: false }),
    };
    assert_eq!(
        e.emit(),
        "\treset <= '0';\n\tnumber <= x\"01\";\n\tfirst <= '0';\n\tWAIT FOR CLK_PERIOD;\n\tASSERT unlock = '1' REPORT \"Unlock error\" SEVERITY error;\n\tASSERT warning = '0' REPORT \"Warning error\" SEVERITY error;\n"
    );
}

#[test]
fn entry_without_check_emits_no_assertions() {
    let e = entry(false, 1, false);
    assert_eq!(e.emit(), "\treset <= '0';\n\tnumber <= x\"01\";\n\tfirst <= '0';\n\tWAIT FOR CLK_PERIOD;\n");
}

#[test]
fn empty_program_is_stop_only() {
    let prog = InputListWithAsserts { inputs: vec![] };
    assert_eq!(prog.emit(), "\nSTOP;\n");
}

#[test]
fn steady_program_emits_one_assignment_block() {
    let e = entry(false, 7, true);
    let prog = InputListWithAsserts { inputs: vec![e, e, e] };
    assert_eq!(
        prog.emit(),
        "\treset <= '0';\n\tnumber <= x\"07\";\n\tfirst <= '1';\n\tWAIT FOR CLK_PERIOD;\n\tWAIT FOR CLK_PERIOD;\n\tWAIT FOR CLK_PERIOD;\n\nSTOP;\n"
    );
}

#[test]
fn compiles_scenario_program() {
    let arr = vec![
        simple(0, 36, 1),
        simple(0, 19, 0),
        asserted(0, 255, 0, vec![0, 0]),
    ];
    let prog = InputListWithAsserts::from_fields(&arr).unwrap();
    let expected = "\treset <= '0';\n\tnumber <= x\"24\";\n\tfirst <= '1';\n\tWAIT FOR CLK_PERIOD;\n\tnumber <= x\"13\";\n\tfirst <= '0';\n\tWAIT FOR CLK_PERIOD;\n\tnumber <= x\"ff\";\n\tWAIT FOR CLK_PERIOD;\n\tASSERT unlock = '0' REPORT \"Unlock error\" SEVERITY error;\n\tASSERT warning = '0' REPORT \"Warning error\" SEVERITY error;\n\nSTOP;\n";
    assert_eq!(prog.emit(), expected);
}

#[test]
fn preamble_inserts_name_three_times() {
    let p = preamble("my_tb");
    assert!(p.starts_with("\nLIBRARY IEEE;\nUSE IEEE.STD_LOGIC_1164.ALL;\n"));
    assert!(p.contains("ENTITY my_tb IS\nEND my_tb;\n\nARCHITECTURE behavior OF my_tb IS\n"));
    assert!(p.ends_with("    reset <= '1';\n    WAIT FOR CLK_PERIOD; \n"));
    assert_eq!(p.matches("my_tb").count(), 3);
}

#[test]
fn testbench_wraps_stimulus_in_header_and_footer() {
    let prog = InputListWithAsserts { inputs: vec![entry(true, 2, false)] };
    let tb = emit_tb(prog, "wrap_tb");
    let head = preamble("wrap_tb");
    let stimulus = "\treset <= '1';\n\tnumber <= x\"02\";\n\tfirst <= '0';\n\tWAIT FOR CLK_PERIOD;\n\nSTOP;\n";
    let mut expected = String::new();
    expected.push_str(&head);
    expected.push_str(stimulus);
    expected.push_str("END process;\nEND behavior;\n");
    assert_eq!(tb, expected);
}
