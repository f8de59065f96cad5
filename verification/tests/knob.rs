use yadgar_project::knob::{parse_port_number, project_db_port, required_knob, NumberError};

#[test]
fn a_set_value_is_returned_verbatim() {
    assert_eq!(
        required_knob("YADGAR_TEST_REQUIRED_PRESENT", Some("0.0.0.0:8080".to_string())).as_deref(),
        Ok("0.0.0.0:8080")
    );
}

#[test]
fn an_absent_knob_refuses_and_names_itself() {
    let err = required_knob("YADGAR_TEST_REQUIRED_ABSENT", None).unwrap_err();
    assert!(
        err.contains("YADGAR_TEST_REQUIRED_ABSENT"),
        "the refusal must name the knob, got: {err}"
    );
    assert!(err.contains("NOT SET"), "got: {err}");
}

#[test]
fn an_empty_knob_refuses_with_its_own_message() {
    let empty = required_knob("YADGAR_TEST_REQUIRED_EMPTY", Some(String::new())).unwrap_err();
    let absent = required_knob("YADGAR_TEST_REQUIRED_EMPTY_ABSENT", None).unwrap_err();
    assert!(empty.contains("set but EMPTY"), "got: {empty}");
    assert!(
        empty.replace("YADGAR_TEST_REQUIRED_EMPTY", "K")
            != absent.replace("YADGAR_TEST_REQUIRED_EMPTY_ABSENT", "K"),
        "empty and absent must not share one message"
    );
}

#[test]
fn the_refusals_read_in_full() {
    assert_eq!(
        required_knob("LISTEN", Some(String::new())).unwrap_err(),
        "LISTEN is set but EMPTY. It has no compiled-in default (ADR-0569), so there is \
         nothing to fall back to. The chart renders it; a values override that nulls it \
         produces exactly this."
    );
    assert_eq!(
        required_knob("LISTEN", None).unwrap_err(),
        "LISTEN is NOT SET. It has no compiled-in default (ADR-0569): this process reads \
         it from the environment alone and refuses to start rather than invent a value. \
         The chart renders it."
    );
}

#[test]
fn a_port_number_reads_as_std_reads_it() {
    for text in [
        "0", "50051", "65535", "65536", "70000", "", "+", "-", "+8080", "-1", "080", "8o80",
        "99999999999999999999x", "x99999999", "65536x", "6553x", " 1", "1 ", "٣", "+-1",
        "000000000000065535",
    ] {
        let want = text.parse::<u16>();
        let got = parse_port_number(text);
        match (&got, &want) {
            (Ok(a), Ok(b)) => assert_eq!(a, b, "{text}"),
            (Err(e), Err(w)) => assert_eq!(e.text(), w.to_string(), "{text}"),
            _ => panic!("{text}: got {got:?}, std gives {want:?}"),
        }
    }
}

#[test]
fn a_port_that_is_not_a_number_refuses_naming_the_knob() {
    assert_eq!(project_db_port("50051"), Ok(50051));
    assert_eq!(
        project_db_port("fifty").unwrap_err(),
        "PROJECT_DB_PORT is not a port number: invalid digit found in string"
    );
    assert_eq!(
        project_db_port("65536").unwrap_err(),
        "PROJECT_DB_PORT is not a port number: number too large to fit in target type"
    );
    assert_eq!(parse_port_number(""), Err(NumberError::Empty));
}
