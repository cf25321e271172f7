use vsthost_minimal::ports::{auto_select_port, parse_port_selection, MidiError};

#[test]
fn zero_ports_is_no_input_ports() {
    assert_eq!(auto_select_port(0), Err(MidiError::NoInputPorts));
}

#[test]
fn one_port_is_auto_selected_without_prompt() {
    assert_eq!(auto_select_port(1), Ok(Some(0)));
}

#[test]
fn several_ports_require_a_prompted_choice() {
    assert_eq!(auto_select_port(2), Ok(None));
    assert_eq!(auto_select_port(16), Ok(None));
}

#[test]
fn in_range_index_is_accepted() {
    assert_eq!(parse_port_selection(b"2", 5), Ok(2));
    assert_eq!(parse_port_selection(b"0", 1), Ok(0));
}

#[test]
fn surrounding_whitespace_is_trimmed() {
    assert_eq!(parse_port_selection(b" 3 \n", 5), Ok(3));
    assert_eq!(parse_port_selection(b"\t1\r\n", 2), Ok(1));
}

#[test]
fn leading_plus_sign_is_accepted() {
    assert_eq!(parse_port_selection(b"+4", 5), Ok(4));
}

#[test]
fn out_of_range_index_is_invalid() {
    assert_eq!(parse_port_selection(b"5", 5), Err(MidiError::InvalidPortSelection));
    assert_eq!(parse_port_selection(b"9", 3), Err(MidiError::InvalidPortSelection));
}

#[test]
fn non_numeric_input_is_invalid() {
    assert_eq!(parse_port_selection(b"abc", 3), Err(MidiError::InvalidPortSelection));
    assert_eq!(parse_port_selection(b"1a", 3), Err(MidiError::InvalidPortSelection));
    assert_eq!(parse_port_selection(b"-1", 3), Err(MidiError::InvalidPortSelection));
    assert_eq!(parse_port_selection(b"", 3), Err(MidiError::InvalidPortSelection));
    assert_eq!(parse_port_selection(b"   ", 3), Err(MidiError::InvalidPortSelection));
    assert_eq!(parse_port_selection(b"+", 3), Err(MidiError::InvalidPortSelection));
}

#[test]
fn overlong_number_is_invalid() {
    assert_eq!(
        parse_port_selection(b"99999999999999999999999999", 3),
        Err(MidiError::InvalidPortSelection)
    );
}
