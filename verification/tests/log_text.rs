use drone_core::log_text::parse_log_text;

#[test]
fn header_and_rows_are_split_and_trimmed() {
    let text = "t_s\tthrottle\tdrone_state\n0.0\t 0.5 \tArmed\n0.1\t0.6\tArmed\n";
    let log = parse_log_text(text).unwrap();
    assert_eq!(log.names, vec!["t_s", "throttle", "drone_state"]);
    assert_eq!(
        log.rows,
        vec![
            vec!["0.0".to_string(), "0.5".to_string(), "Armed".to_string()],
            vec!["0.1".to_string(), "0.6".to_string(), "Armed".to_string()],
        ]
    );
}

#[test]
fn blank_lines_are_skipped_and_short_rows_padded() {
    let text = "a\tb\tc\r\n1\t2\r\n   \r\n\n4\t5\t6\t7\n";
    let log = parse_log_text(text).unwrap();
    assert_eq!(log.names, vec!["a", "b", "c"]);
    assert_eq!(
        log.rows,
        vec![
            vec!["1".to_string(), "2".to_string(), String::new()],
            vec!["4".to_string(), "5".to_string(), "6".to_string()],
        ]
    );
}

#[test]
fn header_only_log_has_no_rows() {
    let log = parse_log_text("x\ty").unwrap();
    assert_eq!(log.names, vec!["x", "y"]);
    assert!(log.rows.is_empty());
}

#[test]
fn empty_text_is_refused() {
    assert!(parse_log_text("").is_none());
    assert!(parse_log_text("\n").is_some());
}

#[test]
fn empty_cells_stay_empty() {
    let log = parse_log_text("a\tb\n\t7\n").unwrap();
    assert_eq!(log.rows, vec![vec![String::new(), "7".to_string()]]);
}

#[test]
fn lone_carriage_return_stays_in_the_line() {
    let log = parse_log_text("a\tb\r").unwrap();
    assert_eq!(log.names, vec!["a", "b\r"]);
    let log = parse_log_text("a\tb\r\n").unwrap();
    assert_eq!(log.names, vec!["a", "b"]);
}

#[test]
fn unicode_white_space_is_trimmed() {
    let log = parse_log_text("a\tb\n\u{3000} x\u{a0}\t\u{200b}y\u{2028}\n").unwrap();
    assert_eq!(
        log.rows,
        vec![vec!["x".to_string(), "\u{200b}y".to_string()]]
    );
}

#[test]
fn line_of_only_white_space_is_blank() {
    let log = parse_log_text("a\n\u{85}\t\u{2003}\nz\n").unwrap();
    assert_eq!(log.rows, vec![vec!["z".to_string()]]);
}
