use dbtransfer::progress::{completion_delay_ms, join_lines, ProgressBuffer};
use dbtransfer::TransferError;

#[test]
fn lines_are_batched_within_the_window() {
    let mut b = ProgressBuffer::new();
    assert_eq!(b.on_progress("one".to_string(), 1000), Some("one".to_string()));
    assert_eq!(b.on_progress("two".to_string(), 1050), None);
    assert_eq!(b.on_progress("three".to_string(), 1100), None);
    assert_eq!(b.on_progress("four".to_string(), 1101), Some("two\r\nthree\r\nfour".to_string()));
    assert_eq!(b.last_delivered_ms, 1101);
    assert!(b.pending.is_empty());
}

#[test]
fn empty_line_flushes() {
    let mut b = ProgressBuffer::new();
    b.last_delivered_ms = 500;
    assert_eq!(b.on_progress("a".to_string(), 510), None);
    assert_eq!(b.on_progress(String::new(), 520), Some("a".to_string()));
    assert_eq!(b.on_progress(String::new(), 530), Some(String::new()));
}

#[test]
fn outcome_flushes_held_lines() {
    let mut b = ProgressBuffer::new();
    b.last_delivered_ms = 10;
    assert_eq!(b.on_progress("a".to_string(), 20), None);
    assert_eq!(b.on_complete("failed".to_string()), Some("a\r\nfailed".to_string()));
    assert!(b.pending.is_empty());
    assert_eq!(b.on_complete(String::new()), None);
}

#[test]
fn short_jobs_are_held_to_a_second() {
    assert_eq!(completion_delay_ms(0), 1000);
    assert_eq!(completion_delay_ms(250), 750);
    assert_eq!(completion_delay_ms(1000), 0);
    assert_eq!(completion_delay_ms(5000), 0);
}

#[test]
fn joining_lines() {
    assert_eq!(join_lines(&Vec::new()), "");
    assert_eq!(join_lines(&vec!["x".to_string()]), "x");
    assert_eq!(join_lines(&vec!["x".to_string(), "".to_string(), "y".to_string()]), "x\r\n\r\ny");
}

#[test]
fn error_from_displayable_value() {
    assert_eq!(TransferError::new(&"disk full").to_string(), "disk full");
    assert_eq!(TransferError::new(&42).to_string(), "42");
    assert_eq!(TransferError::from_str("x").message, "x");
    assert_eq!(TransferError::from_string("y".to_string()).to_string(), "y");
}
