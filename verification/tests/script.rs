use agent_desktop::script::{
    check_script, discard_state, failure_message, interruption_error, malformed_call,
    Interruption, Output,
};

#[test]
fn scripts_over_128_kib_are_refused() {
    assert!(check_script(&"a".repeat(131_072)).is_ok());
    assert_eq!(
        check_script(&"a".repeat(131_073)),
        Err("Script exceeds 128 KiB".to_string())
    );
    // Bytes of UTF-8 count, not characters.
    assert!(check_script(&"é".repeat(65_537)).is_err());
}

#[test]
fn a_run_keeps_at_most_64_values() {
    let mut output = Output::new();
    for i in 0..64 {
        assert!(output.emit(format!("{{\"text\":\"{i}\"}}")));
    }
    assert!(!output.emit("64".to_string()));
    let items = output.take();
    assert_eq!(items.len(), 64);
    assert_eq!(items[0], "{\"text\":\"0\"}");
    assert_eq!(items[63], "{\"text\":\"63\"}");
    assert!(output.take().is_empty());
}

#[test]
fn values_that_are_not_json_are_refused() {
    let mut output = Output::new();
    assert!(!output.emit("not json".to_string()));
    assert!(output.emit("[1, 2]".to_string()));
    assert_eq!(output.take(), vec!["[1, 2]".to_string()]);
}

#[test]
fn emitted_values_stay_within_16_mib() {
    let mut output = Output::new();
    let big = format!("\"{}\"", "x".repeat(8 * 1024 * 1024 - 2));
    assert!(output.accept(big.clone(), true));
    assert!(output.accept(big.clone(), true));
    assert!(!output.accept("1".to_string(), true));
    assert!(!output.accept("1".to_string(), false));
    assert_eq!(output.take().len(), 2);
}

#[test]
fn interrupted_calls_answer_why() {
    let e = interruption_error(Interruption::CancelledBefore);
    assert_eq!((e.code.as_str(), e.message.as_str()), ("cancelled", "Request cancelled"));
    let e = interruption_error(Interruption::Cancelled);
    assert_eq!(
        e.message,
        "Request cancelled; observe before deciding whether to retry"
    );
    let e = interruption_error(Interruption::TimedOut);
    assert_eq!(e.code, "timeout");
    assert!(!e.retryable);
    let e = malformed_call("missing field `method`");
    assert_eq!((e.code.as_str(), e.message.as_str()), ("invalid_argument", "missing field `method`"));
}

#[test]
fn failed_runs_say_whether_state_was_reset() {
    assert_eq!(
        failure_message("Error: boom".to_string(), true, true),
        "Request cancelled. JavaScript state has been reset."
    );
    assert_eq!(
        failure_message("Error: interrupted".to_string(), false, true),
        "Error: interrupted. JavaScript state has been reset after timeout."
    );
    assert_eq!(failure_message("Error: boom".to_string(), false, false), "Error: boom");
    assert!(discard_state(true, false, false));
    assert!(discard_state(false, true, true));
    assert!(!discard_state(false, true, false));
    assert!(!discard_state(false, false, true));
}
