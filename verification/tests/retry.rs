use fold_ingestion::retry::{
    after_failed_attempt, deadline_message, makes_an_attempt, pauses_after, prompt_for_attempt, validation_attempts,
};

#[test]
fn waits_double_between_attempts_and_stop_at_the_last() {
    assert_eq!(after_failed_attempt(1, 3), Some(1));
    assert_eq!(after_failed_attempt(2, 3), Some(2));
    assert_eq!(after_failed_attempt(3, 3), None);
    assert_eq!(after_failed_attempt(5, 10), Some(16));
    assert_eq!(after_failed_attempt(64, 65), Some(1u64 << 63));
    assert_eq!(after_failed_attempt(1, 1), None);
}

#[test]
fn no_attempt_without_retries() {
    assert!(!makes_an_attempt(0));
    assert!(makes_an_attempt(1));
}

#[test]
fn recommendations_are_asked_for_one_to_three_times() {
    assert_eq!(validation_attempts(0), 1);
    assert_eq!(validation_attempts(1), 1);
    assert_eq!(validation_attempts(2), 2);
    assert_eq!(validation_attempts(3), 3);
    assert_eq!(validation_attempts(10), 3);
    assert!(pauses_after(1, 3));
    assert!(!pauses_after(3, 3));
}

#[test]
fn retries_carry_the_rejection() {
    assert_eq!(prompt_for_attempt("base", 1, None), "base");
    assert_eq!(prompt_for_attempt("base", 1, Some("bad")), "base");
    assert_eq!(
        prompt_for_attempt("base", 2, Some("AI response validation error: no name")),
        "base\n\nYour previous response was rejected: AI response validation error: no name. Fix this issue."
    );
    assert_eq!(deadline_message(120, 2), "AI recommendation deadline exceeded (120s) after 2 attempts");
    assert_eq!(deadline_message(0, 0), "AI recommendation deadline exceeded (0s) after 0 attempts");
}
