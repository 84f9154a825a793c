use nostr_commander::errors::Error;
use nostr_commander::text::{str_eq, trim_newline, trim_string};
use nostr_commander::tokens::{batch_outcome, classify, nonempty_message, plan_tokens, TokenAction};

#[test]
fn empty_and_separator_are_skipped() {
    assert!(matches!(classify(""), TokenAction::Skip));
    assert!(matches!(classify("--"), TokenAction::Skip));
}

#[test]
fn dash_reads_stdin_once_and_underscore_streams() {
    assert!(matches!(classify("-"), TokenAction::ReadOnce));
    assert!(matches!(classify("_"), TokenAction::Stream));
}

#[test]
fn escaped_tokens_become_literals() {
    match classify("\\-") {
        TokenAction::Literal(s) => assert_eq!(s, "-"),
        _ => panic!("expected a literal"),
    }
    match classify("\\_") {
        TokenAction::Literal(s) => assert_eq!(s, "_"),
        _ => panic!("expected a literal"),
    }
    match classify("\\-\\-") {
        TokenAction::Literal(s) => assert_eq!(s, "--"),
        _ => panic!("expected a literal"),
    }
    match classify("\\-\\-\\-") {
        TokenAction::Literal(s) => assert_eq!(s, "---"),
        _ => panic!("expected a literal"),
    }
}

#[test]
fn ordinary_text_is_sent_verbatim() {
    match classify("hello world") {
        TokenAction::Literal(s) => assert_eq!(s, "hello world"),
        _ => panic!("expected a literal"),
    }
}

#[test]
fn stdin_is_consumed_at_most_once() {
    let tokens = vec!["-".to_string(), "_".to_string(), "-".to_string()];
    let plan = plan_tokens(&tokens);
    assert_eq!(plan.len(), 3);
    assert!(matches!(plan[0], TokenAction::ReadOnce));
    match &plan[1] {
        TokenAction::Literal(s) => assert_eq!(s, "_"),
        _ => panic!("second stdin use must demote to a literal"),
    }
    match &plan[2] {
        TokenAction::Literal(s) => assert_eq!(s, "-"),
        _ => panic!("third stdin use must demote to a literal"),
    }
}

#[test]
fn batch_outcome_aggregates_failures() {
    assert!(batch_outcome(0, Error::PublishFailed).is_ok());
    assert_eq!(batch_outcome(2, Error::PublishFailed).unwrap_err(), Error::PublishFailed);
    assert_eq!(batch_outcome(1, Error::DmFailed).unwrap_err(), Error::DmFailed);
}

#[test]
fn empty_expansions_are_not_sent() {
    assert!(nonempty_message(String::new()).is_none());
    assert_eq!(nonempty_message("hi".to_string()).unwrap(), "hi");
}

#[test]
fn error_names_are_readable() {
    assert_eq!(Error::InvalidKey.name(), "invalid key");
    assert_eq!(Error::StorageFailure.name(), "storage failure");
    assert_eq!(Error::SubscriptionFailed.name(), "subscription failed");
}

#[test]
fn trimming_helpers() {
    assert_eq!(trim_string("  jane\t"), "jane");
    assert_eq!(trim_string(" \n "), "");
    assert_eq!(trim_newline("line\n"), "line");
    assert_eq!(trim_newline("line\r\n"), "line");
    assert_eq!(trim_newline("line"), "line");
    assert!(str_eq("abc", "abc"));
    assert!(!str_eq("abc", "abd"));
}
