use y2m::clock::{now, timestamp};
use y2m::text::{clean, constant_time_eq, push_decimal, same_text, text_or_empty};

#[test]
fn texts_are_trimmed_and_cut() {
    assert_eq!(clean("  \u{3000}井水玉藻 \n", 24), "井水玉藻");
    assert_eq!(clean(" abcdef ", 3), "abc");
    assert_eq!(clean("a b  c", 4), "a b ");
    assert_eq!(clean("   ", 3), "");
}

#[test]
fn texts_are_compared() {
    assert!(constant_time_eq("secret", "secret"));
    assert!(!constant_time_eq("secret", "secreT"));
    assert!(!constant_time_eq("secret", "secret1"));
    assert!(constant_time_eq("", ""));
    assert!(same_text("邀请", "邀请"));
    assert!(!same_text("a", "b"));
}

#[test]
fn a_missing_text_is_empty() {
    assert_eq!(text_or_empty(&None), "");
    assert_eq!(text_or_empty(&Some("x".to_string())), "x");
}

#[test]
fn numbers_are_written_in_base_ten() {
    for n in [0, 7, 10, -1, 604_800, i64::MAX, i64::MIN] {
        let mut text = String::from("n=");
        push_decimal(&mut text, n);
        assert_eq!(text, format!("n={n}"));
    }
}

#[test]
fn timestamps_are_whole_seconds() {
    assert_eq!(timestamp(Some(1_700_000_000)), 1_700_000_000);
    assert_eq!(timestamp(None), 0);
    assert_eq!(timestamp(Some(u64::MAX)), -1);
    assert!(now() > 1_600_000_000);
}
