use pytracing::leak::{leak, Leaker, VecLeaker, LEAK_WARNING_THRESHOLD};

#[test]
fn leak_keeps_the_value() {
    let r: &'static Vec<u32> = leak(vec![1, 2, 3]);
    assert_eq!(*r, vec![1, 2, 3]);
}

#[test]
fn leaker_starts_empty() {
    let leaker = Leaker::new();
    assert_eq!(leaker.len(), 0);
    let vec_leaker = VecLeaker::new();
    assert_eq!(vec_leaker.len(), 0);
}

#[test]
fn leaker_interns_each_string_once() {
    let mut leaker = Leaker::new();
    let a = leaker.leak_or_get("alpha".to_string());
    let b = leaker.leak_or_get("beta".to_string());
    let a2 = leaker.leak_or_get("alpha".to_string());
    assert_eq!(a, "alpha");
    assert_eq!(b, "beta");
    assert_eq!(a2, "alpha");
    // the second request hands back the very string interned first
    assert!(std::ptr::eq(a, a2));
    assert_eq!(leaker.len(), 2);
}

#[test]
fn leaker_empty_string() {
    let mut leaker = Leaker::new();
    let e = leaker.leak_or_get(String::new());
    assert_eq!(e, "");
    assert_eq!(leaker.len(), 1);
}

#[test]
fn leaker_warning_only_for_new_strings_past_threshold() {
    let mut leaker = Leaker::new();
    assert!(!leaker.warning_due("x"));
    leaker.leak_or_get("x".to_string());
    assert!(!leaker.warning_due("x"));
    assert!(!leaker.warning_due("y"));
    assert_eq!(LEAK_WARNING_THRESHOLD, 100_000);
}

#[test]
fn vec_leaker_interns_each_list_once() {
    let mut vec_leaker = VecLeaker::new();
    let a = vec_leaker.leak_or_get(vec!["a", "b"]);
    let b = vec_leaker.leak_or_get(vec!["b", "a"]);
    let a2 = vec_leaker.leak_or_get(vec!["a", "b"]);
    let empty = vec_leaker.leak_or_get(vec![]);
    assert_eq!(a, &["a", "b"]);
    assert_eq!(b, &["b", "a"]);
    assert!(std::ptr::eq(a, a2));
    assert!(empty.is_empty());
    assert_eq!(vec_leaker.len(), 3);
    assert!(!vec_leaker.warning_due(&vec!["a", "b"]));
    assert!(!vec_leaker.warning_due(&vec!["c"]));
}

#[test]
fn leaker_count_grows_by_one_for_each_new_string() {
    let mut leaker = Leaker::new();
    for (i, s) in ["a", "b", "a", "c", "b"].iter().enumerate() {
        let before = leaker.len();
        let known = i >= 2 && *s != "c";
        leaker.leak_or_get(s.to_string());
        assert_eq!(leaker.len(), if known { before } else { before + 1 });
    }
    assert_eq!(leaker.len(), 3);
}

#[test]
fn no_leak_warnings_below_the_threshold() {
    let mut leaker = Leaker::new();
    for i in 0..50 {
        leaker.leak_or_get(format!("s{i}"));
    }
    assert_eq!(leaker.take_warnings(), 0);
    assert_eq!(leaker.take_warnings(), 0);
    let mut vec_leaker = VecLeaker::new();
    vec_leaker.leak_or_get(vec!["a"]);
    assert_eq!(vec_leaker.take_warnings(), 0);
}

#[test]
fn leak_warnings_past_the_threshold() {
    let mut leaker = Leaker::new();
    for i in 0..LEAK_WARNING_THRESHOLD {
        leaker.leak_or_get(format!("s{i}"));
    }
    assert_eq!(leaker.take_warnings(), 0);
    // each new string from now on is worth a warning; a known one is not
    leaker.leak_or_get("new one".to_string());
    leaker.leak_or_get("another".to_string());
    leaker.leak_or_get("s0".to_string());
    assert_eq!(leaker.take_warnings(), 2);
    assert_eq!(leaker.take_warnings(), 0);
}
