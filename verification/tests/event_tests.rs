use pytracing::event::{event_fields, leak_or_get_kwargs, message_kind, MessageError, MessageKind};
use pytracing::leak::{Leaker, VecLeaker};

#[test]
fn message_kinds() {
    assert_eq!(message_kind(false, false, false), Ok(MessageKind::NoMessage));
    assert_eq!(message_kind(true, false, false), Ok(MessageKind::Any));
    assert_eq!(message_kind(true, true, false), Ok(MessageKind::Any));
    assert_eq!(message_kind(true, true, true), Ok(MessageKind::PercentFormatted));
    assert_eq!(message_kind(false, false, true), Err(MessageError::MissingMessage));
    assert_eq!(message_kind(true, false, true), Err(MessageError::NotAString));
}

#[test]
fn message_error_texts() {
    assert_eq!(
        MessageError::MissingMessage.message(),
        "a message string must be passed when using fmt_args"
    );
    assert_eq!(
        MessageError::NotAString.message(),
        "if fmt_args is passed, the first argument must be a string: "
    );
}

#[test]
fn kwargs_are_interned_in_order() {
    let mut leaker = Leaker::new();
    let f = leak_or_get_kwargs(&mut leaker, vec!["x".to_string(), "y".to_string(), "x".to_string()]);
    assert_eq!(f, vec!["x", "y", "x"]);
    assert_eq!(leaker.len(), 2);
}

#[test]
fn event_fields_put_message_first() {
    let mut leaker = Leaker::new();
    let mut vec_leaker = VecLeaker::new();
    let with = event_fields(&mut leaker, &mut vec_leaker, vec!["a".to_string(), "b".to_string()], true);
    assert_eq!(with, &["message", "a", "b"]);
    let without =
        event_fields(&mut leaker, &mut vec_leaker, vec!["a".to_string(), "b".to_string()], false);
    assert_eq!(without, &["a", "b"]);
    let again = event_fields(&mut leaker, &mut vec_leaker, vec!["a".to_string(), "b".to_string()], true);
    assert!(std::ptr::eq(with, again));
    assert_eq!(vec_leaker.len(), 2);
    let only_message = event_fields(&mut leaker, &mut vec_leaker, vec![], true);
    assert_eq!(only_message, &["message"]);
}
