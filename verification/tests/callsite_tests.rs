use pytracing::callsite::{
    action_gate, callsite_name, instruction_address, last_instruction_index, line_number,
    CallsiteIdentifier, CallsiteKind,
};
use pytracing::level::PyLevel;

#[test]
fn callsite_identifier_new() {
    static FIELDS: &[&str] = &["a", "b"];
    let id = CallsiteIdentifier::new(4096, PyLevel::Warn, FIELDS, CallsiteKind::Span);
    assert_eq!(id.address, 4096);
    assert_eq!(id.level, PyLevel::Warn);
    assert_eq!(id.fields, FIELDS);
    assert_eq!(id.kind, CallsiteKind::Span);
    let same = CallsiteIdentifier::new(4096, PyLevel::Warn, FIELDS, CallsiteKind::Span);
    assert_eq!(id, same);
    let other = CallsiteIdentifier::new(4096, PyLevel::Error, FIELDS, CallsiteKind::Span);
    assert_ne!(id, other);
}

#[test]
fn callsite_kind_from_flags() {
    assert_eq!(CallsiteKind::from_kind_flags(true, false, false), CallsiteKind::Event);
    assert_eq!(CallsiteKind::from_kind_flags(false, true, false), CallsiteKind::Span);
    assert_eq!(CallsiteKind::from_kind_flags(false, false, true), CallsiteKind::Hint);
    assert_eq!(CallsiteKind::from_kind_flags(true, false, true), CallsiteKind::Event);
}

#[test]
fn callsite_names() {
    assert_eq!(callsite_name(CallsiteKind::Event, "/app/main.py", "run"), "event /app/main.py");
    assert_eq!(callsite_name(CallsiteKind::Span, "/app/main.py", "run"), "run");
}

#[test]
fn line_and_instruction_numbers() {
    assert_eq!(line_number(0), 0);
    assert_eq!(line_number(42), 42);
    assert_eq!(last_instruction_index(-1), None);
    assert_eq!(last_instruction_index(0), Some(0));
    assert_eq!(last_instruction_index(18), Some(18));
    assert_eq!(instruction_address(0x1000, 18), 0x1012);
}

#[test]
fn level_order_and_filters() {
    assert!(PyLevel::Error.passes(Some(PyLevel::Error)));
    assert!(PyLevel::Error.passes(Some(PyLevel::Trace)));
    assert!(!PyLevel::Debug.passes(Some(PyLevel::Info)));
    assert!(PyLevel::Info.passes(Some(PyLevel::Info)));
    assert!(!PyLevel::Error.passes(None));
    assert!(PyLevel::Trace.rank() > PyLevel::Debug.rank());
    assert_eq!(PyLevel::default_level(), PyLevel::Info);
    assert!(!PyLevel::Trace.needs_level_filter());
    assert!(PyLevel::Debug.needs_level_filter());
}

#[test]
fn action_gates() {
    let all = Some(PyLevel::Trace);
    assert!(action_gate(PyLevel::Info, all, Some(PyLevel::Info), None));
    assert!(action_gate(PyLevel::Info, all, Some(PyLevel::Info), Some(true)));
    assert!(!action_gate(PyLevel::Info, all, Some(PyLevel::Info), Some(false)));
    assert!(!action_gate(PyLevel::Debug, all, Some(PyLevel::Info), None));
    assert!(!action_gate(PyLevel::Error, Some(PyLevel::Warn), None, None));
    assert!(!action_gate(PyLevel::Trace, Some(PyLevel::Debug), all, None));
}

#[test]
fn law_callsite_identity_by_field_names() {
    // the same names, stored in two different places
    let a: &'static [&'static str] = Box::leak(vec!["x", "y"].into_boxed_slice());
    let b: &'static [&'static str] = Box::leak(vec!["x", "y"].into_boxed_slice());
    assert!(!std::ptr::eq(a, b));
    let id_a = CallsiteIdentifier::new(7, PyLevel::Info, a, CallsiteKind::Event);
    let id_b = CallsiteIdentifier::new(7, PyLevel::Info, b, CallsiteKind::Event);
    assert_eq!(id_a, id_b);
    let mut set = std::collections::HashSet::new();
    set.insert(id_a.clone());
    assert!(set.contains(&id_b));
    let reordered = CallsiteIdentifier::new(7, PyLevel::Info, &["y", "x"], CallsiteKind::Event);
    assert_ne!(id_a, reordered);
    let other_kind = CallsiteIdentifier::new(7, PyLevel::Info, a, CallsiteKind::Span);
    assert_ne!(id_a, other_kind);
    let other_address = CallsiteIdentifier::new(8, PyLevel::Info, a, CallsiteKind::Event);
    assert_ne!(id_a, other_address);
}

#[test]
fn str_and_field_comparisons() {
    use_eq_helpers();
}

fn use_eq_helpers() {
    assert!(pytracing::callsite::str_eq("héllo", "héllo"));
    assert!(!pytracing::callsite::str_eq("héllo", "hello"));
    assert!(!pytracing::callsite::str_eq("ab", "abc"));
    assert!(pytracing::callsite::str_eq("", ""));
    assert!(pytracing::callsite::fields_eq(&["a", "b"], &["a", "b"]));
    assert!(!pytracing::callsite::fields_eq(&["a", "b"], &["a"]));
    assert!(!pytracing::callsite::fields_eq(&["a", "b"], &["a", "c"]));
}

#[test]
fn callsite_table_keeps_one_callsite_per_identifier() {
    let mut table: pytracing::callsite::CallsiteTable<u32> = pytracing::callsite::CallsiteTable::new();
    assert_eq!(table.len(), 0);
    let a: &'static [&'static str] = Box::leak(vec!["x"].into_boxed_slice());
    let b: &'static [&'static str] = Box::leak(vec!["x"].into_boxed_slice());
    let id_a = CallsiteIdentifier::new(1, PyLevel::Info, a, CallsiteKind::Event);
    let id_b = CallsiteIdentifier::new(1, PyLevel::Info, b, CallsiteKind::Event);
    assert_eq!(table.get(&id_a), None);
    assert_eq!(table.get_or_insert(id_a.clone(), 10), 10);
    // the same identifier, with its field names stored elsewhere, gets the first callsite
    assert_eq!(table.get_or_insert(id_b.clone(), 20), 10);
    assert_eq!(table.get(&id_b), Some(10));
    assert_eq!(table.len(), 1);
    let id_c = CallsiteIdentifier::new(1, PyLevel::Warn, a, CallsiteKind::Event);
    assert_eq!(table.get_or_insert(id_c.clone(), 30), 30);
    assert_eq!(table.get(&id_c), Some(30));
    assert_eq!(table.len(), 2);
}
