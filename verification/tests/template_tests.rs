use pytracing::template::{format_template, Conversion};

fn v(items: &[&str]) -> Vec<String> {
    items.iter().map(|s| s.to_string()).collect()
}

#[test]
fn conversion_codes() {
    assert_eq!(Conversion::from_code("s"), Some(Conversion::Str));
    assert_eq!(Conversion::from_code("r"), Some(Conversion::Repr));
    assert_eq!(Conversion::from_code("a"), Some(Conversion::Ascii));
    assert_eq!(Conversion::from_code("x"), None);
    assert_eq!(Conversion::from_code(""), None);
    assert_eq!(Conversion::from_code("ss"), None);
}

#[test]
fn template_interleaves_strings_and_values() {
    assert_eq!(format_template(&v(&["Hello ", "!"]), &v(&["world"])), "Hello world!");
    assert_eq!(format_template(&v(&["", " + ", " = ", ""]), &v(&["1", "2", "3"])), "1 + 2 = 3");
}

#[test]
fn template_without_interpolations_is_its_string() {
    assert_eq!(format_template(&v(&["plain"]), &v(&[])), "plain");
    assert_eq!(format_template(&v(&[""]), &v(&[])), "");
}

#[test]
fn law_template_text_length() {
    let strings = v(&["ab", "", "cde"]);
    let values = v(&["x", "yz"]);
    let out = format_template(&strings, &values);
    let expected: usize = strings.iter().chain(values.iter()).map(|s| s.chars().count()).sum();
    assert_eq!(out.chars().count(), expected);
    assert_eq!(out, "abxyzcde");
}
