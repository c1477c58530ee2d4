use pytracing::introspect::{module_of_components, module_of_file};

#[test]
fn module_of_plain_module_is_the_file() {
    assert_eq!(module_of_file(Some("main"), "/home/user/project/main.py"), "main.py");
    assert_eq!(module_of_file(None, "/home/user/project/main.py"), "main.py");
}

#[test]
fn module_of_package_module_takes_one_component_per_level() {
    assert_eq!(module_of_file(Some("pkg.sub.mod"), "/srv/app/pkg/sub/mod.py"), "pkg/sub/mod.py");
    assert_eq!(module_of_file(Some("pkg.mod"), "/srv/app/pkg/mod.py"), "pkg/mod.py");
}

#[test]
fn module_of_short_path_takes_all_components() {
    // the root directory is a component of its own; its text is "/"
    assert_eq!(module_of_file(Some("a.b.c.d"), "/x/y.py"), "//x/y.py");
    assert_eq!(module_of_file(Some("a.b.c"), "x/y.py"), "x/y.py");
}

#[test]
fn module_of_relative_file() {
    assert_eq!(module_of_file(Some("mod"), "mod.py"), "mod.py");
    assert_eq!(module_of_file(Some("__main__"), "<stdin>"), "<stdin>");
}

#[test]
fn module_of_components_joins_the_tail() {
    let c: Vec<String> = vec!["a".into(), "b".into(), "c".into()];
    assert_eq!(module_of_components(Some("p.q"), &c), "b/c");
    assert_eq!(module_of_components(None, &c), "c");
    assert_eq!(module_of_components(Some("p.q.r.s"), &c), "a/b/c");
    assert_eq!(module_of_components(Some("x"), &vec![]), "");
}
