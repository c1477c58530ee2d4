use pytracing::leak::{Leaker, VecLeaker};
use pytracing::signature::{ArgSource, BindError, Param, ParamKind, Signature};

fn param(name: &str, kind: ParamKind) -> Param {
    Param { name: name.to_string(), kind }
}

fn names(v: &[&str]) -> Vec<String> {
    v.iter().map(|s| s.to_string()).collect()
}

fn signature(params: Vec<Param>) -> Signature {
    assert!(pytracing::signature::params_well_formed(&params));
    let mut leaker = Leaker::new();
    let mut vec_leaker = VecLeaker::new();
    Signature::from_params(&params, &mut leaker, &mut vec_leaker)
}

// def f(a, b, c=3, *, d, e=5)
fn f_signature() -> Signature {
    signature(vec![
        param("a", ParamKind::PositionalOrKeyword),
        param("b", ParamKind::PositionalOrKeyword),
        param("c", ParamKind::PositionalOrKeyword),
        param("d", ParamKind::KeywordOnly),
        param("e", ParamKind::KeywordOnly),
    ])
}

// def g(p, /, q, *args, k, **kwargs)
fn g_signature() -> Signature {
    signature(vec![
        param("p", ParamKind::PositionalOnly),
        param("q", ParamKind::PositionalOrKeyword),
        param("args", ParamKind::ExcessArgs),
        param("k", ParamKind::KeywordOnly),
        param("kwargs", ParamKind::ExcessKwargs),
    ])
}

#[test]
fn param_kind_from_inspect_values() {
    assert_eq!(ParamKind::maybe_from(0), Some(ParamKind::PositionalOnly));
    assert_eq!(ParamKind::maybe_from(1), Some(ParamKind::PositionalOrKeyword));
    assert_eq!(ParamKind::maybe_from(2), Some(ParamKind::ExcessArgs));
    assert_eq!(ParamKind::maybe_from(3), Some(ParamKind::KeywordOnly));
    assert_eq!(ParamKind::maybe_from(4), Some(ParamKind::ExcessKwargs));
    assert_eq!(ParamKind::maybe_from(5), None);
    assert_eq!(ParamKind::maybe_from(-1), None);
}

#[test]
fn params_well_formed_refuses_duplicates() {
    let ok = vec![param("a", ParamKind::PositionalOrKeyword), param("b", ParamKind::ExcessArgs)];
    assert!(pytracing::signature::params_well_formed(&ok));
    let same_name = vec![param("a", ParamKind::PositionalOrKeyword), param("a", ParamKind::KeywordOnly)];
    assert!(!pytracing::signature::params_well_formed(&same_name));
    let two_args = vec![param("x", ParamKind::ExcessArgs), param("y", ParamKind::ExcessArgs)];
    assert!(!pytracing::signature::params_well_formed(&two_args));
    let two_kwargs = vec![param("x", ParamKind::ExcessKwargs), param("y", ParamKind::ExcessKwargs)];
    assert!(!pytracing::signature::params_well_formed(&two_kwargs));
    assert!(pytracing::signature::params_well_formed(&vec![]));
    let out_of_order = vec![param("k", ParamKind::KeywordOnly), param("a", ParamKind::PositionalOrKeyword)];
    assert!(!pytracing::signature::params_well_formed(&out_of_order));
    let kwargs_first = vec![param("kw", ParamKind::ExcessKwargs), param("args", ParamKind::ExcessArgs)];
    assert!(!pytracing::signature::params_well_formed(&kwargs_first));
    let full = vec![
        param("p", ParamKind::PositionalOnly),
        param("q", ParamKind::PositionalOrKeyword),
        param("args", ParamKind::ExcessArgs),
        param("k", ParamKind::KeywordOnly),
        param("kwargs", ParamKind::ExcessKwargs),
    ];
    assert!(pytracing::signature::params_well_formed(&full));
}

#[test]
fn from_params_records_the_signature() {
    let s = g_signature();
    assert_eq!(s.param_names(), &["p", "q", "args", "k", "kwargs"]);
    assert!(s.has_excess_args());
    assert!(s.has_excess_kwargs());
    let f = f_signature();
    assert!(!f.has_excess_args());
    assert!(!f.has_excess_kwargs());
}

#[test]
fn bind_positional_keyword_and_defaults() {
    let s = f_signature();
    let b = s.bind(2, &names(&["d"]), 1, &names(&["e"])).unwrap();
    assert_eq!(
        b.slots,
        vec![
            ArgSource::Positional(0),
            ArgSource::Positional(1),
            ArgSource::Default(0),
            ArgSource::Keyword(0),
            ArgSource::KwDefault(0),
        ]
    );
    assert!(b.excess_kwargs.is_empty());
}

#[test]
fn bind_keywords_fill_positional_parameters() {
    let s = f_signature();
    let b = s.bind(0, &names(&["c", "b", "a", "e", "d"]), 1, &names(&["e"])).unwrap();
    assert_eq!(
        b.slots,
        vec![
            ArgSource::Keyword(2),
            ArgSource::Keyword(1),
            ArgSource::Keyword(0),
            ArgSource::Keyword(4),
            ArgSource::Keyword(3),
        ]
    );
}

#[test]
fn bind_too_many_positional() {
    let s = f_signature();
    let r = s.bind(4, &names(&["d"]), 1, &names(&["e"]));
    assert_eq!(r.err(), Some(BindError::TooManyPositional));
    assert_eq!(BindError::TooManyPositional.message(&vec![]), "too many positional arguments");
}

#[test]
fn bind_passed_twice() {
    let s = f_signature();
    let kw = names(&["d", "a"]);
    let r = s.bind(1, &kw, 1, &names(&["e"]));
    assert_eq!(r.err(), Some(BindError::PassedTwice(1)));
    assert_eq!(BindError::PassedTwice(1).message(&kw), "arg \"a\" passed twice");
}

#[test]
fn bind_too_many_keyword() {
    let s = f_signature();
    let r = s.bind(2, &names(&["d", "zzz"]), 1, &names(&["e"]));
    assert_eq!(r.err(), Some(BindError::TooManyKeyword));
    assert_eq!(BindError::TooManyKeyword.message(&vec![]), "too many keyword arguments");
}

#[test]
fn bind_not_enough() {
    let s = f_signature();
    // `d` has no default and is not passed
    let r = s.bind(2, &vec![], 1, &names(&["e"]));
    assert_eq!(r.err(), Some(BindError::NotEnough));
    assert_eq!(BindError::NotEnough.message(&vec![]), "not enough arguments");
    // `b` neither
    let r = s.bind(1, &names(&["d"]), 1, &names(&["e"]));
    assert_eq!(r.err(), Some(BindError::NotEnough));
}

#[test]
fn bind_excess_args_and_kwargs() {
    let s = g_signature();
    let b = s.bind(4, &names(&["x", "k", "y"]), 0, &vec![]).unwrap();
    assert_eq!(
        b.slots,
        vec![
            ArgSource::Positional(0),
            ArgSource::Positional(1),
            ArgSource::ExcessArgs(2),
            ArgSource::Keyword(1),
            ArgSource::ExcessKwargs,
        ]
    );
    assert_eq!(b.excess_kwargs, vec![0, 2]);
}

#[test]
fn bind_excess_args_empty() {
    let s = g_signature();
    let b = s.bind(2, &names(&["k"]), 0, &vec![]).unwrap();
    assert_eq!(b.slots[2], ArgSource::ExcessArgs(2));
    assert!(b.excess_kwargs.is_empty());
}

#[test]
fn bind_positional_only_cannot_be_passed_by_keyword() {
    let s = g_signature();
    // `p` is positional-only: passed by keyword it goes to **kwargs, and `p` stays unbound
    let r = s.bind(0, &names(&["p", "q", "k"]), 0, &vec![]);
    assert_eq!(r.err(), Some(BindError::NotEnough));
}

#[test]
fn bind_defaults_belong_to_the_last_positional_parameters() {
    // def h(a, b=1, c=2)
    let s = signature(vec![
        param("a", ParamKind::PositionalOrKeyword),
        param("b", ParamKind::PositionalOrKeyword),
        param("c", ParamKind::PositionalOrKeyword),
    ]);
    let b = s.bind(1, &vec![], 2, &vec![]).unwrap();
    assert_eq!(b.slots, vec![ArgSource::Positional(0), ArgSource::Default(0), ArgSource::Default(1)]);
    let b = s.bind(2, &vec![], 2, &vec![]).unwrap();
    assert_eq!(b.slots, vec![ArgSource::Positional(0), ArgSource::Positional(1), ArgSource::Default(1)]);
}

#[test]
fn bind_empty_signature() {
    let s = signature(vec![]);
    let b = s.bind(0, &vec![], 0, &vec![]).unwrap();
    assert!(b.slots.is_empty());
    assert_eq!(s.bind(1, &vec![], 0, &vec![]).err(), Some(BindError::TooManyPositional));
    assert_eq!(s.bind(0, &names(&["a"]), 0, &vec![]).err(), Some(BindError::TooManyKeyword));
}

#[test]
fn law_bind_sources_in_range_on_examples() {
    let s = g_signature();
    let kw = names(&["x", "k", "y"]);
    let b = s.bind(4, &kw, 0, &vec![]).unwrap();
    for src in &b.slots {
        match *src {
            ArgSource::Positional(i) => assert!(i < 4),
            ArgSource::Keyword(j) => assert!(j < kw.len()),
            ArgSource::Default(_) | ArgSource::KwDefault(_) => panic!("no defaults were given"),
            ArgSource::ExcessArgs(start) => assert!(start <= 4),
            ArgSource::ExcessKwargs => {}
        }
    }
    assert!(b.excess_kwargs.iter().all(|&j| j < kw.len()));
}

#[test]
fn law_bind_keyword_on_example() {
    // every keyword that names a parameter lands on that parameter
    let s = g_signature();
    let kw = names(&["k", "q"]);
    let b = s.bind(1, &kw, 0, &vec![]).unwrap();
    assert_eq!(b.slots[1], ArgSource::Keyword(1));
    assert_eq!(b.slots[3], ArgSource::Keyword(0));
}
