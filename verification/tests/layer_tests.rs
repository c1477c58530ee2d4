use pytracing::layer::{
    default_init_plan, FmtLayer, FormatArg, LayerSetting, LogFile, LogFileError, NonBlocking,
    PredefinedFormat, PyFormat, PyLogFile, PyRollingLog, PyRotation, SpanEvents, Time, TimeFormat,
    Timer, TimerError, TimerPlan,
};
use pytracing::level::PyLevel;

#[test]
fn span_events_values() {
    assert_eq!(SpanEvents::none(), SpanEvents::new_span().intersection(SpanEvents::enter()));
    assert_eq!(SpanEvents::active(), SpanEvents::enter().union(SpanEvents::exit()));
    let full = SpanEvents::new_span()
        .union(SpanEvents::enter())
        .union(SpanEvents::exit())
        .union(SpanEvents::close());
    assert_eq!(full, SpanEvents::full());
    assert!(SpanEvents::full().contains(SpanEvents::close()));
    assert!(!SpanEvents::active().contains(SpanEvents::close()));
    assert!(SpanEvents::active().contains(SpanEvents::none()));
}

#[test]
fn law_span_events_on_values() {
    let all = [
        SpanEvents::none(),
        SpanEvents::new_span(),
        SpanEvents::enter(),
        SpanEvents::exit(),
        SpanEvents::close(),
        SpanEvents::active(),
        SpanEvents::full(),
    ];
    for a in all {
        for b in all {
            assert_eq!(a.union(b), b.union(a));
            assert_eq!(a.intersection(b), b.intersection(a));
            assert_eq!(a.union(b).intersection(a), a);
            assert!(a.union(b).contains(a));
        }
        assert_eq!(a.union(SpanEvents::none()), a);
        assert!(SpanEvents::full().union(a).contains(SpanEvents::full()));
    }
}

#[test]
fn non_blocking_lossy() {
    assert!(NonBlocking::Lossy.lossy());
    assert!(!NonBlocking::Complete.lossy());
}

#[test]
fn rolling_log_new() {
    let r = PyRollingLog::new("logs".to_string(), "app".to_string(), PyRotation::Daily);
    assert_eq!(r.dir, "logs");
    assert_eq!(r.prefix, "app");
    assert_eq!(r.rotation, PyRotation::Daily);
}

#[test]
fn log_file_from_candidates() {
    assert!(matches!(LogFile::from_candidates(Some(PyLogFile::Stdout), None, None), Ok(LogFile::Stdout)));
    assert!(matches!(
        LogFile::from_candidates(Some(PyLogFile::Stderr), None, Some("x".to_string())),
        Ok(LogFile::Stderr)
    ));
    let rolling = PyRollingLog::new("d".to_string(), "p".to_string(), PyRotation::Never);
    match LogFile::from_candidates(None, Some(rolling), Some("x".to_string())) {
        Ok(LogFile::Rolling(r)) => {
            assert_eq!(r.dir, "d");
            assert_eq!(r.prefix, "p");
            assert_eq!(r.rotation, PyRotation::Never);
        }
        _ => panic!("expected a rolling log"),
    }
    match LogFile::from_candidates(None, None, Some("out.log".to_string())) {
        Ok(LogFile::Path(p)) => assert_eq!(p, "out.log"),
        _ => panic!("expected a path"),
    }
    assert!(matches!(LogFile::from_candidates(None, None, None), Err(LogFileError)));
    assert_eq!(LogFileError.message(), "expected a File, a RollingLog, or a string");
}

#[test]
fn time_format_parses_descriptions() {
    assert!(matches!(TimeFormat::new("[year]-[month]-[day]".to_string()), Ok(TimeFormat::Custom(_))));
    match TimeFormat::new("[year".to_string()) {
        Err(e) => assert!(!e.message.is_empty()),
        Ok(_) => panic!("an unclosed bracket must be refused"),
    }
    match TimeFormat::new("[nonsense]".to_string()) {
        Err(e) => assert!(!e.message.is_empty()),
        Ok(_) => panic!("an unknown component must be refused"),
    }
}

#[test]
fn timer_custom() {
    match Timer::custom(FormatArg::Text("[hour]:[minute]".to_string()), Time::Local) {
        Ok(Timer::Custom(Time::Local, TimeFormat::Custom(_))) => {}
        _ => panic!("expected a custom local timer"),
    }
    match Timer::custom(FormatArg::Text("[hour".to_string()), Time::Utc) {
        Err(TimerError::InvalidFormat(e)) => {
            assert!(!e.message.is_empty());
            assert_eq!(TimerError::InvalidFormat(e).message().is_empty(), false);
        }
        _ => panic!("expected an invalid format"),
    }
    match Timer::custom(FormatArg::Format(TimeFormat::Iso8601), Time::Utc) {
        Ok(Timer::Custom(Time::Utc, TimeFormat::Iso8601)) => {}
        _ => panic!("expected the format as it was given"),
    }
    match Timer::custom(FormatArg::Other, Time::Utc) {
        Err(e) => {
            assert!(matches!(e, TimerError::WrongType));
            assert_eq!(e.message(), "`format` type must be TimeFormat or str");
        }
        Ok(_) => panic!("expected a type error"),
    }
}

#[test]
fn timer_human() {
    match Timer::human(Time::Utc, PredefinedFormat::HhMmSs) {
        Timer::Custom(Time::Utc, TimeFormat::Predefined(PredefinedFormat::HhMmSs)) => {}
        _ => panic!("expected a predefined timer"),
    }
}

#[test]
fn default_layer() {
    let l = FmtLayer::default_layer();
    assert_eq!(l.log_level, PyLevel::Info);
    assert!(matches!(l.file, LogFile::Stdout));
    assert_eq!(l.format, PyFormat::Full);
    assert_eq!(l.fmt_span, SpanEvents::none());
    assert!(l.non_blocking.is_none());
    assert!(matches!(l.timer, Some(Timer::SystemTime)));
    assert!(l.needs_level_filter());
}

#[test]
fn plan_of_default_layer() {
    let p = FmtLayer::default_layer().plan();
    assert!(p.settings.is_empty());
    assert_eq!(p.level_filter, Some(PyLevel::Info));
    assert!(matches!(p.timer, TimerPlan::SystemTime));
    assert!(matches!(p.writer, LogFile::Stdout));
    assert!(p.non_blocking.is_none());
    assert_eq!(p.format, PyFormat::Full);
}

#[test]
fn plan_applies_given_settings_in_order() {
    let mut l = FmtLayer::default_layer();
    l.log_level = PyLevel::Trace;
    l.with_thread_ids = Some(true);
    l.with_ansi = Some(false);
    l.log_internal_errors = Some(true);
    l.timer = None;
    l.format = PyFormat::Json;
    l.non_blocking = Some(NonBlocking::Complete);
    l.fmt_span = SpanEvents::close();
    assert!(!l.needs_level_filter());
    let p = l.plan();
    assert_eq!(
        p.settings,
        vec![
            (LayerSetting::LogInternalErrors, true),
            (LayerSetting::Ansi, false),
            (LayerSetting::ThreadIds, true)
        ]
    );
    assert_eq!(p.level_filter, None);
    assert!(matches!(p.timer, TimerPlan::Without));
    assert_eq!(p.format, PyFormat::Json);
    assert_eq!(p.non_blocking, Some(NonBlocking::Complete));
    assert_eq!(p.span_events, SpanEvents::close());
}

#[test]
fn plan_of_custom_clocks() {
    let mut l = FmtLayer::default_layer();
    l.timer = Some(Timer::human(Time::Local, PredefinedFormat::MmDdHhMmSs));
    assert!(matches!(
        l.plan().timer,
        TimerPlan::Local(TimeFormat::Predefined(PredefinedFormat::MmDdHhMmSs))
    ));
    let mut l = FmtLayer::default_layer();
    l.timer = Some(Timer::Custom(Time::Utc, TimeFormat::Iso8601NoSubseconds));
    assert!(matches!(l.plan().timer, TimerPlan::Utc(TimeFormat::Iso8601NoSubseconds)));
    let mut l = FmtLayer::default_layer();
    l.timer = Some(Timer::Uptime);
    assert!(matches!(l.plan().timer, TimerPlan::Uptime));
}

#[test]
fn default_init() {
    let p = default_init_plan();
    assert!(p.settings.is_empty());
    assert!(matches!(p.writer, LogFile::Stdout));
    assert_eq!(p.non_blocking, Some(NonBlocking::Lossy));
    assert!(matches!(p.timer, TimerPlan::SystemTime));
    assert_eq!(p.format, PyFormat::Full);
    assert_eq!(p.level_filter, Some(PyLevel::Info));
    assert_eq!(p.span_events, SpanEvents::none());
}

#[test]
fn fmt_layer_new_keeps_every_option() {
    let l = FmtLayer::new(
        PyLevel::Warn,
        LogFile::Stderr,
        PyFormat::Compact,
        SpanEvents::active(),
        Some(NonBlocking::Lossy),
        Some(false),
        Some(Timer::Uptime),
        Some(true),
        Some(false),
        None,
        Some(true),
        None,
        Some(false),
    );
    assert_eq!(l.log_level, PyLevel::Warn);
    assert!(matches!(l.file, LogFile::Stderr));
    assert_eq!(l.format, PyFormat::Compact);
    assert_eq!(l.fmt_span, SpanEvents::active());
    assert_eq!(l.non_blocking, Some(NonBlocking::Lossy));
    assert_eq!(l.log_internal_errors, Some(false));
    assert!(matches!(l.timer, Some(Timer::Uptime)));
    assert_eq!(l.with_ansi, Some(true));
    assert_eq!(l.with_file, Some(false));
    assert_eq!(l.with_level, None);
    assert_eq!(l.with_line_number, Some(true));
    assert_eq!(l.with_target, None);
    assert_eq!(l.with_thread_ids, Some(false));
    let p = l.plan();
    assert_eq!(
        p.settings,
        vec![
            (LayerSetting::LogInternalErrors, false),
            (LayerSetting::Ansi, true),
            (LayerSetting::File, false),
            (LayerSetting::LineNumber, true),
            (LayerSetting::ThreadIds, false)
        ]
    );
    assert_eq!(p.level_filter, Some(PyLevel::Warn));
}

#[test]
fn time_format_keeps_the_parse_of_its_description() {
    for description in ["[year]-[month]-[day]", "[hour]:[minute]", "literal text"] {
        let expected = time::format_description::parse_owned::<2>(description).unwrap();
        match TimeFormat::new(description.to_string()) {
            Ok(TimeFormat::Custom(item)) => assert_eq!(item, expected),
            _ => panic!("expected the parsed description"),
        }
        match Timer::custom(FormatArg::Text(description.to_string()), Time::Local) {
            Ok(Timer::Custom(Time::Local, TimeFormat::Custom(item))) => assert_eq!(item, expected),
            _ => panic!("expected a timer with the parsed description"),
        }
    }
    let expected_error = time::format_description::parse_owned::<2>("[hour").unwrap_err().to_string();
    match TimeFormat::new("[hour".to_string()) {
        Err(e) => assert_eq!(e.message, expected_error),
        Ok(_) => panic!("expected the parser's complaint"),
    }
}
