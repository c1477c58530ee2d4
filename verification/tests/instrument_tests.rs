use pytracing::instrument::{
    anext_callsites, next_event, plan_return, select_retained, FunctionType, InstrumentOptions,
    Instrumentation, NextEvent, NextOutcome, ReturnPlan, Wrapper,
};
use pytracing::leak::{Leaker, VecLeaker};
use pytracing::level::PyLevel;
use pytracing::ret_log::{CallsiteSet, RetLog, RetLogError};
use pytracing::signature::{ArgSource, BindError, Param, ParamKind, Signature};

fn names(v: &[&str]) -> Vec<String> {
    v.iter().map(|s| s.to_string()).collect()
}

// def f(a, b, c, *, d)
fn signature() -> Signature {
    let params = vec![
        Param { name: "a".to_string(), kind: ParamKind::PositionalOrKeyword },
        Param { name: "b".to_string(), kind: ParamKind::PositionalOrKeyword },
        Param { name: "c".to_string(), kind: ParamKind::PositionalOrKeyword },
        Param { name: "d".to_string(), kind: ParamKind::KeywordOnly },
    ];
    Signature::from_params(&params, &mut Leaker::new(), &mut VecLeaker::new())
}

#[test]
fn default_options() {
    let o = InstrumentOptions::default_options();
    assert_eq!(o.level, PyLevel::Info);
    assert!(!o.skip_all);
    assert_eq!(o.ret_log, RetLog::Nothing);
    assert!(!o.skips("a"));
}

#[test]
fn options_from_args() {
    let o = InstrumentOptions::from_args(PyLevel::Debug, names(&["b", "d"]), false, true, false, true)
        .ok()
        .unwrap();
    assert_eq!(o.level, PyLevel::Debug);
    assert!(o.skips("b") && o.skips("d"));
    assert!(!o.skips("a") && !o.skips("c"));
    assert_eq!(o.ret_log, RetLog::RetErr);
}

#[test]
fn options_from_args_refused() {
    let r = InstrumentOptions::from_args(PyLevel::Info, vec![], false, false, false, true);
    assert_eq!(r.err(), Some(RetLogError::NoYieldWithoutRet));
    let r = InstrumentOptions::from_args(PyLevel::Info, vec![], false, true, true, false);
    assert_eq!(r.err(), Some(RetLogError::ErrOnlyWithRet));
    let r = InstrumentOptions::from_args(PyLevel::Info, vec![], false, false, true, false);
    assert_eq!(r.ok().map(|o| o.ret_log), Some(RetLog::ErrOnly));
}

#[test]
fn instrumentation_records_kept_parameters() {
    let o = InstrumentOptions::from_args(PyLevel::Info, names(&["b", "zzz"]), false, false, false, false)
        .ok()
        .unwrap();
    let mut vec_leaker = VecLeaker::new();
    let inst = Instrumentation::new(signature(), &o, &mut vec_leaker);
    assert_eq!(inst.fields(), &["a", "c", "d"]);
    assert_eq!(vec_leaker.len(), 1);
    let b = inst.bind_retained(2, &names(&["d", "c"]), 0, &vec![]).unwrap();
    assert_eq!(b.slots, vec![ArgSource::Positional(0), ArgSource::Keyword(1), ArgSource::Keyword(0)]);
}

#[test]
fn instrumentation_skip_all_binds_nothing() {
    let o = InstrumentOptions::from_args(PyLevel::Info, vec![], true, false, false, false).ok().unwrap();
    let inst = Instrumentation::new(signature(), &o, &mut VecLeaker::new());
    assert_eq!(inst.fields(), &["a", "b", "c", "d"]);
    // with nothing recorded the call is not even bound: a wrong call binds to nothing
    let b = inst.bind_retained(7, &vec![], 0, &vec![]).unwrap();
    assert!(b.slots.is_empty());
}

#[test]
fn instrumentation_bind_errors_pass_through() {
    let o = InstrumentOptions::default_options();
    let inst = Instrumentation::new(signature(), &o, &mut VecLeaker::new());
    assert_eq!(inst.bind_retained(5, &vec![], 0, &vec![]).err(), Some(BindError::TooManyPositional));
    assert_eq!(inst.signature().param_names(), &["a", "b", "c", "d"]);
}

#[test]
fn select_retained_keeps_order() {
    let v = vec!["v0", "v1", "v2", "v3", "v4"];
    assert_eq!(select_retained(v.clone(), &vec![0, 2, 4]), vec!["v0", "v2", "v4"]);
    assert_eq!(select_retained(v.clone(), &vec![]), Vec::<&str>::new());
    assert_eq!(select_retained(v, &vec![3]), vec!["v3"]);
}

#[test]
fn guess_function_type() {
    assert_eq!(FunctionType::guess_from_return_value(true, false, false), FunctionType::Async);
    assert_eq!(FunctionType::guess_from_return_value(false, true, false), FunctionType::Generator);
    assert_eq!(FunctionType::guess_from_return_value(false, false, true), FunctionType::AsyncGenerator);
    assert_eq!(FunctionType::guess_from_return_value(false, false, false), FunctionType::Normal);
}

#[test]
fn return_plans() {
    let all = CallsiteSet { ret: true, yields: true, err: true };
    assert_eq!(
        plan_return(FunctionType::Normal, true, all),
        ReturnPlan { ret_event: true, wrapper: Wrapper::Plain }
    );
    assert_eq!(
        plan_return(FunctionType::Generator, true, all),
        ReturnPlan { ret_event: false, wrapper: Wrapper::Generator(all) }
    );
    assert_eq!(
        plan_return(FunctionType::Async, true, all),
        ReturnPlan {
            ret_event: false,
            wrapper: Wrapper::Coroutine(CallsiteSet { ret: true, yields: false, err: true })
        }
    );
    assert_eq!(
        plan_return(FunctionType::AsyncGenerator, true, all),
        ReturnPlan {
            ret_event: false,
            wrapper: Wrapper::AsyncGenerator(CallsiteSet { ret: false, yields: true, err: true })
        }
    );
    // without a span nothing is wrapped
    assert_eq!(
        plan_return(FunctionType::Generator, false, all),
        ReturnPlan { ret_event: false, wrapper: Wrapper::Plain }
    );
    let none = CallsiteSet { ret: false, yields: false, err: false };
    assert_eq!(
        plan_return(FunctionType::Normal, true, none),
        ReturnPlan { ret_event: false, wrapper: Wrapper::Plain }
    );
}

#[test]
fn anext_step_logs_yields_as_returns() {
    let c = CallsiteSet { ret: false, yields: true, err: true };
    assert_eq!(anext_callsites(c), CallsiteSet { ret: true, yields: false, err: true });
}

#[test]
fn generator_step_events() {
    let all = CallsiteSet { ret: true, yields: true, err: true };
    assert_eq!(next_event(NextOutcome::Yielded, all), NextEvent::Yield);
    assert_eq!(next_event(NextOutcome::Stopped, all), NextEvent::Return);
    assert_eq!(next_event(NextOutcome::Raised, all), NextEvent::Error);
    let err_only = CallsiteSet { ret: false, yields: false, err: true };
    assert_eq!(next_event(NextOutcome::Yielded, err_only), NextEvent::NoEvent);
    assert_eq!(next_event(NextOutcome::Stopped, err_only), NextEvent::NoEvent);
    assert_eq!(next_event(NextOutcome::Raised, err_only), NextEvent::Error);
    let ret_no_err = CallsiteSet { ret: true, yields: false, err: false };
    assert_eq!(next_event(NextOutcome::Stopped, ret_no_err), NextEvent::NoEvent);
}

#[test]
fn law_generator_events_follow_ret_log_on_each_choice() {
    for log in [RetLog::RetYieldErr, RetLog::RetErr, RetLog::ErrOnly, RetLog::Nothing] {
        let c = log.callsites();
        assert_eq!(next_event(NextOutcome::Stopped, c) == NextEvent::Return, log.ret());
        assert_eq!(next_event(NextOutcome::Yielded, c) == NextEvent::Yield, log.yields());
        assert_eq!(next_event(NextOutcome::Raised, c) == NextEvent::Error, log.err());
    }
}

#[test]
fn law_wrapped_iff_not_normal_on_each_type() {
    let all = CallsiteSet { ret: true, yields: true, err: true };
    for t in [FunctionType::Normal, FunctionType::Generator, FunctionType::Async, FunctionType::AsyncGenerator] {
        assert_eq!(plan_return(t, true, all).wrapper == Wrapper::Plain, t == FunctionType::Normal);
        assert_eq!(plan_return(t, false, all).wrapper, Wrapper::Plain);
        assert!(!plan_return(t, true, all).ret_event || t == FunctionType::Normal);
    }
}

#[test]
fn law_fields_name_recorded_parameters_on_example() {
    // the recorded values line up with the field names
    let o = InstrumentOptions::from_args(PyLevel::Info, names(&["a", "c"]), false, false, false, false)
        .ok()
        .unwrap();
    let inst = Instrumentation::new(signature(), &o, &mut VecLeaker::new());
    assert_eq!(inst.fields(), &["b", "d"]);
    let b = inst.bind_retained(3, &names(&["d"]), 0, &vec![]).unwrap();
    // `b` is the second positional argument, `d` the first keyword
    assert_eq!(b.slots, vec![ArgSource::Positional(1), ArgSource::Keyword(0)]);
}
