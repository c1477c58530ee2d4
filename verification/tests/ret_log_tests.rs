use pytracing::ret_log::{CallsiteSet, RetLog, RetLogError};

#[test]
fn from_opts_all_combinations() {
    assert_eq!(RetLog::from_opts(true, true, true), Err(RetLogError::ErrOnlyWithRetOrNoYield));
    assert_eq!(RetLog::from_opts(true, true, false), Ok(RetLog::RetErr));
    assert_eq!(RetLog::from_opts(true, false, true), Err(RetLogError::ErrOnlyWithRet));
    assert_eq!(RetLog::from_opts(true, false, false), Ok(RetLog::RetYieldErr));
    assert_eq!(RetLog::from_opts(false, true, true), Err(RetLogError::ErrOnlyWithNoYield));
    assert_eq!(RetLog::from_opts(false, true, false), Err(RetLogError::NoYieldWithoutRet));
    assert_eq!(RetLog::from_opts(false, false, true), Ok(RetLog::ErrOnly));
    assert_eq!(RetLog::from_opts(false, false, false), Ok(RetLog::Nothing));
}

#[test]
fn ret_log_error_messages() {
    assert_eq!(
        RetLogError::ErrOnlyWithRetOrNoYield.message(),
        "`err_only` cannot be used with `ret` or `no_yield`"
    );
    assert_eq!(RetLogError::ErrOnlyWithRet.message(), "`err_only` cannot be used with `ret`");
    assert_eq!(RetLogError::ErrOnlyWithNoYield.message(), "`err_only` cannot be used with `no_yield`");
    assert_eq!(RetLogError::NoYieldWithoutRet.message(), "`no_yield` cannot be used without `ret`");
}

#[test]
fn ret_log_default_is_nothing() {
    assert_eq!(RetLog::default_log(), RetLog::Nothing);
}

#[test]
fn ret_log_flags_and_callsites() {
    assert_eq!(RetLog::RetYieldErr.callsites(), CallsiteSet { ret: true, yields: true, err: true });
    assert_eq!(RetLog::RetErr.callsites(), CallsiteSet { ret: true, yields: false, err: true });
    assert_eq!(RetLog::ErrOnly.callsites(), CallsiteSet { ret: false, yields: false, err: true });
    assert_eq!(RetLog::Nothing.callsites(), CallsiteSet { ret: false, yields: false, err: false });
    assert!(RetLog::RetErr.ret() && !RetLog::RetErr.yields() && RetLog::RetErr.err());
}

#[test]
fn law_ret_log_implications_on_each_choice() {
    for log in [RetLog::RetYieldErr, RetLog::RetErr, RetLog::ErrOnly, RetLog::Nothing] {
        assert!(!log.yields() || log.ret());
        assert!(!log.ret() || log.err());
    }
}

#[test]
fn law_from_opts_meaning_on_each_accepted_combination() {
    for ret in [false, true] {
        for no_yield in [false, true] {
            for err_only in [false, true] {
                if let Ok(log) = RetLog::from_opts(ret, no_yield, err_only) {
                    assert_eq!(log.ret(), ret);
                    assert_eq!(log.yields(), ret && !no_yield);
                    assert_eq!(log.err(), ret || err_only);
                }
            }
        }
    }
}
