use vstd::prelude::*;

verus! {

/// Which outcomes of an instrumented function are logged as events.
#[derive(Clone, Copy, Debug, PartialEq, Eq, Structural)]
pub enum RetLog {
    /// Returned values, yielded values and raised exceptions.
    RetYieldErr,
    /// Returned values and raised exceptions.
    RetErr,
    /// Raised exceptions only.
    ErrOnly,
    /// Nothing.
    Nothing,
}

/// A combination of `instrument` options that is refused.
#[derive(Clone, Copy, Debug, PartialEq, Eq, Structural)]
pub enum RetLogError {
    ErrOnlyWithRetOrNoYield,
    ErrOnlyWithRet,
    ErrOnlyWithNoYield,
    NoYieldWithoutRet,
}

impl RetLogError {
    /// The text of the error that Python sees (a `ValueError`).
    pub fn message(self) -> (r: &'static str)
        ensures
            r@ == match self {
                RetLogError::ErrOnlyWithRetOrNoYield => "`err_only` cannot be used with `ret` or `no_yield`"@,
                RetLogError::ErrOnlyWithRet => "`err_only` cannot be used with `ret`"@,
                RetLogError::ErrOnlyWithNoYield => "`err_only` cannot be used with `no_yield`"@,
                RetLogError::NoYieldWithoutRet => "`no_yield` cannot be used without `ret`"@,
            },
    {
        match self {
            RetLogError::ErrOnlyWithRetOrNoYield => "`err_only` cannot be used with `ret` or `no_yield`",
            RetLogError::ErrOnlyWithRet => "`err_only` cannot be used with `ret`",
            RetLogError::ErrOnlyWithNoYield => "`err_only` cannot be used with `no_yield`",
            RetLogError::NoYieldWithoutRet => "`no_yield` cannot be used without `ret`",
        }
    }
}

/// Which events an instrumented function can emit: for a returned value, a yielded value, and an
/// exception.
#[derive(Clone, Copy, Debug, PartialEq, Eq, Structural)]
pub struct CallsiteSet {
    pub ret: bool,
    pub yields: bool,
    pub err: bool,
}

/// The logging choice that the options `ret`, `no_yield` and `err_only` make, or why they
/// contradict each other.
pub open spec fn spec_from_opts(ret: bool, no_yield: bool, err_only: bool) -> Result<RetLog, RetLogError> {
    match (ret, no_yield, err_only) {
        (true, true, true) => Err(RetLogError::ErrOnlyWithRetOrNoYield),
        (true, true, false) => Ok(RetLog::RetErr),
        (true, false, true) => Err(RetLogError::ErrOnlyWithRet),
        (true, false, false) => Ok(RetLog::RetYieldErr),
        (false, true, true) => Err(RetLogError::ErrOnlyWithNoYield),
        (false, true, false) => Err(RetLogError::NoYieldWithoutRet),
        (false, false, true) => Ok(RetLog::ErrOnly),
        (false, false, false) => Ok(RetLog::Nothing),
    }
}

impl RetLog {
    /// Logging nothing is the default.
    pub fn default_log() -> (r: RetLog)
        ensures
            r == RetLog::Nothing,
    {
        RetLog::Nothing
    }

    /// The choice that `instrument(ret=..., no_yield=..., ret_err_only=...)` makes.
    pub fn from_opts(ret: bool, no_yield: bool, err_only: bool) -> (r: Result<RetLog, RetLogError>)
        ensures
            r == spec_from_opts(ret, no_yield, err_only),
    {
        match (ret, no_yield, err_only) {
            (true, true, true) => Err(RetLogError::ErrOnlyWithRetOrNoYield),
            (true, true, false) => Ok(RetLog::RetErr),
            (true, false, true) => Err(RetLogError::ErrOnlyWithRet),
            (true, false, false) => Ok(RetLog::RetYieldErr),
            (false, true, true) => Err(RetLogError::ErrOnlyWithNoYield),
            (false, true, false) => Err(RetLogError::NoYieldWithoutRet),
            (false, false, true) => Ok(RetLog::ErrOnly),
            (false, false, false) => Ok(RetLog::Nothing),
        }
    }

    /// Whether returned values are logged.
    pub open spec fn spec_ret(self) -> bool {
        self is RetYieldErr || self is RetErr
    }

    /// Whether yielded values are logged.
    pub open spec fn spec_yields(self) -> bool {
        self is RetYieldErr
    }

    /// Whether raised exceptions are logged.
    pub open spec fn spec_err(self) -> bool {
        !(self is Nothing)
    }

    /// Whether returned values are logged.
    pub fn ret(self) -> (r: bool)
        ensures
            r == self.spec_ret(),
    {
        match self {
            RetLog::RetYieldErr | RetLog::RetErr => true,
            RetLog::ErrOnly | RetLog::Nothing => false,
        }
    }

    /// Whether yielded values are logged.
    pub fn yields(self) -> (r: bool)
        ensures
            r == self.spec_yields(),
    {
        match self {
            RetLog::RetYieldErr => true,
            RetLog::RetErr | RetLog::ErrOnly | RetLog::Nothing => false,
        }
    }

    /// Whether raised exceptions are logged.
    pub fn err(self) -> (r: bool)
        ensures
            r == self.spec_err(),
    {
        match self {
            RetLog::RetYieldErr | RetLog::RetErr | RetLog::ErrOnly => true,
            RetLog::Nothing => false,
        }
    }

    /// The event callsites that an instrumented function needs.
    pub fn callsites(self) -> (r: CallsiteSet)
        ensures
            r == (CallsiteSet { ret: self.spec_ret(), yields: self.spec_yields(), err: self.spec_err() }),
    {
        CallsiteSet { ret: self.ret(), yields: self.yields(), err: self.err() }
    }
}

/// Logging yielded values implies logging returned values, which implies logging exceptions.
pub proof fn law_ret_log_implications(log: RetLog)
    ensures
        log.spec_yields() ==> log.spec_ret(),
        log.spec_ret() ==> log.spec_err(),
{
}

/// `err_only` logs exceptions and nothing else; `no_yield` never logs yielded values; `ret`
/// without `no_yield` logs everything.
pub proof fn law_from_opts_meaning(ret: bool, no_yield: bool, err_only: bool)
    ensures
        spec_from_opts(ret, no_yield, err_only) matches Ok(log) ==> {
            &&& log.spec_ret() == ret
            &&& log.spec_yields() == (ret && !no_yield)
            &&& log.spec_err() == (ret || err_only)
        },
        spec_from_opts(ret, no_yield, err_only) is Ok <==> !(err_only && (ret || no_yield)) && !(no_yield
            && !ret),
{
}

/// Every choice of what to log can be made with some combination of options, and with one only.
pub proof fn law_from_opts_onto(log: RetLog)
    ensures
        exists|ret: bool, no_yield: bool, err_only: bool| spec_from_opts(ret, no_yield, err_only)
            == Ok::<RetLog, RetLogError>(log),
        forall|r1: bool, n1: bool, e1: bool, r2: bool, n2: bool, e2: bool|
            spec_from_opts(r1, n1, e1) == Ok::<RetLog, RetLogError>(log) && spec_from_opts(r2, n2, e2)
                == Ok::<RetLog, RetLogError>(log) ==> r1 == r2 && n1 == n2 && e1 == e2,
{
    match log {
        RetLog::RetYieldErr => assert(spec_from_opts(true, false, false) == Ok::<RetLog, RetLogError>(log)),
        RetLog::RetErr => assert(spec_from_opts(true, true, false) == Ok::<RetLog, RetLogError>(log)),
        RetLog::ErrOnly => assert(spec_from_opts(false, false, true) == Ok::<RetLog, RetLogError>(log)),
        RetLog::Nothing => assert(spec_from_opts(false, false, false) == Ok::<RetLog, RetLogError>(log)),
    }
}

} // verus!
