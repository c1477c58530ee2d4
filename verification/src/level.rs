use vstd::prelude::*;

verus! {

/// The verbosity of an event or span, from the most verbose to the least.
#[derive(Clone, Copy, Debug, PartialEq, Eq, Hash, Structural)]
pub enum PyLevel {
    Trace,
    Debug,
    Info,
    Warn,
    Error,
}

/// How verbose a level is: `Error` the least, `Trace` the most.
pub open spec fn verbosity(l: PyLevel) -> nat {
    match l {
        PyLevel::Error => 1,
        PyLevel::Warn => 2,
        PyLevel::Info => 3,
        PyLevel::Debug => 4,
        PyLevel::Trace => 5,
    }
}

/// Whether a level passes a level filter; a filter is the most verbose level it lets through,
/// or `None` where it lets nothing through (`OFF`).
pub open spec fn spec_passes(l: PyLevel, filter: Option<PyLevel>) -> bool {
    match filter {
        Some(f) => verbosity(l) <= verbosity(f),
        None => false,
    }
}

impl PyLevel {
    /// The rank of the level by verbosity, `Error` lowest.
    pub fn rank(self) -> (r: u8)
        ensures
            r == verbosity(self),
    {
        match self {
            PyLevel::Error => 1,
            PyLevel::Warn => 2,
            PyLevel::Info => 3,
            PyLevel::Debug => 4,
            PyLevel::Trace => 5,
        }
    }

    /// Whether this level passes `filter` (`None` is `OFF`).
    pub fn passes(self, filter: Option<PyLevel>) -> (r: bool)
        ensures
            r == spec_passes(self, filter),
    {
        match filter {
            Some(f) => self.rank() <= f.rank(),
            None => false,
        }
    }

    /// The level of instrumented functions and formatting layers unless another is chosen.
    pub fn default_level() -> (r: PyLevel)
        ensures
            r == PyLevel::Info,
    {
        PyLevel::Info
    }

    /// Whether a formatting layer at this level needs a level filter; at `Trace` nothing would
    /// be filtered out.
    pub fn needs_level_filter(self) -> (r: bool)
        ensures
            r == (self != PyLevel::Trace),
    {
        match self {
            PyLevel::Trace => false,
            _ => true,
        }
    }
}


/// Levels are ordered as in `tracing`: `Error` is the least verbose, then `Warn`, `Info`,
/// `Debug`, and `Trace` the most verbose. A filter lets a level through exactly when the filter
/// is at that level or at a more verbose one; `OFF` (`None`) lets nothing through.
pub proof fn law_level_order(l: PyLevel, f: PyLevel, g: PyLevel)
    ensures
        verbosity(PyLevel::Error) < verbosity(PyLevel::Warn),
        verbosity(PyLevel::Warn) < verbosity(PyLevel::Info),
        verbosity(PyLevel::Info) < verbosity(PyLevel::Debug),
        verbosity(PyLevel::Debug) < verbosity(PyLevel::Trace),
        spec_passes(PyLevel::Error, Some(PyLevel::Warn)),
        !spec_passes(PyLevel::Warn, Some(PyLevel::Error)),
        spec_passes(PyLevel::Warn, Some(PyLevel::Info)),
        !spec_passes(PyLevel::Info, Some(PyLevel::Warn)),
        spec_passes(PyLevel::Info, Some(PyLevel::Debug)),
        !spec_passes(PyLevel::Debug, Some(PyLevel::Info)),
        spec_passes(PyLevel::Debug, Some(PyLevel::Trace)),
        !spec_passes(PyLevel::Trace, Some(PyLevel::Debug)),
        spec_passes(l, Some(l)),
        spec_passes(l, Some(PyLevel::Trace)),
        spec_passes(PyLevel::Error, Some(f)),
        !spec_passes(l, None),
        spec_passes(l, Some(f)) && spec_passes(f, Some(g)) ==> spec_passes(l, Some(g)),
        spec_passes(l, Some(f)) || spec_passes(f, Some(l)),
        spec_passes(l, Some(f)) && spec_passes(f, Some(l)) ==> l == f,
{
}

} // verus!
