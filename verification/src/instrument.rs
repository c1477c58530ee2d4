use vstd::prelude::*;

use rapidhash::RapidHashSet;

use crate::leak::{capped, str_views, warning_due_in, VecLeaker};
use crate::level::PyLevel;
use crate::ret_log::{spec_from_opts, CallsiteSet, RetLog, RetLogError};
use crate::signature::{
    name_table, name_table_get, name_table_insert, name_table_new, spec_bind, strings_view,
    ArgSource, BindError, BoundArgs, Signature,
};

verus! {

// ---------------------------------------------------------------------------------------------
// Skipped parameter names
// ---------------------------------------------------------------------------------------------

/// What a set of skipped parameter names holds, by the characters of each name.
pub uninterp spec fn skip_names(set: RapidHashSet<String>) -> Set<Seq<char>>;

/// Trusted: `RapidHashSet::default` (std `HashSet::default` with rapidhash's hasher) is empty.
#[verifier::external_body]
fn skip_names_new() -> (set: RapidHashSet<String>)
    ensures
        skip_names(set) == Set::<Seq<char>>::empty(),
{
    RapidHashSet::default()
}

/// Trusted: `HashSet::insert` adds the name (it stays as it was where an equal string is there).
#[verifier::external_body]
fn skip_names_insert(set: &mut RapidHashSet<String>, name: String)
    ensures
        skip_names(*final(set)) == skip_names(*old(set)).insert(name@),
{
    set.insert(name);
}

/// Trusted: `HashSet::contains` with a `&str` finds a `String` of the same characters.
#[verifier::external_body]
fn skip_names_contains(set: &RapidHashSet<String>, name: &str) -> (r: bool)
    ensures
        r == skip_names(*set).contains(name@),
{
    set.contains(name)
}

/// Trusted: `slice::sort_unstable` sorts the numbers in ascending order; the sorted order of a
/// list of numbers is unique.
#[verifier::external_body]
fn sort_indices(v: &mut Vec<usize>)
    ensures
        final(v)@ == old(v)@.sort_by(|a: usize, b: usize| a <= b),
{
    v.sort_unstable();
}

// ---------------------------------------------------------------------------------------------
// Options
// ---------------------------------------------------------------------------------------------

/// What `instrument` was asked to do.
pub struct InstrumentOptions {
    pub level: PyLevel,
    pub skip: RapidHashSet<String>,
    pub skip_all: bool,
    pub ret_log: RetLog,
}

impl InstrumentOptions {
    /// The names of the parameters that are not recorded.
    pub open spec fn skipped(&self) -> Set<Seq<char>> {
        skip_names(self.skip)
    }

    /// Whether the parameter `name` is not recorded.
    pub fn skips(&self, name: &str) -> (r: bool)
        ensures
            r == self.skipped().contains(name@),
    {
        skip_names_contains(&self.skip, name)
    }

    /// The options of `instrument` without arguments: level `INFO`, every parameter recorded,
    /// no outcome logged.
    pub fn default_options() -> (r: InstrumentOptions)
        ensures
            r.level == PyLevel::Info,
            r.skipped() == Set::<Seq<char>>::empty(),
            !r.skip_all,
            r.ret_log == RetLog::Nothing,
    {
        InstrumentOptions {
            level: PyLevel::default_level(),
            skip: skip_names_new(),
            skip_all: false,
            ret_log: RetLog::default_log(),
        }
    }

    /// The options of `instrument(level=..., skip=..., skip_all=..., ret=..., ret_err_only=...,
    /// no_yield=...)`, or why they contradict each other.
    pub fn from_args(
        level: PyLevel,
        skip: Vec<String>,
        skip_all: bool,
        ret: bool,
        ret_err_only: bool,
        no_yield: bool,
    ) -> (r: Result<InstrumentOptions, RetLogError>)
        ensures
            match spec_from_opts(ret, no_yield, ret_err_only) {
                Ok(log) => r matches Ok(o) && o.level == level && o.skipped() == strings_view(
                    skip@,
                ).to_set() && o.skip_all == skip_all && o.ret_log == log,
                Err(e) => r matches Err(e2) && e2 == e,
            },
    {
        let mut set = skip_names_new();
        let ghost all = strings_view(skip@);
        let mut rest = skip;
        while rest.len() > 0
            invariant
                all.to_set() == skip_names(set).union(strings_view(rest@).to_set()),
            decreases rest.len(),
        {
            let ghost before = rest@;
            let name = rest.pop().unwrap();
            proof {
                assert(before =~= rest@.push(name));
                assert(strings_view(before) =~= strings_view(rest@).push(name@));
                strings_view(rest@).lemma_push_to_set_commute(name@);
            }
            skip_names_insert(&mut set, name);
            proof {
                assert(skip_names(set).union(strings_view(rest@).to_set()) =~= all.to_set());
            }
        }
        proof {
            assert(strings_view(rest@).to_set() =~= Set::<Seq<char>>::empty());
            assert(skip_names(set).union(Set::<Seq<char>>::empty()) =~= skip_names(set));
        }
        let ret_log = match RetLog::from_opts(ret, no_yield, ret_err_only) {
            Ok(log) => log,
            Err(e) => {
                return Err(e);
            },
        };
        Ok(InstrumentOptions { level, skip: set, skip_all, ret_log })
    }
}

// ---------------------------------------------------------------------------------------------
// Which parameters are recorded
// ---------------------------------------------------------------------------------------------

/// The names that are not skipped, in order.
pub open spec fn kept_names(names: Seq<Seq<char>>, skip: Set<Seq<char>>) -> Seq<Seq<char>>
    decreases names.len(),
{
    if names.len() == 0 {
        Seq::empty()
    } else {
        let prev = kept_names(names.drop_last(), skip);
        if skip.contains(names.last()) {
            prev
        } else {
            prev.push(names.last())
        }
    }
}

/// The positions of the names that are not skipped, in ascending order.
pub open spec fn kept_positions(names: Seq<Seq<char>>, skip: Set<Seq<char>>) -> Seq<usize>
    decreases names.len(),
{
    if names.len() == 0 {
        Seq::empty()
    } else {
        let prev = kept_positions(names.drop_last(), skip);
        if skip.contains(names.last()) {
            prev
        } else {
            prev.push((names.len() - 1) as usize)
        }
    }
}

/// Each number is smaller than the next.
pub open spec fn strictly_increasing(s: Seq<usize>) -> bool {
    forall|i: int, j: int| 0 <= i < j < s.len() ==> s[i] < s[j]
}

/// The kept positions are ascending, within the list, and point at the kept names.
proof fn lemma_kept(names: Seq<Seq<char>>, skip: Set<Seq<char>>)
    requires
        names.len() <= usize::MAX,
    ensures
        kept_positions(names, skip).len() == kept_names(names, skip).len(),
        strictly_increasing(kept_positions(names, skip)),
        forall|k: int|
            0 <= k < kept_positions(names, skip).len() ==> #[trigger] kept_positions(names, skip)[k]
                < names.len() && names[kept_positions(names, skip)[k] as int] == kept_names(
                names,
                skip,
            )[k],
    decreases names.len(),
{
    if names.len() > 0 {
        let prev = names.drop_last();
        lemma_kept(prev, skip);
        let pp = kept_positions(prev, skip);
        let p = kept_positions(names, skip);
        let kn = kept_names(names, skip);
        let pn = kept_names(prev, skip);
        assert forall|k: int| 0 <= k < p.len() implies #[trigger] p[k] < names.len() && names[p[k] as int]
            == kn[k] by {
            if k < pp.len() {
                assert(p[k] == pp[k]);
                assert(kn[k] == pn[k]);
                assert(pp[k] < prev.len());
                assert(names[pp[k] as int] == prev[pp[k] as int]);
            }
        }
        assert forall|i: int, j: int| 0 <= i < j < p.len() implies p[i] < p[j] by {
            assert(p[i] == pp[i]);
            assert(pp[i] < prev.len());
            if j < pp.len() {
                assert(p[j] == pp[j]);
            }
        }
    }
}

/// The span of an instrumented function records, under each of its fields, the value of the
/// parameter of that name: the recorded positions ascend, lie within the parameter list and
/// point at the field names, one position per field.
pub proof fn law_fields_name_recorded_parameters(names: Seq<Seq<char>>, skip: Set<Seq<char>>)
    requires
        names.len() <= usize::MAX,
    ensures
        kept_positions(names, skip).len() == kept_names(names, skip).len(),
        strictly_increasing(kept_positions(names, skip)),
        forall|k: int|
            0 <= k < kept_positions(names, skip).len() ==> #[trigger] kept_positions(names, skip)[k]
                < names.len() && names[kept_positions(names, skip)[k] as int] == kept_names(
                names,
                skip,
            )[k],
{
    lemma_kept(names, skip);
}

/// The position of each name in a list of distinct names.
pub open spec fn positions_of(names: Seq<Seq<char>>) -> Map<Seq<char>, usize>
    decreases names.len(),
{
    if names.len() == 0 {
        Map::empty()
    } else {
        positions_of(names.drop_last()).insert(names.last(), (names.len() - 1) as usize)
    }
}

/// In a list of distinct names, each name maps to its own position.
proof fn lemma_positions_of(names: Seq<Seq<char>>)
    requires
        names.no_duplicates(),
        names.len() <= usize::MAX,
    ensures
        forall|i: int| 0 <= i < names.len() ==> #[trigger] positions_of(names).contains_key(names[i])
            && positions_of(names)[names[i]] == i,
    decreases names.len(),
{
    if names.len() > 0 {
        let prev = names.drop_last();
        assert forall|a: int, b: int| 0 <= a < prev.len() && 0 <= b < prev.len() && a != b implies prev[a]
            != prev[b] by {
            assert(prev[a] == names[a]);
            assert(prev[b] == names[b]);
        }
        lemma_positions_of(prev);
        assert forall|i: int| 0 <= i < names.len() implies #[trigger] positions_of(names).contains_key(
            names[i],
        ) && positions_of(names)[names[i]] == i by {
            if i < names.len() - 1 {
                assert(prev[i] == names[i]);
                assert(names[i] != names[names.len() - 1]);
                assert(positions_of(prev).contains_key(prev[i]));
                assert(positions_of(prev)[prev[i]] == i);
            }
        }
    }
}

/// Sorting an ascending list leaves it as it is.
proof fn lemma_sorted_stays(s: Seq<usize>)
    requires
        strictly_increasing(s),
    ensures
        s.sort_by(|a: usize, b: usize| a <= b) == s,
{
    let leq = |a: usize, b: usize| a <= b;
    s.lemma_sort_by_ensures(leq);
    assert(vstd::relations::total_ordering(leq)) by {
        assert(vstd::relations::reflexive(leq));
        assert(vstd::relations::antisymmetric(leq));
        assert(vstd::relations::transitive(leq));
        assert(vstd::relations::strongly_connected(leq));
    }
    assert(vstd::relations::sorted_by(s, leq));
    vstd::seq_lib::lemma_sorted_unique(s, s.sort_by(leq), leq);
}

/// An instrumented function: its signature, the fields of its span, and the positions of the
/// parameters that the span records.
pub struct Instrumentation {
    signature: Signature,
    fields: &'static [&'static str],
    retain_indices: Vec<usize>,
}

impl Instrumentation {
    #[verifier::type_invariant]
    closed spec fn inv(self) -> bool {
        &&& strictly_increasing(self.retain_indices@)
        &&& forall|k: int|
            0 <= k < self.retain_indices@.len() ==> #[trigger] self.retain_indices@[k] < self.signature@.names.len()
    }

    /// The signature of the function.
    pub closed spec fn spec_signature(&self) -> Signature {
        self.signature
    }

    /// The names of the recorded parameters.
    pub closed spec fn spec_fields(&self) -> Seq<Seq<char>> {
        str_views(self.fields@)
    }

    /// The positions of the recorded parameters.
    pub closed spec fn spec_retain(&self) -> Seq<usize> {
        self.retain_indices@
    }

    /// Plans the span of a function with signature `signature`: its fields are the parameter
    /// names that are not skipped (interned), and it records the values of those parameters,
    /// or none where `skip_all` is set.
    pub fn new(signature: Signature, options: &InstrumentOptions, vec_leaker: &mut VecLeaker) -> (r:
        Instrumentation)
        ensures
            r.spec_signature() == signature,
            r.spec_fields() == kept_names(signature@.names, options.skipped()),
            r.spec_retain() == if options.skip_all {
                Seq::<usize>::empty()
            } else {
                kept_positions(signature@.names, options.skipped())
            },
            final(vec_leaker)@ == old(vec_leaker)@.insert(kept_names(signature@.names, options.skipped())),
            final(vec_leaker).pending_warnings() == capped(
                old(vec_leaker).pending_warnings() + if warning_due_in(
                    old(vec_leaker)@,
                    kept_names(signature@.names, options.skipped()),
                ) {
                    1nat
                } else {
                    0nat
                },
            ),
    {
        let names = signature.param_names();
        let ghost nv = signature@.names;
        let ghost skip = options.skipped();
        proof {
            use_type_invariant(&signature);
        }
        let mut kept: Vec<&'static str> = Vec::new();
        let mut i: usize = 0;
        while i < names.len()
            invariant
                str_views(names@) == nv,
                names@.len() == nv.len(),
                skip == options.skipped(),
                i <= names.len(),
                str_views(kept@) == kept_names(nv.take(i as int), skip),
            decreases names.len() - i,
        {
            proof {
                assert(nv.take(i as int + 1).drop_last() =~= nv.take(i as int));
                assert(nv[i as int] == names@[i as int]@);
            }
            let ghost before = kept@;
            if !options.skips(names[i]) {
                kept.push(names[i]);
                assert(str_views(kept@) =~= str_views(before).push(names@[i as int]@));
            }
            i = i + 1;
        }
        assert(nv.take(i as int) =~= nv);
        let ghost kept_view = str_views(kept@);
        let fields = vec_leaker.leak_or_get(kept);

        let mut retain_indices: Vec<usize> = Vec::new();
        if !options.skip_all {
            let mut param_to_index = name_table_new();
            let mut i: usize = 0;
            while i < names.len()
                invariant
                    str_views(names@) == nv,
                    names@.len() == nv.len(),
                    i <= names.len(),
                    name_table(param_to_index) == positions_of(nv.take(i as int)),
                decreases names.len() - i,
            {
                proof {
                    assert(nv.take(i as int + 1).drop_last() =~= nv.take(i as int));
                    assert(nv[i as int] == names@[i as int]@);
                }
                name_table_insert(&mut param_to_index, names[i], i);
                i = i + 1;
            }
            assert(nv.take(i as int) =~= nv);
            proof {
                lemma_positions_of(nv);
                lemma_kept(nv, skip);
            }
            let ghost positions = kept_positions(nv, skip);
            let mut k: usize = 0;
            while k < fields.len()
                invariant
                    str_views(fields@) == kept_names(nv, skip),
                    fields@.len() == positions.len(),
                    positions == kept_positions(nv, skip),
                    name_table(param_to_index) == positions_of(nv),
                    forall|j: int| 0 <= j < nv.len() ==> #[trigger] positions_of(nv).contains_key(nv[j])
                        && positions_of(nv)[nv[j]] == j,
                    forall|j: int|
                        0 <= j < positions.len() ==> #[trigger] positions[j] < nv.len() && nv[positions[j] as int]
                            == kept_names(nv, skip)[j],
                    k <= fields.len(),
                    retain_indices@ =~= positions.take(k as int),
                decreases fields.len() - k,
            {
                assert(fields@[k as int]@ == kept_names(nv, skip)[k as int]);
                assert(positions[k as int] < nv.len());
                let idx = name_table_get(&param_to_index, fields[k]);
                let idx = match idx {
                    Some(idx) => idx,
                    None => {
                        assert(false);
                        0
                    },
                };
                retain_indices.push(idx);
                k = k + 1;
            }
            assert(positions.take(k as int) =~= positions);
            proof {
                lemma_sorted_stays(positions);
            }
            sort_indices(&mut retain_indices);
        }
        proof {
            lemma_kept(nv, skip);
        }
        Instrumentation { signature, fields, retain_indices }
    }

    /// The signature of the function.
    pub fn signature(&self) -> (r: &Signature)
        ensures
            *r == self.spec_signature(),
    {
        &self.signature
    }

    /// The fields of the function's span.
    pub fn fields(&self) -> (r: &'static [&'static str])
        ensures
            str_views(r@) == self.spec_fields(),
    {
        self.fields
    }

    /// Binds a call's arguments (see `Signature::bind`) and keeps the sources of the recorded
    /// parameters, in order; nothing is bound where no parameter is recorded.
    pub fn bind_retained(
        &self,
        n_args: usize,
        kw_names: &Vec<String>,
        n_defaults: usize,
        kw_default_names: &Vec<String>,
    ) -> (r: Result<BoundArgs, BindError>)
        ensures
            self.spec_retain().len() == 0 ==> (r matches Ok(b) && b.slots@.len() == 0
                && b.excess_kwargs@.len() == 0),
            self.spec_retain().len() > 0 ==> (match spec_bind(
                self.spec_signature()@,
                n_args as nat,
                strings_view(kw_names@),
                n_defaults as nat,
                strings_view(kw_default_names@),
            ) {
                Ok((s, ex)) => r matches Ok(b) && b.slots@ == self.spec_retain().map_values(
                    |i: usize| s[i as int],
                ) && b.excess_kwargs@ == ex,
                Err(e) => r matches Err(e2) && e2 == e,
            }),
    {
        proof {
            use_type_invariant(self);
        }
        if self.retain_indices.len() == 0 {
            return Ok(BoundArgs { slots: Vec::new(), excess_kwargs: Vec::new() });
        }
        match self.signature.bind(n_args, kw_names, n_defaults, kw_default_names) {
            Ok(bound) => {
                proof {
                    use_type_invariant(&self.signature);
                    crate::signature::law_bind_positional(
                        self.signature@,
                        n_args as nat,
                        strings_view(kw_names@),
                        n_defaults as nat,
                        strings_view(kw_default_names@),
                    );
                }
                let BoundArgs { slots, excess_kwargs } = bound;
                let selected = select_retained(slots, &self.retain_indices);
                Ok(BoundArgs { slots: selected, excess_kwargs })
            },
            Err(e) => Err(e),
        }
    }
}

/// The elements of `values` at the positions `retain`, in that order.
pub fn select_retained<V>(values: Vec<V>, retain: &Vec<usize>) -> (r: Vec<V>)
    requires
        strictly_increasing(retain@),
        forall|k: int| 0 <= k < retain@.len() ==> #[trigger] retain@[k] < values@.len(),
    ensures
        r@ == retain@.map_values(|i: usize| values@[i as int]),
{
    let ghost orig = values@;
    let mut values = values;
    let mut picked: Vec<V> = Vec::new();
    let mut k = retain.len();
    while k > 0
        invariant
            k <= retain@.len(),
            strictly_increasing(retain@),
            forall|j: int| 0 <= j < retain@.len() ==> #[trigger] retain@[j] < orig.len(),
            k > 0 ==> values@.len() == retain@[k - 1] + 1 + (values@.len() - retain@[k - 1] - 1),
            k > 0 ==> retain@[k - 1] < values@.len(),
            forall|j: int| 0 <= j < k ==> #[trigger] values@[retain@[j] as int] == orig[retain@[j] as int],
            picked@.len() == retain@.len() - k,
            forall|j: int|
                0 <= j < picked@.len() ==> #[trigger] picked@[j] == orig[retain@[retain@.len() - 1 - j] as int],
        decreases k,
    {
        let idx = retain[k - 1];
        let ghost before = values@;
        let v = values.swap_remove(idx);
        picked.push(v);
        proof {
            assert forall|j: int| 0 <= j < k - 1 implies #[trigger] values@[retain@[j] as int]
                == orig[retain@[j] as int] by {
                assert(retain@[j] < retain@[k - 1]);
                assert(values@[retain@[j] as int] == before[retain@[j] as int]);
            }
            if k > 1 {
                assert(retain@[k - 2] < retain@[k - 1]);
            }
        }
        k = k - 1;
    }
    let mut out: Vec<V> = Vec::new();
    while picked.len() > 0
        invariant
            out@.len() + picked@.len() == retain@.len(),
            forall|j: int|
                0 <= j < picked@.len() ==> #[trigger] picked@[j] == orig[retain@[retain@.len() - 1 - j] as int],
            forall|j: int| 0 <= j < out@.len() ==> #[trigger] out@[j] == orig[retain@[j] as int],
        decreases picked.len(),
    {
        let v = picked.pop().unwrap();
        out.push(v);
    }
    assert(out@ =~= retain@.map_values(|i: usize| orig[i as int]));
    out
}

// ---------------------------------------------------------------------------------------------
// What happens around a call
// ---------------------------------------------------------------------------------------------

/// What an instrumented function turned out to be, judged by what a call returned.
#[derive(Clone, Copy, Debug, PartialEq, Eq, Structural)]
pub enum FunctionType {
    Normal,
    Generator,
    Async,
    AsyncGenerator,
}

impl FunctionType {
    /// The kind of function whose call returned a value that is a coroutine, a generator or an
    /// async generator, checked in this order.
    pub fn guess_from_return_value(is_coroutine: bool, is_generator: bool, is_async_generator: bool) -> (r:
        FunctionType)
        ensures
            r == if is_coroutine {
                FunctionType::Async
            } else if is_generator {
                FunctionType::Generator
            } else if is_async_generator {
                FunctionType::AsyncGenerator
            } else {
                FunctionType::Normal
            },
    {
        if is_coroutine {
            FunctionType::Async
        } else if is_generator {
            FunctionType::Generator
        } else if is_async_generator {
            FunctionType::AsyncGenerator
        } else {
            FunctionType::Normal
        }
    }
}

/// What a call's return value is handed back as.
#[derive(Clone, Copy, Debug, PartialEq, Eq, Structural)]
pub enum Wrapper {
    /// The value itself.
    Plain,
    /// An instrumented generator that can emit these events.
    Generator(CallsiteSet),
    /// An instrumented coroutine that can emit these events.
    Coroutine(CallsiteSet),
    /// An instrumented async generator that can emit these events.
    AsyncGenerator(CallsiteSet),
}

/// What to do after an instrumented call returned.
#[derive(Clone, Copy, Debug, PartialEq, Eq, Structural)]
pub struct ReturnPlan {
    /// Emit an event with the returned value.
    pub ret_event: bool,
    pub wrapper: Wrapper,
}

/// The plan after a call of a function of kind `fn_type` returned, with or without a span, where
/// the function can emit the events `callsites`.
pub open spec fn spec_plan_return(fn_type: FunctionType, has_span: bool, callsites: CallsiteSet) -> ReturnPlan {
    ReturnPlan {
        ret_event: callsites.ret && fn_type == FunctionType::Normal,
        wrapper: if !has_span {
            Wrapper::Plain
        } else {
            match fn_type {
                FunctionType::Normal => Wrapper::Plain,
                FunctionType::Generator => Wrapper::Generator(callsites),
                FunctionType::Async => Wrapper::Coroutine(
                    CallsiteSet { ret: callsites.ret, yields: false, err: callsites.err },
                ),
                FunctionType::AsyncGenerator => Wrapper::AsyncGenerator(
                    CallsiteSet { ret: false, yields: callsites.yields, err: callsites.err },
                ),
            }
        },
    }
}

/// Decides what follows a call that returned: a value of a normal function is logged where
/// returned values are; generators and coroutines are wrapped so that they run in the span and
/// log as they go (a coroutine's awaits are not logged as yields).
pub fn plan_return(fn_type: FunctionType, has_span: bool, callsites: CallsiteSet) -> (r: ReturnPlan)
    ensures
        r == spec_plan_return(fn_type, has_span, callsites),
{
    let ret_event = callsites.ret && match fn_type {
        FunctionType::Normal => true,
        _ => false,
    };
    let wrapper = if !has_span {
        Wrapper::Plain
    } else {
        match fn_type {
            FunctionType::Normal => Wrapper::Plain,
            FunctionType::Generator => Wrapper::Generator(callsites),
            FunctionType::Async => Wrapper::Coroutine(
                CallsiteSet { ret: callsites.ret, yields: false, err: callsites.err },
            ),
            FunctionType::AsyncGenerator => Wrapper::AsyncGenerator(
                CallsiteSet { ret: false, yields: callsites.yields, err: callsites.err },
            ),
        }
    };
    ReturnPlan { ret_event, wrapper }
}

/// The events of the coroutine that one step of an instrumented async generator runs: the value
/// that the step returns is the value that the generator yields.
pub fn anext_callsites(generator: CallsiteSet) -> (r: CallsiteSet)
    ensures
        r == (CallsiteSet { ret: generator.yields, yields: false, err: generator.err }),
{
    CallsiteSet { ret: generator.yields, yields: false, err: generator.err }
}

/// How one step of a generator ended.
#[derive(Clone, Copy, Debug, PartialEq, Eq, Structural)]
pub enum NextOutcome {
    /// It yielded a value.
    Yielded,
    /// It raised `StopIteration`, carrying the returned value.
    Stopped,
    /// It raised another exception.
    Raised,
}

/// The event that one step of an instrumented generator emits.
#[derive(Clone, Copy, Debug, PartialEq, Eq, Structural)]
pub enum NextEvent {
    Yield,
    Return,
    Error,
    NoEvent,
}

/// The event after a step of an instrumented generator that can emit the events `callsites`.
pub open spec fn spec_next_event(outcome: NextOutcome, callsites: CallsiteSet) -> NextEvent {
    match outcome {
        NextOutcome::Yielded => if callsites.yields {
            NextEvent::Yield
        } else {
            NextEvent::NoEvent
        },
        NextOutcome::Stopped => if callsites.err && callsites.ret {
            NextEvent::Return
        } else {
            NextEvent::NoEvent
        },
        NextOutcome::Raised => if callsites.err {
            NextEvent::Error
        } else {
            NextEvent::NoEvent
        },
    }
}

/// Decides which event a step of an instrumented generator emits: a yielded value where yields
/// are logged; the value of `StopIteration` where returns are logged (looked at only where
/// exceptions are logged); another exception where exceptions are logged.
pub fn next_event(outcome: NextOutcome, callsites: CallsiteSet) -> (r: NextEvent)
    ensures
        r == spec_next_event(outcome, callsites),
{
    match outcome {
        NextOutcome::Yielded => if callsites.yields {
            NextEvent::Yield
        } else {
            NextEvent::NoEvent
        },
        NextOutcome::Stopped => {
            if callsites.err {
                if callsites.ret {
                    NextEvent::Return
                } else {
                    NextEvent::NoEvent
                }
            } else {
                NextEvent::NoEvent
            }
        },
        NextOutcome::Raised => if callsites.err {
            NextEvent::Error
        } else {
            NextEvent::NoEvent
        },
    }
}

/// For the events that a logging choice allows, a generator's return is logged exactly when
/// returned values are logged, a yield exactly when yields are, an exception exactly when
/// exceptions are.
pub proof fn law_generator_events_follow_ret_log(log: RetLog)
    ensures
        ({
            let c = CallsiteSet { ret: log.spec_ret(), yields: log.spec_yields(), err: log.spec_err() };
            &&& (spec_next_event(NextOutcome::Stopped, c) == NextEvent::Return) == log.spec_ret()
            &&& (spec_next_event(NextOutcome::Yielded, c) == NextEvent::Yield) == log.spec_yields()
            &&& (spec_next_event(NextOutcome::Raised, c) == NextEvent::Error) == log.spec_err()
        }),
{
}

/// Whatever a call of an instrumented function returns inside its span is wrapped exactly when
/// it is a generator, a coroutine or an async generator; without a span nothing is wrapped; a
/// returned value is logged only for a normal function.
pub proof fn law_wrapped_iff_not_normal(fn_type: FunctionType, has_span: bool, callsites: CallsiteSet)
    ensures
        has_span ==> ((spec_plan_return(fn_type, has_span, callsites).wrapper is Plain) <==> fn_type
            == FunctionType::Normal),
        !has_span ==> spec_plan_return(fn_type, has_span, callsites).wrapper is Plain,
        spec_plan_return(fn_type, has_span, callsites).ret_event ==> fn_type == FunctionType::Normal,
{
}

/// What an instrumented call logs, for each kind of function, is what was asked for:
/// - a normal function's returned value is logged exactly when returned values are;
/// - a generator, run in the span, logs each yielded value exactly when yields are logged, its
///   return value (carried by `StopIteration`) exactly when returned values are, and any other
///   exception exactly when exceptions are;
/// - a coroutine, awaited in the span, logs its result exactly when returned values are, its
///   exceptions exactly when exceptions are, and never a yield;
/// - each step of an async generator logs the value it yields exactly when yields are logged,
///   and its exceptions exactly when exceptions are.
/// Without a span nothing is wrapped.
pub proof fn law_return_plan_logs_as_asked(log: RetLog, has_span: bool)
    ensures
        ({
            let c = CallsiteSet { ret: log.spec_ret(), yields: log.spec_yields(), err: log.spec_err() };
            &&& spec_plan_return(FunctionType::Normal, has_span, c).ret_event == log.spec_ret()
            &&& spec_plan_return(FunctionType::Normal, has_span, c).wrapper == Wrapper::Plain
            &&& !has_span ==> spec_plan_return(FunctionType::Generator, has_span, c).wrapper
                == Wrapper::Plain
            &&& has_span ==> (spec_plan_return(FunctionType::Generator, has_span, c).wrapper matches Wrapper::Generator(
                w,
            ) && (spec_next_event(NextOutcome::Yielded, w) == NextEvent::Yield) == log.spec_yields() && (
            spec_next_event(NextOutcome::Stopped, w) == NextEvent::Return) == log.spec_ret() && (
            spec_next_event(NextOutcome::Raised, w) == NextEvent::Error) == log.spec_err())
            &&& has_span ==> (spec_plan_return(FunctionType::Async, has_span, c).wrapper matches Wrapper::Coroutine(
                w,
            ) && spec_next_event(NextOutcome::Yielded, w) == NextEvent::NoEvent && (spec_next_event(
                NextOutcome::Stopped,
                w,
            ) == NextEvent::Return) == log.spec_ret() && (spec_next_event(NextOutcome::Raised, w)
                == NextEvent::Error) == log.spec_err())
            &&& has_span ==> (spec_plan_return(FunctionType::AsyncGenerator, has_span, c).wrapper matches Wrapper::AsyncGenerator(
                w,
            ) && ({
                let step = CallsiteSet { ret: w.yields, yields: false, err: w.err };
                &&& (spec_next_event(NextOutcome::Stopped, step) == NextEvent::Return) == log.spec_yields()
                &&& (spec_next_event(NextOutcome::Raised, step) == NextEvent::Error) == log.spec_err()
                &&& spec_next_event(NextOutcome::Yielded, step) == NextEvent::NoEvent
            }))
            &&& !spec_plan_return(FunctionType::Generator, has_span, c).ret_event
            &&& !spec_plan_return(FunctionType::Async, has_span, c).ret_event
            &&& !spec_plan_return(FunctionType::AsyncGenerator, has_span, c).ret_event
        }),
{
}

/// With a span, a generator is wrapped with every event that its function can emit, and nothing
/// else.
pub proof fn law_generator_keeps_callsites(c: CallsiteSet)
    ensures
        spec_plan_return(FunctionType::Generator, true, c).wrapper == Wrapper::Generator(c),
        spec_plan_return(FunctionType::Async, true, c).wrapper == Wrapper::Coroutine(
            CallsiteSet { ret: c.ret, yields: false, err: c.err },
        ),
        spec_plan_return(FunctionType::AsyncGenerator, true, c).wrapper == Wrapper::AsyncGenerator(
            CallsiteSet { ret: false, yields: c.yields, err: c.err },
        ),
{
}

/// Awaiting a coroutine never logs a yield, and an async generator logs each yielded value as
/// the return of the step's coroutine.
pub proof fn law_async_yields(fn_type: FunctionType, callsites: CallsiteSet)
    ensures
        spec_plan_return(fn_type, true, callsites).wrapper matches Wrapper::Coroutine(c) ==> !c.yields,
        spec_plan_return(fn_type, true, callsites).wrapper matches Wrapper::AsyncGenerator(c) ==> ({
            let step = CallsiteSet { ret: c.yields, yields: false, err: c.err };
            step.ret == callsites.yields && !step.yields && step.err == callsites.err
        }),
{
}

} // verus!
