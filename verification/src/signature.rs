use vstd::prelude::*;

use rapidhash::RapidHashMap;

use crate::leak::{
    capped, lemma_capped_step, lemma_leaker_pending_capped, str_views, warning_due_in, warnings_for,
    Leaker, VecLeaker,
};

verus! {

/// How a parameter of a Python function takes its argument.
#[derive(Clone, Copy, Debug, PartialEq, Eq, Structural)]
pub enum ParamKind {
    PositionalOnly,
    PositionalOrKeyword,
    /// `*args`
    ExcessArgs,
    KeywordOnly,
    /// `**kwargs`
    ExcessKwargs,
}

impl ParamKind {
    /// The kind that the value of `inspect.Parameter.kind` stands for (`POSITIONAL_ONLY` is 0,
    /// `POSITIONAL_OR_KEYWORD` 1, `VAR_POSITIONAL` 2, `KEYWORD_ONLY` 3, `VAR_KEYWORD` 4);
    /// `None` for any other value.
    pub fn maybe_from(code: i64) -> (r: Option<ParamKind>)
        ensures
            code == 0 ==> r == Some(ParamKind::PositionalOnly),
            code == 1 ==> r == Some(ParamKind::PositionalOrKeyword),
            code == 2 ==> r == Some(ParamKind::ExcessArgs),
            code == 3 ==> r == Some(ParamKind::KeywordOnly),
            code == 4 ==> r == Some(ParamKind::ExcessKwargs),
            r is None <==> !(0 <= code <= 4),
    {
        if code == 0 {
            Some(ParamKind::PositionalOnly)
        } else if code == 1 {
            Some(ParamKind::PositionalOrKeyword)
        } else if code == 2 {
            Some(ParamKind::ExcessArgs)
        } else if code == 3 {
            Some(ParamKind::KeywordOnly)
        } else if code == 4 {
            Some(ParamKind::ExcessKwargs)
        } else {
            None
        }
    }
}

impl ParamKind {
    /// Where the kind stands in a Python signature (see `kind_rank`).
    fn rank(self) -> (r: u8)
        ensures
            r == kind_rank(self),
    {
        match self {
            ParamKind::PositionalOnly => 0,
            ParamKind::PositionalOrKeyword => 1,
            ParamKind::ExcessArgs => 2,
            ParamKind::KeywordOnly => 3,
            ParamKind::ExcessKwargs => 4,
        }
    }
}

/// One parameter of a signature, as Python's `inspect.Signature.parameters` lists it.
pub struct Param {
    pub name: String,
    pub kind: ParamKind,
}

/// The name and the kind of a parameter.
pub open spec fn param_view(p: Param) -> (Seq<char>, ParamKind) {
    (p.name@, p.kind)
}

/// The names and kinds of a list of parameters.
pub open spec fn params_view(params: Seq<Param>) -> Seq<(Seq<char>, ParamKind)> {
    params.map_values(|p: Param| param_view(p))
}

/// The characters of each string of a vector of strings.
pub open spec fn strings_view(v: Seq<String>) -> Seq<Seq<char>> {
    v.map_values(|s: String| s@)
}

/// What a signature says about its parameters.
pub struct SignatureModel {
    /// All parameter names, in declaration order.
    pub names: Seq<Seq<char>>,
    /// The position of each parameter that can be passed by keyword.
    pub kw_index: Map<Seq<char>, usize>,
    pub has_excess_args: bool,
    pub has_excess_kwargs: bool,
    pub pos_only: nat,
    pub pos_or_kw: nat,
    pub kw_only: nat,
}

impl SignatureModel {
    /// Every parameter is counted once by its kind, and keyword positions are parameter positions.
    pub open spec fn wf(self) -> bool {
        &&& self.names.len() == self.pos_only + self.pos_or_kw + self.kw_only + (if self.has_excess_args {
            1nat
        } else {
            0nat
        }) + (if self.has_excess_kwargs {
            1nat
        } else {
            0nat
        })
        &&& forall|k: Seq<char>| #[trigger] self.kw_index.contains_key(k) ==> self.kw_index[k] < self.names.len()
    }

    /// The number of parameters that take positional arguments.
    pub open spec fn positional(self) -> nat {
        self.pos_only + self.pos_or_kw
    }
}

/// The model of the signature that declares `params`, in this order.
pub open spec fn model_of_params(params: Seq<(Seq<char>, ParamKind)>) -> SignatureModel
    decreases params.len(),
{
    if params.len() == 0 {
        SignatureModel {
            names: Seq::empty(),
            kw_index: Map::empty(),
            has_excess_args: false,
            has_excess_kwargs: false,
            pos_only: 0,
            pos_or_kw: 0,
            kw_only: 0,
        }
    } else {
        let prev = model_of_params(params.drop_last());
        let (name, kind) = params.last();
        let i = (params.len() - 1) as usize;
        SignatureModel {
            names: prev.names.push(name),
            kw_index: match kind {
                ParamKind::PositionalOrKeyword | ParamKind::KeywordOnly => prev.kw_index.insert(name, i),
                _ => prev.kw_index,
            },
            has_excess_args: prev.has_excess_args || kind == ParamKind::ExcessArgs,
            has_excess_kwargs: prev.has_excess_kwargs || kind == ParamKind::ExcessKwargs,
            pos_only: prev.pos_only + if kind == ParamKind::PositionalOnly {
                1nat
            } else {
                0nat
            },
            pos_or_kw: prev.pos_or_kw + if kind == ParamKind::PositionalOrKeyword {
                1nat
            } else {
                0nat
            },
            kw_only: prev.kw_only + if kind == ParamKind::KeywordOnly {
                1nat
            } else {
                0nat
            },
        }
    }
}

/// At most one parameter is `*args` and at most one is `**kwargs`, as in every Python signature.
pub open spec fn excess_unique(params: Seq<(Seq<char>, ParamKind)>) -> bool {
    forall|i: int, j: int|
        0 <= i < j < params.len() ==> !(params[i].1 == ParamKind::ExcessArgs && params[j].1
            == ParamKind::ExcessArgs) && !(params[i].1 == ParamKind::ExcessKwargs && params[j].1
            == ParamKind::ExcessKwargs)
}

/// The names of a list of parameters.
pub open spec fn names_of(params: Seq<(Seq<char>, ParamKind)>) -> Seq<Seq<char>> {
    params.map_values(|p: (Seq<char>, ParamKind)| p.0)
}

/// Where a kind of parameter stands in a Python signature: positional-only parameters first,
/// then positional-or-keyword ones, `*args`, keyword-only ones, and `**kwargs` last.
pub open spec fn kind_rank(k: ParamKind) -> nat {
    match k {
        ParamKind::PositionalOnly => 0,
        ParamKind::PositionalOrKeyword => 1,
        ParamKind::ExcessArgs => 2,
        ParamKind::KeywordOnly => 3,
        ParamKind::ExcessKwargs => 4,
    }
}

/// The parameters come in the order of their kinds.
pub open spec fn python_order(params: Seq<(Seq<char>, ParamKind)>) -> bool {
    forall|i: int, j: int|
        0 <= i < j < params.len() ==> kind_rank(#[trigger] params[i].1) <= kind_rank(
            #[trigger] params[j].1,
        )
}

/// What every Python signature satisfies: at most one `*args`, at most one `**kwargs`, no two
/// parameters of the same name, and the kinds in their order.
pub open spec fn python_params(params: Seq<(Seq<char>, ParamKind)>) -> bool {
    excess_unique(params) && names_of(params).no_duplicates() && python_order(params)
}

/// No parameter that can be passed by keyword sits where `*args` or `**kwargs` are placed (the
/// first position after the positional parameters, and the last position).
pub open spec fn python_layout(m: SignatureModel) -> bool {
    forall|k: Seq<char>|
        #[trigger] m.kw_index.contains_key(k) ==> !(m.has_excess_args && m.kw_index[k] == m.positional())
            && !(m.has_excess_kwargs && m.kw_index[k] == m.names.len() - 1)
}

/// Each name in the keyword table points at the parameter of that name.
pub open spec fn kw_index_names(m: SignatureModel) -> bool {
    forall|n: Seq<char>|
        #[trigger] m.kw_index.contains_key(n) ==> m.kw_index[n] < m.names.len() && m.names[m.kw_index[n] as int]
            == n
}

/// In the model of any list of parameters, each name in the keyword table points at the
/// parameter of that name.
pub proof fn law_keyword_table_names(params: Seq<(Seq<char>, ParamKind)>)
    requires
        params.len() <= usize::MAX,
    ensures
        kw_index_names(model_of_params(params)),
    decreases params.len(),
{
    if params.len() > 0 {
        let prev = params.drop_last();
        law_keyword_table_names(prev);
        lemma_model_names(prev);
        lemma_model_names(params);
        let m = model_of_params(params);
        let mp = model_of_params(prev);
        assert forall|n: Seq<char>| #[trigger] m.kw_index.contains_key(n) implies m.kw_index[n] < m.names.len()
            && m.names[m.kw_index[n] as int] == n by {
            let kw_kind = params.last().1 == ParamKind::PositionalOrKeyword || params.last().1
                == ParamKind::KeywordOnly;
            if kw_kind && n == params.last().0 {
                assert(m.kw_index[n] == params.len() - 1);
                assert(m.names[params.len() - 1] == params.last().0);
            } else {
                assert(mp.kw_index.contains_key(n));
                assert(m.kw_index[n] == mp.kw_index[n]);
                assert(m.names[mp.kw_index[n] as int] == mp.names[mp.kw_index[n] as int]);
            }
        }
    }
}

/// Every keyword position is that of a positional-or-keyword or a keyword-only parameter.
proof fn lemma_kw_index_kinds(params: Seq<(Seq<char>, ParamKind)>)
    requires
        params.len() <= usize::MAX,
    ensures
        forall|k: Seq<char>|
            #[trigger] model_of_params(params).kw_index.contains_key(k) ==> {
                let v = model_of_params(params).kw_index[k] as int;
                &&& 0 <= v < params.len()
                &&& (params[v].1 == ParamKind::PositionalOrKeyword || params[v].1
                    == ParamKind::KeywordOnly)
            },
    decreases params.len(),
{
    if params.len() > 0 {
        let prev = params.drop_last();
        lemma_kw_index_kinds(prev);
        let m = model_of_params(params);
        let mp = model_of_params(prev);
        assert forall|k: Seq<char>| #[trigger] m.kw_index.contains_key(k) implies {
            let v = m.kw_index[k] as int;
            &&& 0 <= v < params.len()
            &&& (params[v].1 == ParamKind::PositionalOrKeyword || params[v].1 == ParamKind::KeywordOnly)
        } by {
            let kw_kind = params.last().1 == ParamKind::PositionalOrKeyword || params.last().1
                == ParamKind::KeywordOnly;
            if kw_kind && k == params.last().0 {
                assert(m.kw_index[k] == params.len() - 1);
            } else {
                assert(mp.kw_index.contains_key(k));
                let v = mp.kw_index[k] as int;
                assert(m.kw_index[k] == mp.kw_index[k]);
                assert(prev[v] == params[v]);
            }
        }
    }
}

/// Parameters that are all positional count as positional, each of them.
proof fn lemma_all_positional(params: Seq<(Seq<char>, ParamKind)>)
    requires
        forall|i: int|
            0 <= i < params.len() ==> kind_rank(#[trigger] params[i].1) <= 1,
    ensures
        model_of_params(params).positional() == params.len(),
        !model_of_params(params).has_excess_args,
    decreases params.len(),
{
    if params.len() > 0 {
        let prev = params.drop_last();
        assert forall|i: int| 0 <= i < prev.len() implies kind_rank(#[trigger] prev[i].1) <= 1 by {
            assert(prev[i] == params[i]);
        }
        lemma_all_positional(prev);
        assert(kind_rank(params[params.len() - 1].1) <= 1);
    }
}

/// In a Python signature `*args` sits right after the positional parameters, and `**kwargs` last.
proof fn lemma_excess_positions(params: Seq<(Seq<char>, ParamKind)>)
    requires
        excess_unique(params),
        python_order(params),
    ensures
        model_of_params(params).has_excess_args ==> model_of_params(params).positional()
            < params.len() && params[model_of_params(params).positional() as int].1
            == ParamKind::ExcessArgs,
        model_of_params(params).has_excess_kwargs ==> params[params.len() - 1].1
            == ParamKind::ExcessKwargs,
    decreases params.len(),
{
    if params.len() > 0 {
        let n = params.len();
        let prev = params.drop_last();
        assert forall|i: int, j: int| 0 <= i < j < prev.len() implies kind_rank(#[trigger] prev[i].1)
            <= kind_rank(#[trigger] prev[j].1) by {
            assert(prev[i] == params[i] && prev[j] == params[j]);
            assert(kind_rank(params[i].1) <= kind_rank(params[j].1));
        }
        assert forall|i: int, j: int| 0 <= i < j < prev.len() implies !(prev[i].1 == ParamKind::ExcessArgs
            && prev[j].1 == ParamKind::ExcessArgs) && !(prev[i].1 == ParamKind::ExcessKwargs && prev[j].1
            == ParamKind::ExcessKwargs) by {
            assert(prev[i] == params[i] && prev[j] == params[j]);
        }
        lemma_excess_positions(prev);
        let m = model_of_params(params);
        let mp = model_of_params(prev);
        let last = params[n - 1].1;
        if mp.has_excess_args {
            let e = mp.positional() as int;
            assert(prev[e] == params[e]);
            assert(kind_rank(params[e].1) <= kind_rank(params[n - 1].1));
            assert(m.positional() == mp.positional());
        } else if last == ParamKind::ExcessArgs {
            assert forall|i: int| 0 <= i < prev.len() implies kind_rank(#[trigger] prev[i].1) <= 1 by {
                assert(prev[i] == params[i]);
                assert(kind_rank(params[i].1) <= kind_rank(params[n - 1].1));
                assert(!(params[i].1 == ParamKind::ExcessArgs && params[n - 1].1 == ParamKind::ExcessArgs));
            }
            lemma_all_positional(prev);
        }
        if m.has_excess_kwargs && last != ParamKind::ExcessKwargs {
            lemma_excess_declared(prev);
            let i = choose|i: int| 0 <= i < prev.len() && #[trigger] prev[i].1 == ParamKind::ExcessKwargs;
            assert(prev[i] == params[i]);
            assert(kind_rank(params[i].1) <= kind_rank(params[n - 1].1));
        }
    }
}

/// The model of a Python signature places no keyword parameter at the position of `*args` or
/// `**kwargs`.
proof fn lemma_python_layout(params: Seq<(Seq<char>, ParamKind)>)
    requires
        python_params(params),
        params.len() <= usize::MAX,
    ensures
        python_layout(model_of_params(params)),
{
    lemma_kw_index_kinds(params);
    lemma_excess_positions(params);
    lemma_model_names(params);
    let m = model_of_params(params);
    assert(m.names.len() == params.len());
}

/// The model lists the parameter names in declaration order.
proof fn lemma_model_names(params: Seq<(Seq<char>, ParamKind)>)
    ensures
        model_of_params(params).names == names_of(params),
    decreases params.len(),
{
    if params.len() > 0 {
        lemma_model_names(params.drop_last());
        assert(names_of(params) =~= names_of(params.drop_last()).push(params.last().0));
    }
}

/// A model marks `*args` or `**kwargs` only where a parameter of that kind is declared.
proof fn lemma_excess_declared(params: Seq<(Seq<char>, ParamKind)>)
    ensures
        model_of_params(params).has_excess_args ==> exists|i: int|
            0 <= i < params.len() && #[trigger] params[i].1 == ParamKind::ExcessArgs,
        model_of_params(params).has_excess_kwargs ==> exists|i: int|
            0 <= i < params.len() && #[trigger] params[i].1 == ParamKind::ExcessKwargs,
    decreases params.len(),
{
    if params.len() > 0 {
        let prev = params.drop_last();
        lemma_excess_declared(prev);
        if model_of_params(prev).has_excess_args {
            let i = choose|i: int| 0 <= i < prev.len() && #[trigger] prev[i].1 == ParamKind::ExcessArgs;
            assert(params[i].1 == ParamKind::ExcessArgs);
        }
        if model_of_params(prev).has_excess_kwargs {
            let i = choose|i: int| 0 <= i < prev.len() && #[trigger] prev[i].1 == ParamKind::ExcessKwargs;
            assert(params[i].1 == ParamKind::ExcessKwargs);
        }
        assert(params[params.len() - 1].1 == params.last().1);
    }
}


// ---------------------------------------------------------------------------------------------
// Binding arguments to parameters
// ---------------------------------------------------------------------------------------------

/// Where the value bound to one parameter comes from.
#[derive(Clone, Copy, Debug, PartialEq, Eq, Structural)]
pub enum ArgSource {
    /// The positional argument at this index.
    Positional(usize),
    /// The keyword argument at this index, in the order in which keywords were passed.
    Keyword(usize),
    /// The positional default at this index of the function's `__defaults__`.
    Default(usize),
    /// The keyword default at this index of the function's `__kwdefaults__`, in its order.
    KwDefault(usize),
    /// A list of the positional arguments from this index on (`*args`).
    ExcessArgs(usize),
    /// A dict of the keyword arguments that `BoundArgs::excess_kwargs` lists (`**kwargs`).
    ExcessKwargs,
}

/// Why arguments could not be bound to the parameters.
#[derive(Clone, Copy, Debug, PartialEq, Eq, Structural)]
pub enum BindError {
    TooManyPositional,
    /// The keyword argument at this index names a parameter that already has a value.
    PassedTwice(usize),
    TooManyKeyword,
    NotEnough,
}

/// The text of a binding error; `kw_names` are the names of the call's keyword arguments.
pub open spec fn bind_error_text(e: BindError, kw_names: Seq<Seq<char>>) -> Seq<char> {
    match e {
        BindError::TooManyPositional => "too many positional arguments"@,
        BindError::PassedTwice(j) => "arg \""@ + kw_names[j as int] + "\" passed twice"@,
        BindError::TooManyKeyword => "too many keyword arguments"@,
        BindError::NotEnough => "not enough arguments"@,
    }
}

impl BindError {
    /// The text that Python sees in the `TypeError`; `kw_names` are the names of the call's
    /// keyword arguments, as they were passed to `Signature::bind`.
    pub fn message(&self, kw_names: &Vec<String>) -> (r: String)
        requires
            *self matches BindError::PassedTwice(j) ==> j < kw_names.len(),
        ensures
            r@ == bind_error_text(*self, strings_view(kw_names@)),
    {
        match self {
            BindError::TooManyPositional => "too many positional arguments".to_owned(),
            BindError::PassedTwice(j) => {
                let mut text = "arg \"".to_owned();
                text.append(kw_names[*j].as_str());
                text.append("\" passed twice");
                text
            },
            BindError::TooManyKeyword => "too many keyword arguments".to_owned(),
            BindError::NotEnough => "not enough arguments".to_owned(),
        }
    }
}

/// The source of the value of each parameter, in declaration order, and the keyword arguments
/// that go to `**kwargs`.
pub struct BoundArgs {
    pub slots: Vec<ArgSource>,
    pub excess_kwargs: Vec<usize>,
}

/// The smaller of two numbers.
pub open spec fn min_nat(a: nat, b: nat) -> nat {
    if a <= b {
        a
    } else {
        b
    }
}

/// Positional arguments fill the positional parameters in order.
pub open spec fn positional_slots(m: SignatureModel, n_args: nat) -> Seq<Option<ArgSource>> {
    Seq::new(
        m.names.len(),
        |i: int|
            if i < min_nat(m.positional(), n_args) {
                Some(ArgSource::Positional(i as usize))
            } else {
                None
            },
    )
}

/// The keyword argument at index `j`, named `name`, fills the parameter of that name, or goes to
/// `**kwargs`.
pub open spec fn keyword_step(
    m: SignatureModel,
    slots: Seq<Option<ArgSource>>,
    excess: Seq<usize>,
    j: int,
    name: Seq<char>,
) -> Result<(Seq<Option<ArgSource>>, Seq<usize>), BindError> {
    if m.kw_index.contains_key(name) {
        let idx = m.kw_index[name] as int;
        if slots[idx] is Some {
            Err(BindError::PassedTwice(j as usize))
        } else {
            Ok((slots.update(idx, Some(ArgSource::Keyword(j as usize))), excess))
        }
    } else if m.has_excess_kwargs {
        Ok((slots, excess.push(j as usize)))
    } else {
        Err(BindError::TooManyKeyword)
    }
}

/// Keyword arguments, taken in the order in which they were passed; the first that cannot be
/// placed decides the error.
pub open spec fn keyword_slots(m: SignatureModel, slots: Seq<Option<ArgSource>>, names: Seq<Seq<char>>) -> Result<
    (Seq<Option<ArgSource>>, Seq<usize>),
    BindError,
>
    decreases names.len(),
{
    if names.len() == 0 {
        Ok((slots, Seq::empty()))
    } else {
        match keyword_slots(m, slots, names.drop_last()) {
            Err(e) => Err(e),
            Ok((s, ex)) => keyword_step(m, s, ex, names.len() - 1, names.last()),
        }
    }
}

/// `*args` and `**kwargs` take their own positions.
pub open spec fn excess_slots(m: SignatureModel, slots: Seq<Option<ArgSource>>, n_args: nat) -> Seq<
    Option<ArgSource>,
> {
    let s = if m.has_excess_args {
        slots.update(
            m.positional() as int,
            Some(ArgSource::ExcessArgs(min_nat(m.positional(), n_args) as usize)),
        )
    } else {
        slots
    };
    if m.has_excess_kwargs {
        s.update(m.names.len() - 1, Some(ArgSource::ExcessKwargs))
    } else {
        s
    }
}

/// Positional defaults belong to the last positional parameters: the last default to the last
/// one. They fill what is still empty.
pub open spec fn default_slots(m: SignatureModel, slots: Seq<Option<ArgSource>>, n_defaults: nat) -> Seq<
    Option<ArgSource>,
> {
    Seq::new(
        slots.len(),
        |i: int|
            if i < m.positional() && slots[i] is None && m.positional() - i <= n_defaults {
                Some(ArgSource::Default((n_defaults - (m.positional() - i)) as usize))
            } else {
                slots[i]
            },
    )
}

/// Keyword defaults fill the empty parameters that they name.
pub open spec fn kw_default_slots(m: SignatureModel, slots: Seq<Option<ArgSource>>, names: Seq<Seq<char>>) -> Seq<
    Option<ArgSource>,
>
    decreases names.len(),
{
    if names.len() == 0 {
        slots
    } else {
        let s = kw_default_slots(m, slots, names.drop_last());
        let name = names.last();
        if m.kw_index.contains_key(name) && s[m.kw_index[name] as int] is None {
            s.update(
                m.kw_index[name] as int,
                Some(ArgSource::KwDefault((names.len() - 1) as usize)),
            )
        } else {
            s
        }
    }
}

/// Every parameter has a value.
pub open spec fn all_filled(s: Seq<Option<ArgSource>>) -> bool {
    forall|i: int| 0 <= i < s.len() ==> #[trigger] s[i] is Some
}

/// The values of a sequence in which every entry has one.
pub open spec fn unwrap_all(s: Seq<Option<ArgSource>>) -> Seq<ArgSource> {
    s.map_values(|o: Option<ArgSource>| o.unwrap())
}

/// The binding of `n_args` positional arguments, keyword arguments named `kw_names`, `n_defaults`
/// positional defaults and keyword defaults named `kw_default_names` to the parameters of `m`.
pub open spec fn spec_bind(
    m: SignatureModel,
    n_args: nat,
    kw_names: Seq<Seq<char>>,
    n_defaults: nat,
    kw_default_names: Seq<Seq<char>>,
) -> Result<(Seq<ArgSource>, Seq<usize>), BindError> {
    if n_args > m.positional() && !m.has_excess_args {
        Err(BindError::TooManyPositional)
    } else {
        match keyword_slots(m, positional_slots(m, n_args), kw_names) {
            Err(e) => Err(e),
            Ok((s, ex)) => {
                let s = kw_default_slots(
                    m,
                    default_slots(m, excess_slots(m, s, n_args), n_defaults),
                    kw_default_names,
                );
                if all_filled(s) {
                    Ok((unwrap_all(s), ex))
                } else {
                    Err(BindError::NotEnough)
                }
            },
        }
    }
}

/// Once a keyword cannot be placed, the keywords after it do not change the error.
proof fn lemma_keyword_error_persists(m: SignatureModel, s: Seq<Option<ArgSource>>, names: Seq<Seq<char>>, k: int)
    requires
        0 <= k <= names.len(),
        keyword_slots(m, s, names.take(k)) is Err,
    ensures
        keyword_slots(m, s, names) == keyword_slots(m, s, names.take(k)),
    decreases names.len() - k,
{
    if k < names.len() {
        let longer = names.take(k + 1);
        assert(longer.drop_last() =~= names.take(k));
        lemma_keyword_error_persists(m, s, names, k + 1);
    } else {
        assert(names.take(k) =~= names);
    }
}

/// Placing keywords keeps what was bound before.
proof fn lemma_keyword_keeps(m: SignatureModel, s: Seq<Option<ArgSource>>, names: Seq<Seq<char>>)
    requires
        m.wf(),
        s.len() == m.names.len(),
    ensures
        keyword_slots(m, s, names) matches Ok((r, _)) ==> {
            &&& r.len() == s.len()
            &&& forall|i: int| 0 <= i < s.len() && s[i] is Some ==> #[trigger] r[i] == s[i]
        },
    decreases names.len(),
{
    if names.len() > 0 {
        lemma_keyword_keeps(m, s, names.drop_last());
    }
}

/// A keyword that names a parameter ends up bound to it, where binding keywords succeeds.
proof fn lemma_keyword_places(m: SignatureModel, s: Seq<Option<ArgSource>>, names: Seq<Seq<char>>, j: int)
    requires
        m.wf(),
        s.len() == m.names.len(),
        0 <= j < names.len(),
        m.kw_index.contains_key(names[j]),
    ensures
        keyword_slots(m, s, names) matches Ok((r, _)) ==> r[m.kw_index[names[j]] as int] == Some(
            ArgSource::Keyword(j as usize),
        ),
    decreases names.len(),
{
    let prev = names.drop_last();
    lemma_keyword_keeps(m, s, prev);
    if j < names.len() - 1 {
        assert(prev[j] == names[j]);
        lemma_keyword_places(m, s, prev, j);
    }
}

/// Keyword defaults keep what was bound before.
proof fn lemma_kw_default_keeps(m: SignatureModel, s: Seq<Option<ArgSource>>, names: Seq<Seq<char>>)
    requires
        m.wf(),
        s.len() == m.names.len(),
    ensures
        kw_default_slots(m, s, names).len() == s.len(),
        forall|i: int|
            0 <= i < s.len() && s[i] is Some ==> #[trigger] kw_default_slots(m, s, names)[i] == s[i],
    decreases names.len(),
{
    if names.len() > 0 {
        lemma_kw_default_keeps(m, s, names.drop_last());
    }
}

/// Binding fails for too many positional arguments exactly when there are more positional
/// arguments than positional parameters and no `*args`.
pub proof fn law_bind_too_many_positional(
    m: SignatureModel,
    n_args: nat,
    kw_names: Seq<Seq<char>>,
    n_defaults: nat,
    kw_default_names: Seq<Seq<char>>,
)
    ensures
        (spec_bind(m, n_args, kw_names, n_defaults, kw_default_names) == Err::<
            (Seq<ArgSource>, Seq<usize>),
            BindError,
        >(BindError::TooManyPositional)) <==> (n_args > m.positional() && !m.has_excess_args),
{
    let s0 = positional_slots(m, n_args);
    if !(n_args > m.positional() && !m.has_excess_args) {
        lemma_keyword_error_kind(m, s0, kw_names);
    }
}

/// Placing keywords fails only for a keyword passed twice or for an unknown keyword.
proof fn lemma_keyword_error_kind(m: SignatureModel, s: Seq<Option<ArgSource>>, names: Seq<Seq<char>>)
    ensures
        keyword_slots(m, s, names) matches Err(e) ==> (e is PassedTwice || e is TooManyKeyword),
    decreases names.len(),
{
    if names.len() > 0 {
        lemma_keyword_error_kind(m, s, names.drop_last());
    }
}

/// Where binding succeeds, every parameter has a value, and the positional arguments are bound,
/// in order, to the first positional parameters.
pub proof fn law_bind_positional(
    m: SignatureModel,
    n_args: nat,
    kw_names: Seq<Seq<char>>,
    n_defaults: nat,
    kw_default_names: Seq<Seq<char>>,
)
    requires
        m.wf(),
    ensures
        spec_bind(m, n_args, kw_names, n_defaults, kw_default_names) matches Ok((s, _)) ==> {
            &&& s.len() == m.names.len()
            &&& forall|i: int|
                0 <= i < min_nat(m.positional(), n_args) ==> s[i] == ArgSource::Positional(
                    i as usize,
                )
        },
{
    let s0 = positional_slots(m, n_args);
    lemma_keyword_keeps(m, s0, kw_names);
    if let Ok((s1, ex)) = keyword_slots(m, s0, kw_names) {
        let s2 = excess_slots(m, s1, n_args);
        let s3 = default_slots(m, s2, n_defaults);
        lemma_kw_default_keeps(m, s3, kw_default_names);
        let s4 = kw_default_slots(m, s3, kw_default_names);
        if all_filled(s4) {
            assert forall|i: int| 0 <= i < min_nat(m.positional(), n_args) implies unwrap_all(s4)[i]
                == ArgSource::Positional(i as usize) by {
                assert(s0[i] is Some);
                assert(s1[i] == s0[i]);
                assert(s2[i] == s1[i]);
                assert(s3[i] == s2[i]);
                assert(s4[i] == s3[i]);
            }
        }
    }
}

/// Where binding succeeds, a keyword argument that names a parameter is bound to it (in every
/// signature laid out as Python lays them out, as every `Signature` is).
pub proof fn law_bind_keyword(
    m: SignatureModel,
    n_args: nat,
    kw_names: Seq<Seq<char>>,
    n_defaults: nat,
    kw_default_names: Seq<Seq<char>>,
    j: int,
)
    requires
        m.wf(),
        python_layout(m),
        0 <= j < kw_names.len(),
        m.kw_index.contains_key(kw_names[j]),
    ensures
        spec_bind(m, n_args, kw_names, n_defaults, kw_default_names) matches Ok((s, _)) ==> s[m.kw_index[kw_names[j]] as int]
            == ArgSource::Keyword(j as usize),
{
    let s0 = positional_slots(m, n_args);
    let idx = m.kw_index[kw_names[j]] as int;
    lemma_keyword_keeps(m, s0, kw_names);
    lemma_keyword_places(m, s0, kw_names, j);
    if let Ok((s1, ex)) = keyword_slots(m, s0, kw_names) {
        let s2 = excess_slots(m, s1, n_args);
        let s3 = default_slots(m, s2, n_defaults);
        lemma_kw_default_keeps(m, s3, kw_default_names);
        let s4 = kw_default_slots(m, s3, kw_default_names);
        assert(s2[idx] == s1[idx]);
        assert(s3[idx] == s2[idx]);
        assert(s4[idx] == s3[idx]);
    }
}

/// A source names an argument or a default that the call has: `n_args` positional arguments,
/// `n_kw` keyword arguments, `n_defaults` positional defaults and `n_kw_defaults` keyword
/// defaults.
pub open spec fn source_in_range(src: ArgSource, n_args: nat, n_kw: nat, n_defaults: nat, n_kw_defaults: nat) -> bool {
    match src {
        ArgSource::Positional(i) => i < n_args,
        ArgSource::Keyword(j) => j < n_kw,
        ArgSource::Default(k) => k < n_defaults,
        ArgSource::KwDefault(k) => k < n_kw_defaults,
        ArgSource::ExcessArgs(start) => start <= n_args,
        ArgSource::ExcessKwargs => true,
    }
}

/// Every filled slot names an argument or a default that the call has.
pub open spec fn slots_in_range(
    s: Seq<Option<ArgSource>>,
    n_args: nat,
    n_kw: nat,
    n_defaults: nat,
    n_kw_defaults: nat,
) -> bool {
    forall|i: int|
        0 <= i < s.len() && #[trigger] s[i] is Some ==> source_in_range(
            s[i]->0,
            n_args,
            n_kw,
            n_defaults,
            n_kw_defaults,
        )
}

/// Placing keywords keeps every slot in range, counting the keywords placed, and sends only
/// keywords that were passed to `**kwargs`.
proof fn lemma_keyword_in_range(
    m: SignatureModel,
    s: Seq<Option<ArgSource>>,
    names: Seq<Seq<char>>,
    n_args: nat,
    n_defaults: nat,
    n_kw_defaults: nat,
)
    requires
        m.wf(),
        s.len() == m.names.len(),
        slots_in_range(s, n_args, 0, n_defaults, n_kw_defaults),
    ensures
        keyword_slots(m, s, names) matches Ok((r, ex)) ==> {
            &&& r.len() == s.len()
            &&& slots_in_range(r, n_args, names.len(), n_defaults, n_kw_defaults)
            &&& forall|k: int| 0 <= k < ex.len() ==> #[trigger] ex[k] < names.len()
        },
    decreases names.len(),
{
    if names.len() > 0 {
        let prev = names.drop_last();
        lemma_keyword_in_range(m, s, prev, n_args, n_defaults, n_kw_defaults);
        if let Ok((r0, ex0)) = keyword_slots(m, s, prev) {
            assert(slots_in_range(r0, n_args, names.len(), n_defaults, n_kw_defaults)) by {
                assert forall|i: int| 0 <= i < r0.len() && #[trigger] r0[i] is Some implies source_in_range(
                    r0[i]->0,
                    n_args,
                    names.len(),
                    n_defaults,
                    n_kw_defaults,
                ) by {
                    assert(source_in_range(r0[i]->0, n_args, prev.len(), n_defaults, n_kw_defaults));
                }
            }
            if let Ok((r, ex)) = keyword_slots(m, s, names) {
                assert(slots_in_range(r, n_args, names.len(), n_defaults, n_kw_defaults)) by {
                    assert forall|i: int| 0 <= i < r.len() && #[trigger] r[i] is Some implies source_in_range(
                        r[i]->0,
                        n_args,
                        names.len(),
                        n_defaults,
                        n_kw_defaults,
                    ) by {
                        if r[i] != r0[i] {
                            assert(r[i] == Some(ArgSource::Keyword((names.len() - 1) as usize)));
                        } else {
                            assert(r0[i] is Some);
                        }
                    }
                }
            }
        }
    }
}

/// Keyword defaults keep every slot in range.
proof fn lemma_kw_default_in_range(
    m: SignatureModel,
    s: Seq<Option<ArgSource>>,
    names: Seq<Seq<char>>,
    n_args: nat,
    n_kw: nat,
    n_defaults: nat,
)
    requires
        m.wf(),
        s.len() == m.names.len(),
        slots_in_range(s, n_args, n_kw, n_defaults, 0),
    ensures
        slots_in_range(kw_default_slots(m, s, names), n_args, n_kw, n_defaults, names.len()),
    decreases names.len(),
{
    lemma_kw_default_keeps(m, s, names);
    if names.len() > 0 {
        let prev = names.drop_last();
        lemma_kw_default_in_range(m, s, prev, n_args, n_kw, n_defaults);
        lemma_kw_default_keeps(m, s, prev);
        let r0 = kw_default_slots(m, s, prev);
        let r = kw_default_slots(m, s, names);
        assert forall|i: int| 0 <= i < r.len() && #[trigger] r[i] is Some implies source_in_range(
            r[i]->0,
            n_args,
            n_kw,
            n_defaults,
            names.len(),
        ) by {
            if r[i] != r0[i] {
                assert(r[i] == Some(ArgSource::KwDefault((names.len() - 1) as usize)));
            } else {
                assert(r0[i] is Some);
                assert(source_in_range(r0[i]->0, n_args, n_kw, n_defaults, prev.len()));
            }
        }
    }
}

/// The source `src` belongs at parameter position `i`: a positional argument at its own position,
/// a keyword argument or keyword default at the position of the parameter it names, a positional
/// default at the position it is the default of (the last default for the last positional
/// parameter), and `*args` and `**kwargs` at their own places.
pub open spec fn source_at(
    m: SignatureModel,
    src: ArgSource,
    i: int,
    kw_names: Seq<Seq<char>>,
    n_defaults: nat,
    kw_default_names: Seq<Seq<char>>,
) -> bool {
    match src {
        ArgSource::Positional(p) => p == i,
        ArgSource::Keyword(j) => j < kw_names.len() && m.kw_index.contains_key(kw_names[j as int])
            && m.kw_index[kw_names[j as int]] == i,
        ArgSource::Default(k) => i < m.positional() && k + m.positional() == i + n_defaults,
        ArgSource::KwDefault(k) => k < kw_default_names.len() && m.kw_index.contains_key(
            kw_default_names[k as int],
        ) && m.kw_index[kw_default_names[k as int]] == i,
        ArgSource::ExcessArgs(_) => m.has_excess_args && i == m.positional(),
        ArgSource::ExcessKwargs => m.has_excess_kwargs && i == m.names.len() - 1,
    }
}

/// Every filled slot holds a source that belongs at its position.
pub open spec fn slots_at(
    m: SignatureModel,
    s: Seq<Option<ArgSource>>,
    kw_names: Seq<Seq<char>>,
    n_defaults: nat,
    kw_default_names: Seq<Seq<char>>,
) -> bool {
    forall|i: int|
        0 <= i < s.len() && #[trigger] s[i] is Some ==> source_at(
            m,
            s[i]->0,
            i,
            kw_names,
            n_defaults,
            kw_default_names,
        )
}

/// Placing keywords puts each keyword at the parameter it names.
proof fn lemma_keyword_at(
    m: SignatureModel,
    s: Seq<Option<ArgSource>>,
    names: Seq<Seq<char>>,
    n_defaults: nat,
)
    requires
        m.wf(),
        s.len() == m.names.len(),
        names.len() <= usize::MAX,
        slots_at(m, s, Seq::empty(), n_defaults, Seq::empty()),
    ensures
        keyword_slots(m, s, names) matches Ok((r, _)) ==> r.len() == s.len() && slots_at(
            m,
            r,
            names,
            n_defaults,
            Seq::empty(),
        ),
    decreases names.len(),
{
    lemma_keyword_keeps(m, s, names);
    if names.len() > 0 {
        let prev = names.drop_last();
        lemma_keyword_at(m, s, prev, n_defaults);
        lemma_keyword_keeps(m, s, prev);
        if let Ok((r0, ex0)) = keyword_slots(m, s, prev) {
            if let Ok((r, ex)) = keyword_slots(m, s, names) {
                assert forall|i: int| 0 <= i < r.len() && #[trigger] r[i] is Some implies source_at(
                    m,
                    r[i]->0,
                    i,
                    names,
                    n_defaults,
                    Seq::empty(),
                ) by {
                    if r[i] != r0[i] {
                        assert(r[i] == Some(ArgSource::Keyword((names.len() - 1) as usize)));
                    } else {
                        assert(r0[i] is Some);
                        assert(source_at(m, r0[i]->0, i, prev, n_defaults, Seq::empty()));
                        if let ArgSource::Keyword(j) = r0[i]->0 {
                            assert(prev[j as int] == names[j as int]);
                        }
                    }
                }
            }
        }
    }
}

/// Keyword defaults go to the parameters they name.
proof fn lemma_kw_default_at(
    m: SignatureModel,
    s: Seq<Option<ArgSource>>,
    kw_names: Seq<Seq<char>>,
    n_defaults: nat,
    names: Seq<Seq<char>>,
)
    requires
        m.wf(),
        s.len() == m.names.len(),
        names.len() <= usize::MAX,
        slots_at(m, s, kw_names, n_defaults, Seq::empty()),
    ensures
        slots_at(m, kw_default_slots(m, s, names), kw_names, n_defaults, names),
    decreases names.len(),
{
    lemma_kw_default_keeps(m, s, names);
    if names.len() > 0 {
        let prev = names.drop_last();
        lemma_kw_default_at(m, s, kw_names, n_defaults, prev);
        lemma_kw_default_keeps(m, s, prev);
        let r0 = kw_default_slots(m, s, prev);
        let r = kw_default_slots(m, s, names);
        assert forall|i: int| 0 <= i < r.len() && #[trigger] r[i] is Some implies source_at(
            m,
            r[i]->0,
            i,
            kw_names,
            n_defaults,
            names,
        ) by {
            if r[i] != r0[i] {
                assert(r[i] == Some(ArgSource::KwDefault((names.len() - 1) as usize)));
            } else {
                assert(r0[i] is Some);
                assert(source_at(m, r0[i]->0, i, kw_names, n_defaults, prev));
                if let ArgSource::KwDefault(k) = r0[i]->0 {
                    assert(prev[k as int] == names[k as int]);
                }
            }
        }
    }
}

/// Where binding succeeds, each parameter gets what belongs to it: the positional argument at
/// its own position, the keyword argument or keyword default that names it, the positional
/// default that is its own (the last default for the last positional parameter), or the excess
/// arguments at the places of `*args` and `**kwargs`.
pub proof fn law_bind_sources_named(
    m: SignatureModel,
    n_args: nat,
    kw_names: Seq<Seq<char>>,
    n_defaults: nat,
    kw_default_names: Seq<Seq<char>>,
)
    requires
        m.wf(),
        m.names.len() <= usize::MAX,
        kw_names.len() <= usize::MAX,
        n_defaults <= usize::MAX,
        kw_default_names.len() <= usize::MAX,
    ensures
        spec_bind(m, n_args, kw_names, n_defaults, kw_default_names) matches Ok((s, _)) ==> forall|i: int|
            0 <= i < s.len() ==> source_at(m, #[trigger] s[i], i, kw_names, n_defaults, kw_default_names),
        kw_index_names(m) ==> (spec_bind(m, n_args, kw_names, n_defaults, kw_default_names) matches Ok(
            (s, _),
        ) ==> forall|i: int|
            0 <= i < s.len() ==> (#[trigger] s[i] matches ArgSource::KwDefault(k) ==> kw_default_names[k as int]
                == m.names[i]) && (s[i] matches ArgSource::Keyword(j) ==> kw_names[j as int] == m.names[i])),
{
    let e = Seq::<Seq<char>>::empty();
    let s0 = positional_slots(m, n_args);
    assert(slots_at(m, s0, e, n_defaults, e));
    lemma_keyword_at(m, s0, kw_names, n_defaults);
    if let Ok((s1, ex)) = keyword_slots(m, s0, kw_names) {
        let s2 = excess_slots(m, s1, n_args);
        assert(slots_at(m, s2, kw_names, n_defaults, e)) by {
            assert forall|i: int| 0 <= i < s2.len() && #[trigger] s2[i] is Some implies source_at(
                m,
                s2[i]->0,
                i,
                kw_names,
                n_defaults,
                e,
            ) by {
                if s2[i] != s1[i] {
                } else {
                    assert(s1[i] is Some);
                }
            }
        }
        let s3 = default_slots(m, s2, n_defaults);
        assert(slots_at(m, s3, kw_names, n_defaults, e)) by {
            assert forall|i: int| 0 <= i < s3.len() && #[trigger] s3[i] is Some implies source_at(
                m,
                s3[i]->0,
                i,
                kw_names,
                n_defaults,
                e,
            ) by {
                if s3[i] != s2[i] {
                } else {
                    assert(s2[i] is Some);
                }
            }
        }
        lemma_kw_default_at(m, s3, kw_names, n_defaults, kw_default_names);
        let s4 = kw_default_slots(m, s3, kw_default_names);
        if all_filled(s4) {
            assert forall|i: int| 0 <= i < unwrap_all(s4).len() implies source_at(
                m,
                #[trigger] unwrap_all(s4)[i],
                i,
                kw_names,
                n_defaults,
                kw_default_names,
            ) by {
                assert(s4[i] is Some);
            }
        }
    }
}

/// Where binding succeeds, every parameter's source names an argument or a default that the call
/// has, and every keyword argument that goes to `**kwargs` was passed.
pub proof fn law_bind_sources_in_range(
    m: SignatureModel,
    n_args: nat,
    kw_names: Seq<Seq<char>>,
    n_defaults: nat,
    kw_default_names: Seq<Seq<char>>,
)
    requires
        m.wf(),
    ensures
        spec_bind(m, n_args, kw_names, n_defaults, kw_default_names) matches Ok((s, ex)) ==> {
            &&& forall|i: int|
                0 <= i < s.len() ==> source_in_range(
                    #[trigger] s[i],
                    n_args,
                    kw_names.len(),
                    n_defaults,
                    kw_default_names.len(),
                )
            &&& forall|k: int| 0 <= k < ex.len() ==> #[trigger] ex[k] < kw_names.len()
        },
{
    let s0 = positional_slots(m, n_args);
    assert(slots_in_range(s0, n_args, 0, n_defaults, 0));
    lemma_keyword_in_range(m, s0, kw_names, n_args, n_defaults, 0);
    if let Ok((s1, ex)) = keyword_slots(m, s0, kw_names) {
        let nk = kw_names.len();
        let s2 = excess_slots(m, s1, n_args);
        assert(slots_in_range(s2, n_args, nk, n_defaults, 0)) by {
            assert forall|i: int| 0 <= i < s2.len() && #[trigger] s2[i] is Some implies source_in_range(
                s2[i]->0,
                n_args,
                nk,
                n_defaults,
                0,
            ) by {
                if s2[i] != s1[i] {
                } else {
                    assert(s1[i] is Some);
                }
            }
        }
        let s3 = default_slots(m, s2, n_defaults);
        assert(slots_in_range(s3, n_args, nk, n_defaults, 0)) by {
            assert forall|i: int| 0 <= i < s3.len() && #[trigger] s3[i] is Some implies source_in_range(
                s3[i]->0,
                n_args,
                nk,
                n_defaults,
                0,
            ) by {
                if s3[i] != s2[i] {
                } else {
                    assert(s2[i] is Some);
                }
            }
        }
        lemma_kw_default_in_range(m, s3, kw_default_names, n_args, nk, n_defaults);
        let s4 = kw_default_slots(m, s3, kw_default_names);
        if all_filled(s4) {
            assert forall|i: int| 0 <= i < unwrap_all(s4).len() implies source_in_range(
                #[trigger] unwrap_all(s4)[i],
                n_args,
                nk,
                n_defaults,
                kw_default_names.len(),
            ) by {
                assert(s4[i] is Some);
            }
        }
    }
}

/// The parameters at `a` and `b` are not both `*args`, not both `**kwargs`, differ in name, and
/// come in the order of their kinds.
pub open spec fn compatible_params(pv: Seq<(Seq<char>, ParamKind)>, a: int, b: int) -> bool {
    &&& !(pv[a].1 == ParamKind::ExcessArgs && pv[b].1 == ParamKind::ExcessArgs)
    &&& !(pv[a].1 == ParamKind::ExcessKwargs && pv[b].1 == ParamKind::ExcessKwargs)
    &&& pv[a].0 != pv[b].0
    &&& kind_rank(pv[a].1) <= kind_rank(pv[b].1)
}

/// Whether `params` could come from a Python signature: at most one `*args`, at most one
/// `**kwargs`, no two parameters of the same name, and the kinds in their order.
pub fn params_well_formed(params: &Vec<Param>) -> (r: bool)
    ensures
        r == python_params(params_view(params@)),
{
    let ghost pv = params_view(params@);
    let n = params.len();
    let mut i: usize = 0;
    while i < n
        invariant
            n == params@.len(),
            pv == params_view(params@),
            pv.len() == n,
            i <= n,
            forall|a: int, b: int| 0 <= a < b < n && a < i ==> #[trigger] compatible_params(pv, a, b),
        decreases n - i,
    {
        let mut j: usize = i + 1;
        while j < n
            invariant
                n == params@.len(),
                pv == params_view(params@),
                pv.len() == n,
                i < n,
                i + 1 <= j <= n,
                forall|a: int, b: int| 0 <= a < b < n && a < i ==> #[trigger] compatible_params(pv, a, b),
                forall|b: int| i < b < j ==> #[trigger] compatible_params(pv, i as int, b),
            decreases n - j,
        {
            let pi = &params[i];
            let pj = &params[j];
            assert(pv[i as int] == param_view(params@[i as int]));
            assert(pv[j as int] == param_view(params@[j as int]));
            let both_args = match (pi.kind, pj.kind) {
                (ParamKind::ExcessArgs, ParamKind::ExcessArgs) => true,
                _ => false,
            };
            let both_kwargs = match (pi.kind, pj.kind) {
                (ParamKind::ExcessKwargs, ParamKind::ExcessKwargs) => true,
                _ => false,
            };
            let out_of_order = pi.kind.rank() > pj.kind.rank();
            if both_args || both_kwargs || pi.name == pj.name || out_of_order {
                proof {
                    assert(!compatible_params(pv, i as int, j as int));
                    assert(names_of(pv)[i as int] == pv[i as int].0);
                    assert(names_of(pv)[j as int] == pv[j as int].0);
                }
                return false;
            }
            assert(compatible_params(pv, i as int, j as int));
            j = j + 1;
        }
        assert forall|a: int, b: int| 0 <= a < b < n && a < i + 1 implies #[trigger] compatible_params(
            pv,
            a,
            b,
        ) by {
            if a == i {
                assert(compatible_params(pv, i as int, b));
            }
        }
        i = i + 1;
    }
    proof {
        assert forall|a: int, b: int|
            0 <= a < names_of(pv).len() && 0 <= b < names_of(pv).len() && a != b implies names_of(pv)[a]
            != names_of(pv)[b] by {
            if a < b {
                assert(compatible_params(pv, a, b));
            } else {
                assert(compatible_params(pv, b, a));
            }
        }
        assert forall|a: int, b: int| 0 <= a < b < pv.len() implies !(pv[a].1 == ParamKind::ExcessArgs
            && pv[b].1 == ParamKind::ExcessArgs) && !(pv[a].1 == ParamKind::ExcessKwargs && pv[b].1
            == ParamKind::ExcessKwargs) by {
            assert(compatible_params(pv, a, b));
        }
        assert forall|a: int, b: int| 0 <= a < b < pv.len() implies kind_rank(#[trigger] pv[a].1)
            <= kind_rank(#[trigger] pv[b].1) by {
            assert(compatible_params(pv, a, b));
        }
    }
    true
}

// ---------------------------------------------------------------------------------------------
// The keyword table
// ---------------------------------------------------------------------------------------------

/// A table from parameter names to parameter positions.
pub type NameTable = RapidHashMap<&'static str, usize>;

/// The table that maps no name.
pub open spec fn no_names() -> Map<Seq<char>, usize> {
    Map::empty()
}

/// What a table from parameter names to positions holds, by the characters of each name.
pub uninterp spec fn name_table(m: NameTable) -> Map<Seq<char>, usize>;

/// Trusted: `RapidHashMap::default` (std `HashMap::default` with rapidhash's hasher) is empty.
#[verifier::external_body]
pub(crate) fn name_table_new() -> (table: NameTable)
    ensures
        name_table(table) == no_names(),
{
    RapidHashMap::default()
}

/// Trusted: `HashMap::insert` maps `k` to `v`, replacing the entry of an equal key; `&str`
/// compares by its characters.
#[verifier::external_body]
pub(crate) fn name_table_insert(m: &mut NameTable, k: &'static str, v: usize)
    ensures
        name_table(*final(m)) == name_table(*old(m)).insert(k@, v),
{
    m.insert(k, v);
}

/// Trusted: `HashMap::get` finds the value of the key equal to `k`.
#[verifier::external_body]
pub(crate) fn name_table_get(m: &NameTable, k: &str) -> (r: Option<usize>)
    ensures
        r == (if name_table(*m).contains_key(k@) {
            Some(name_table(*m)[k@])
        } else {
            None
        }),
{
    m.get(k).copied()
}

// ---------------------------------------------------------------------------------------------
// Signatures
// ---------------------------------------------------------------------------------------------

/// The parameters of an instrumented Python function, in the form that binding needs.
pub struct Signature {
    param_names: &'static [&'static str],
    kwarg_to_index: NameTable,
    has_excess_args: bool,
    has_excess_kwargs: bool,
    pos_only: usize,
    pos_or_kw: usize,
    kw_only: usize,
}

impl View for Signature {
    type V = SignatureModel;

    closed spec fn view(&self) -> SignatureModel {
        SignatureModel {
            names: str_views(self.param_names@),
            kw_index: name_table(self.kwarg_to_index),
            has_excess_args: self.has_excess_args,
            has_excess_kwargs: self.has_excess_kwargs,
            pos_only: self.pos_only as nat,
            pos_or_kw: self.pos_or_kw as nat,
            kw_only: self.kw_only as nat,
        }
    }
}

impl Signature {
    /// A signature is well formed, no two of its parameters share a name, no keyword parameter
    /// sits at the position of `*args` or `**kwargs`, and each keyword name points at the parameter
    /// of that name.
    #[verifier::type_invariant]
    pub(crate) open spec fn inv(self) -> bool {
        &&& self@.wf()
        &&& self@.names.no_duplicates()
        &&& python_layout(self@)
        &&& kw_index_names(self@)
    }

    /// The names of all parameters, in declaration order.
    pub fn param_names(&self) -> (r: &'static [&'static str])
        ensures
            str_views(r@) == self@.names,
            r@.len() == self@.names.len(),
    {
        proof {
            use_type_invariant(self);
        }
        self.param_names
    }

    /// Whether the function takes `*args`.
    pub fn has_excess_args(&self) -> (r: bool)
        ensures
            r == self@.has_excess_args,
    {
        self.has_excess_args
    }

    /// Whether the function takes `**kwargs`.
    pub fn has_excess_kwargs(&self) -> (r: bool)
        ensures
            r == self@.has_excess_kwargs,
    {
        self.has_excess_kwargs
    }

    /// Binds a call's arguments to the parameters: `n_args` positional arguments, keyword
    /// arguments named `kw_names` (in the order passed), `n_defaults` positional defaults and
    /// keyword defaults named `kw_default_names` (in the order of `__kwdefaults__`).
    pub fn bind(
        &self,
        n_args: usize,
        kw_names: &Vec<String>,
        n_defaults: usize,
        kw_default_names: &Vec<String>,
    ) -> (r: Result<BoundArgs, BindError>)
        ensures
            match spec_bind(
                self@,
                n_args as nat,
                strings_view(kw_names@),
                n_defaults as nat,
                strings_view(kw_default_names@),
            ) {
                Ok((s, ex)) => r matches Ok(b) && b.slots@ == s && b.excess_kwargs@ == ex,
                Err(e) => r matches Err(e2) && e2 == e,
            },
            r matches Err(BindError::PassedTwice(j)) ==> j < kw_names.len(),
    {
        proof {
            use_type_invariant(self);
        }
        let ghost m = self@;
        let ghost kwv = strings_view(kw_names@);
        let ghost kdv = strings_view(kw_default_names@);
        let len = self.param_names.len();
        let npos = self.pos_only + self.pos_or_kw;
        let first = if npos < n_args {
            npos
        } else {
            n_args
        };
        let ghost s0 = positional_slots(m, n_args as nat);

        let mut slots: Vec<Option<ArgSource>> = Vec::new();
        let mut i: usize = 0;
        while i < len
            invariant
                i <= len,
                len == m.names.len(),
                first == min_nat(m.positional(), n_args as nat),
                s0 == positional_slots(m, n_args as nat),
                slots@ =~= s0.take(i as int),
            decreases len - i,
        {
            if i < first {
                slots.push(Some(ArgSource::Positional(i)));
            } else {
                slots.push(None);
            }
            i = i + 1;
        }
        assert(slots@ =~= s0);

        if n_args > npos && !self.has_excess_args {
            return Err(BindError::TooManyPositional);
        }

        let mut excess_kwargs: Vec<usize> = Vec::new();
        let mut j: usize = 0;
        while j < kw_names.len()
            invariant
                j <= kw_names.len(),
                kwv == strings_view(kw_names@),
                kwv.len() == kw_names@.len(),
                m == self@,
                m.wf(),
                slots@.len() == len,
                len == m.names.len(),
                s0 == positional_slots(m, n_args as nat),
                !(n_args > m.positional() && !m.has_excess_args),
                keyword_slots(m, s0, kwv.take(j as int)) == Ok::<
                    (Seq<Option<ArgSource>>, Seq<usize>),
                    BindError,
                >((slots@, excess_kwargs@)),
            decreases kw_names.len() - j,
        {
            proof {
                assert(kwv.take(j as int + 1).drop_last() =~= kwv.take(j as int));
                assert(kwv.take(j as int + 1).last() == kwv[j as int]);
                assert(kwv[j as int] == kw_names@[j as int]@);
            }
            let name = kw_names[j].as_str();
            match name_table_get(&self.kwarg_to_index, name) {
                Some(idx) => {
                    assert(m.kw_index.contains_key(name@));
                    if slots[idx].is_some() {
                        proof {
                            let t = kwv.take(j as int + 1);
                            assert(keyword_slots(m, s0, t) == keyword_step(
                                m,
                                slots@,
                                excess_kwargs@,
                                j as int,
                                kwv[j as int],
                            ));
                            assert(keyword_slots(m, s0, t) == Err::<
                                (Seq<Option<ArgSource>>, Seq<usize>),
                                BindError,
                            >(BindError::PassedTwice(j)));
                            lemma_keyword_error_persists(m, s0, kwv, j as int + 1);
                        }
                        return Err(BindError::PassedTwice(j));
                    }
                    slots.set(idx, Some(ArgSource::Keyword(j)));
                },
                None => {
                    if self.has_excess_kwargs {
                        excess_kwargs.push(j);
                    } else {
                        proof {
                            lemma_keyword_error_persists(m, s0, kwv, j as int + 1);
                        }
                        return Err(BindError::TooManyKeyword);
                    }
                },
            }
            j = j + 1;
        }
        assert(kwv.take(j as int) =~= kwv);
        let ghost s1 = slots@;

        if self.has_excess_args {
            slots.set(npos, Some(ArgSource::ExcessArgs(first)));
        }
        if self.has_excess_kwargs {
            slots.set(len - 1, Some(ArgSource::ExcessKwargs));
        }
        let ghost s2 = slots@;
        assert(s2 =~= excess_slots(m, s1, n_args as nat));

        let mut i: usize = 0;
        while i < npos
            invariant
                i <= npos,
                npos == m.positional(),
                npos <= len,
                slots@.len() == len,
                s2.len() == len,
                forall|k: int| 0 <= k < i ==> slots@[k] == #[trigger] default_slots(m, s2, n_defaults as nat)[k],
                forall|k: int| i <= k < len ==> slots@[k] == #[trigger] s2[k],
            decreases npos - i,
        {
            if slots[i].is_none() && npos - i <= n_defaults {
                slots.set(i, Some(ArgSource::Default(n_defaults - (npos - i))));
            }
            i = i + 1;
        }
        let ghost s3 = slots@;
        assert(s3 =~= default_slots(m, s2, n_defaults as nat));

        let mut j: usize = 0;
        while j < kw_default_names.len()
            invariant
                j <= kw_default_names.len(),
                kdv == strings_view(kw_default_names@),
                kdv.len() == kw_default_names@.len(),
                m == self@,
                m.wf(),
                slots@.len() == len,
                len == m.names.len(),
                s3.len() == len,
                slots@ == kw_default_slots(m, s3, kdv.take(j as int)),
            decreases kw_default_names.len() - j,
        {
            proof {
                assert(kdv.take(j as int + 1).drop_last() =~= kdv.take(j as int));
                assert(kdv.take(j as int + 1).last() == kdv[j as int]);
                assert(kdv[j as int] == kw_default_names@[j as int]@);
            }
            let name = kw_default_names[j].as_str();
            match name_table_get(&self.kwarg_to_index, name) {
                Some(idx) => {
                    if slots[idx].is_none() {
                        slots.set(idx, Some(ArgSource::KwDefault(j)));
                    }
                },
                None => {},
            }
            j = j + 1;
        }
        assert(kdv.take(j as int) =~= kdv);
        let ghost s4 = slots@;
        let ghost expected = spec_bind(m, n_args as nat, kwv, n_defaults as nat, kdv);
        assert(expected == if all_filled(s4) {
            Ok::<(Seq<ArgSource>, Seq<usize>), BindError>((unwrap_all(s4), excess_kwargs@))
        } else {
            Err(BindError::NotEnough)
        });

        let mut out: Vec<ArgSource> = Vec::new();
        let mut i: usize = 0;
        while i < len
            invariant
                i <= len,
                slots@ == s4,
                s4.len() == len,
                expected == spec_bind(m, n_args as nat, kwv, n_defaults as nat, kdv),
                m == self@,
                kwv == strings_view(kw_names@),
                kdv == strings_view(kw_default_names@),
                expected == if all_filled(s4) {
                    Ok::<(Seq<ArgSource>, Seq<usize>), BindError>((unwrap_all(s4), excess_kwargs@))
                } else {
                    Err(BindError::NotEnough)
                },
                out@ =~= unwrap_all(s4.take(i as int)),
                forall|k: int| 0 <= k < i ==> #[trigger] s4[k] is Some,
            decreases len - i,
        {
            match slots[i] {
                Some(a) => {
                    out.push(a);
                },
                None => {
                    assert(!all_filled(s4));
                    return Err(BindError::NotEnough);
                },
            }
            i = i + 1;
        }
        assert(s4.take(i as int) =~= s4);
        Ok(BoundArgs { slots: out, excess_kwargs })
    }

    /// The signature of a function that declares `params`, in this order. Parameter names and
    /// the list of them are interned.
    pub fn from_params(params: &Vec<Param>, leaker: &mut Leaker, vec_leaker: &mut VecLeaker) -> (r:
        Signature)
        requires
            python_params(params_view(params@)),
        ensures
            r@ == model_of_params(params_view(params@)),
            r@.wf(),
            python_layout(r@),
            kw_index_names(r@),
            final(leaker)@ == old(leaker)@.union(strings_view(params@.map_values(|p: Param| p.name)).to_set()),
            final(vec_leaker)@ == old(vec_leaker)@.insert(r@.names),
            final(leaker).pending_warnings() == capped(
                old(leaker).pending_warnings() + warnings_for(
                    old(leaker)@,
                    strings_view(params@.map_values(|p: Param| p.name)),
                ),
            ),
            final(vec_leaker).pending_warnings() == capped(
                old(vec_leaker).pending_warnings() + if warning_due_in(old(vec_leaker)@, r@.names) {
                    1nat
                } else {
                    0nat
                },
            ),
    {
        let mut names: Vec<&'static str> = Vec::new();
        let mut table = name_table_new();
        let mut pos_only: usize = 0;
        let mut pos_or_kw: usize = 0;
        let mut kw_only: usize = 0;
        let mut has_excess_args = false;
        let mut has_excess_kwargs = false;
        let ghost pv = params_view(params@);
        let ghost pnames = strings_view(params@.map_values(|p: Param| p.name));
        let mut i: usize = 0;
        proof {
            lemma_leaker_pending_capped(*leaker);
        }
        while i < params.len()
            invariant
                i <= params.len(),
                leaker.pending_warnings() == capped(
                    old(leaker).pending_warnings() + warnings_for(old(leaker)@, pnames.take(i as int)),
                ),
                vec_leaker.pending_warnings() == old(vec_leaker).pending_warnings(),
                pv == params_view(params@),
                excess_unique(pv),
                pnames == strings_view(params@.map_values(|p: Param| p.name)),
                pv.len() == params@.len(),
                pnames.len() == params@.len(),
                names@.len() == i,
                ({
                    let m = model_of_params(pv.take(i as int));
                    &&& str_views(names@) == m.names
                    &&& name_table(table) == m.kw_index
                    &&& has_excess_args == m.has_excess_args
                    &&& has_excess_kwargs == m.has_excess_kwargs
                    &&& pos_only == m.pos_only
                    &&& pos_or_kw == m.pos_or_kw
                    &&& kw_only == m.kw_only
                    &&& m.wf()
                }),
                leaker@ == old(leaker)@.union(pnames.take(i as int).to_set()),
                vec_leaker@ == old(vec_leaker)@,
            decreases params.len() - i,
        {
            let ghost prev = model_of_params(pv.take(i as int));
            assert(pv.take(i as int + 1).drop_last() =~= pv.take(i as int));
            assert(pv[i as int] == param_view(params@[i as int]));
            let p = &params[i];
            let ghost set_before = leaker@;
            proof {
                assert(pnames.take(i as int + 1).drop_last() =~= pnames.take(i as int));
                assert(pnames.take(i as int + 1).last() == pnames[i as int]);
                assert(pnames[i as int] == params@[i as int].name@);
            }
            let name = leaker.leak_or_get(p.name.clone());
            proof {
                let d: nat = if warning_due_in(set_before, pnames[i as int]) {
                    1nat
                } else {
                    0nat
                };
                lemma_capped_step(
                    old(leaker).pending_warnings() + warnings_for(old(leaker)@, pnames.take(i as int)),
                    d,
                );
            }
            match p.kind {
                ParamKind::PositionalOnly => {
                    pos_only = pos_only + 1;
                },
                ParamKind::PositionalOrKeyword => {
                    pos_or_kw = pos_or_kw + 1;
                    name_table_insert(&mut table, name, i);
                },
                ParamKind::ExcessArgs => {
                    has_excess_args = true;
                },
                ParamKind::KeywordOnly => {
                    kw_only = kw_only + 1;
                    name_table_insert(&mut table, name, i);
                },
                ParamKind::ExcessKwargs => {
                    has_excess_kwargs = true;
                },
            }
            let ghost before = names@;
            names.push(name);
            proof {
                assert(str_views(names@) =~= str_views(before).push(name@));
                assert(pnames[i as int] == params@[i as int].name@);
                assert(pnames.take(i as int + 1) =~= pnames.take(i as int).push(pnames[i as int]));
                assert(pnames.take(i as int + 1).to_set() =~= pnames.take(i as int).to_set().insert(
                    pnames[i as int],
                )) by {
                    pnames.take(i as int).lemma_push_to_set_commute(pnames[i as int]);
                }
                assert(leaker@ =~= old(leaker)@.union(pnames.take(i as int + 1).to_set()));
                let m = model_of_params(pv.take(i as int + 1));
                assert(m.wf()) by {
                    lemma_excess_declared(pv.take(i as int));
                    if prev.has_excess_args && p.kind == ParamKind::ExcessArgs {
                        let j = choose|j: int| 0 <= j < i && #[trigger] pv.take(i as int)[j].1 == ParamKind::ExcessArgs;
                        assert(pv[j].1 == ParamKind::ExcessArgs);
                    }
                    if prev.has_excess_kwargs && p.kind == ParamKind::ExcessKwargs {
                        let j = choose|j: int| 0 <= j < i && #[trigger] pv.take(i as int)[j].1 == ParamKind::ExcessKwargs;
                        assert(pv[j].1 == ParamKind::ExcessKwargs);
                    }
                    assert(pv.take(i as int + 1).last() == pv[i as int]);
                    assert(m.names.len() == prev.names.len() + 1);
                    assert forall|k: Seq<char>| #[trigger] m.kw_index.contains_key(k) implies m.kw_index[k]
                        < m.names.len() by {
                        if prev.kw_index.contains_key(k) {
                            assert(prev.kw_index[k] < prev.names.len());
                        }
                    }
                }
            }
            i = i + 1;
        }
        proof {
            assert(pv.take(i as int) =~= pv);
            assert(pnames.take(i as int) =~= pnames);
            lemma_model_names(pv);
            lemma_python_layout(pv);
            law_keyword_table_names(pv);
        }
        let param_names = vec_leaker.leak_or_get(names);
        Signature {
            param_names,
            kwarg_to_index: table,
            has_excess_args,
            has_excess_kwargs,
            pos_only,
            pos_or_kw,
            kw_only,
        }
    }
}

} // verus!
