use vstd::prelude::*;
use vstd::string::{StringExecFns, StringSliceAdditionalSpecFns};

use crate::leak::str_views;
use crate::level::{spec_passes, PyLevel};

verus! {

/// What a callsite records: an event, a span, or a hint.
#[derive(Clone, Copy, Debug, PartialEq, Eq, Hash, Structural)]
pub enum CallsiteKind {
    Event,
    Span,
    Hint,
}

impl CallsiteKind {
    /// The kind of a callsite whose `tracing` kind says whether it is an event, a span and a
    /// hint, asked in this order.
    pub fn from_kind_flags(is_event: bool, is_span: bool, is_hint: bool) -> (r: CallsiteKind)
        requires
            is_event || is_span || is_hint,
        ensures
            r == if is_event {
                CallsiteKind::Event
            } else if is_span {
                CallsiteKind::Span
            } else {
                CallsiteKind::Hint
            },
    {
        if is_event {
            CallsiteKind::Event
        } else if is_span {
            CallsiteKind::Span
        } else {
            CallsiteKind::Hint
        }
    }
}

/// What tells callsites apart: the address of the bytecode instruction, the level, the fields
/// and the kind. One instruction can hold several callsites.
#[derive(Clone, Debug, Eq, Hash)]
pub struct CallsiteIdentifier {
    pub address: usize,
    pub level: PyLevel,
    pub fields: &'static [&'static str],
    pub kind: CallsiteKind,
}

impl CallsiteIdentifier {
    /// The identifier of the callsite at `address` with this level, fields and kind.
    pub fn new(address: usize, level: PyLevel, fields: &'static [&'static str], kind: CallsiteKind) -> (r:
        Self)
        ensures
            r.address == address,
            r.level == level,
            r.fields == fields,
            r.kind == kind,
    {
        CallsiteIdentifier { address, level, fields, kind }
    }
}

/// Whether an event or span at `level` is looked at any further: it must pass both the filter
/// compiled into `tracing` and the one in force now, and a callsite that is already known must
/// not have been found disabled. What the subscriber then says decides the rest.
pub fn action_gate(
    level: PyLevel,
    static_max: Option<PyLevel>,
    current_max: Option<PyLevel>,
    known_enabled: Option<bool>,
) -> (r: bool)
    ensures
        r == (spec_passes(level, static_max) && spec_passes(level, current_max) && known_enabled
            != Some(false)),
{
    if level.passes(static_max) && level.passes(current_max) {
        match known_enabled {
            Some(false) => false,
            _ => true,
        }
    } else {
        false
    }
}

/// Whether two strings have the same characters, found by comparing their UTF-8 bytes.
pub fn str_eq(a: &str, b: &str) -> (r: bool)
    ensures
        r == (a@ == b@),
{
    let x = a.as_bytes();
    let y = b.as_bytes();
    proof {
        vstd::utf8::encode_utf8_decode_utf8(a@);
        vstd::utf8::encode_utf8_decode_utf8(b@);
    }
    if x.len() != y.len() {
        return false;
    }
    let mut i: usize = 0;
    while i < x.len()
        invariant
            x@ == a.spec_bytes(),
            y@ == b.spec_bytes(),
            x@.len() == y@.len(),
            i <= x@.len(),
            forall|k: int| 0 <= k < i ==> x@[k] == y@[k],
        decreases x.len() - i,
    {
        if x[i] != y[i] {
            proof {
                assert(x@[i as int] != y@[i as int]);
                assert(x@ != y@);
            }
            return false;
        }
        i = i + 1;
    }
    assert(x@ =~= y@);
    true
}

/// Whether two lists of field names hold the same names in the same order.
pub fn fields_eq(a: &[&str], b: &[&str]) -> (r: bool)
    ensures
        r == (str_views(a@) == str_views(b@)),
{
    if a.len() != b.len() {
        proof {
            assert(str_views(a@).len() != str_views(b@).len());
        }
        return false;
    }
    let mut i: usize = 0;
    while i < a.len()
        invariant
            a@.len() == b@.len(),
            i <= a@.len(),
            forall|k: int| 0 <= k < i ==> a@[k]@ == b@[k]@,
        decreases a.len() - i,
    {
        if !str_eq(a[i], b[i]) {
            proof {
                assert(str_views(a@)[i as int] != str_views(b@)[i as int]);
            }
            return false;
        }
        i = i + 1;
    }
    assert(str_views(a@) =~= str_views(b@));
    true
}

/// Two identifiers are equal when their addresses, levels and kinds are, and their fields hold the
/// same names in the same order (wherever the lists are stored).
pub open spec fn same_callsite(a: CallsiteIdentifier, b: CallsiteIdentifier) -> bool {
    &&& a.address == b.address
    &&& a.level == b.level
    &&& str_views(a.fields@) == str_views(b.fields@)
    &&& a.kind == b.kind
}

impl PartialEq for CallsiteIdentifier {
    fn eq(&self, other: &Self) -> (r: bool) {
        self.address == other.address && self.level == other.level && self.kind == other.kind
            && fields_eq(self.fields, other.fields)
    }
}

impl vstd::std_specs::cmp::PartialEqSpecImpl for CallsiteIdentifier {
    open spec fn obeys_eq_spec() -> bool {
        true
    }

    open spec fn eq_spec(&self, other: &CallsiteIdentifier) -> bool {
        same_callsite(*self, *other)
    }
}

/// Callsite identity: identifiers made from the same address, level, field names (in order) and
/// kind are equal, and only those; it is an equivalence.
pub proof fn law_callsite_identity(a: CallsiteIdentifier, b: CallsiteIdentifier, c: CallsiteIdentifier)
    ensures
        same_callsite(a, a),
        same_callsite(a, b) ==> same_callsite(b, a),
        same_callsite(a, b) && same_callsite(b, c) ==> same_callsite(a, c),
        same_callsite(a, b) <==> (a.address == b.address && a.level == b.level && a.kind == b.kind
            && str_views(a.fields@) == str_views(b.fields@)),
{
}

// ---------------------------------------------------------------------------------------------
// The table of callsites
// ---------------------------------------------------------------------------------------------

/// What tells callsites apart, as values: the address, the level, the field names in order, and
/// the kind.
pub type CallsiteKey = (usize, PyLevel, Seq<Seq<char>>, CallsiteKind);

impl CallsiteIdentifier {
    /// The identifier as a value; two identifiers are equal exactly when their keys are.
    pub open spec fn key(&self) -> CallsiteKey {
        (self.address, self.level, str_views(self.fields@), self.kind)
    }
}

/// The callsite stored for each key of a list of entries (a later entry wins).
pub open spec fn entries_map<C>(entries: Seq<(CallsiteIdentifier, C)>) -> Map<CallsiteKey, C>
    decreases entries.len(),
{
    if entries.len() == 0 {
        Map::empty()
    } else {
        entries_map(entries.drop_last()).insert(entries.last().0.key(), entries.last().1)
    }
}

/// No two entries share a key.
pub open spec fn distinct_keys<C>(entries: Seq<(CallsiteIdentifier, C)>) -> bool {
    forall|i: int, j: int|
        0 <= i < j < entries.len() ==> #[trigger] entries[i].0.key() != #[trigger] entries[j].0.key()
}

/// With distinct keys, the map holds each entry, only those, and as many as there are entries.
proof fn lemma_entries_map<C>(entries: Seq<(CallsiteIdentifier, C)>)
    requires
        distinct_keys(entries),
    ensures
        entries_map(entries).dom().finite(),
        entries_map(entries).dom().len() == entries.len(),
        forall|i: int|
            0 <= i < entries.len() ==> #[trigger] entries_map(entries).contains_key(entries[i].0.key())
                && entries_map(entries)[entries[i].0.key()] == entries[i].1,
        forall|k: CallsiteKey|
            #[trigger] entries_map(entries).contains_key(k) ==> exists|i: int|
                0 <= i < entries.len() && #[trigger] entries[i].0.key() == k,
    decreases entries.len(),
{
    if entries.len() > 0 {
        let prev = entries.drop_last();
        let n = entries.len();
        assert forall|i: int, j: int| 0 <= i < j < prev.len() implies #[trigger] prev[i].0.key()
            != #[trigger] prev[j].0.key() by {
            assert(prev[i] == entries[i] && prev[j] == entries[j]);
        }
        lemma_entries_map(prev);
        let m = entries_map(prev);
        let last = entries[n - 1];
        assert(!m.contains_key(last.0.key())) by {
            if m.contains_key(last.0.key()) {
                let i = choose|i: int| 0 <= i < prev.len() && #[trigger] prev[i].0.key() == last.0.key();
                assert(prev[i] == entries[i]);
                assert(entries[i].0.key() != entries[n - 1].0.key());
            }
        }
        assert(entries_map(entries).dom() =~= m.dom().insert(last.0.key()));
        assert forall|i: int| 0 <= i < n implies #[trigger] entries_map(entries).contains_key(
            entries[i].0.key(),
        ) && entries_map(entries)[entries[i].0.key()] == entries[i].1 by {
            if i < n - 1 {
                assert(prev[i] == entries[i]);
                assert(entries[i].0.key() != entries[n - 1].0.key());
            }
        }
        assert forall|k: CallsiteKey| #[trigger] entries_map(entries).contains_key(k) implies exists|i: int|
            0 <= i < n && #[trigger] entries[i].0.key() == k by {
            if k == last.0.key() {
                assert(entries[n - 1].0.key() == k);
            } else {
                assert(m.contains_key(k));
                let i = choose|i: int| 0 <= i < prev.len() && #[trigger] prev[i].0.key() == k;
                assert(prev[i] == entries[i]);
            }
        }
    }
}

/// The callsites created so far, one for each identifier (compared by address, level, field names
/// and kind): looking one up, or creating it once.
pub struct CallsiteTable<C> {
    entries: Vec<(CallsiteIdentifier, C)>,
}

impl<C> View for CallsiteTable<C> {
    type V = Map<CallsiteKey, C>;

    closed spec fn view(&self) -> Map<CallsiteKey, C> {
        entries_map(self.entries@)
    }
}

impl<C> CallsiteTable<C> {
    /// No two entries have equal identifiers.
    #[verifier::type_invariant]
    spec fn inv(self) -> bool {
        distinct_keys(self.entries@)
    }
}

impl<C: Copy> CallsiteTable<C> {
    /// A table that holds no callsite.
    pub fn new() -> (r: Self)
        ensures
            r@ == Map::<CallsiteKey, C>::empty(),
    {
        CallsiteTable { entries: Vec::new() }
    }

    /// The number of callsites held.
    pub fn len(&self) -> (r: usize)
        ensures
            self@.dom().finite(),
            r == self@.dom().len(),
    {
        proof {
            use_type_invariant(self);
            lemma_entries_map(self.entries@);
        }
        self.entries.len()
    }

    /// The callsite of the identifier `id`, where there is one.
    pub fn get(&self, id: &CallsiteIdentifier) -> (r: Option<C>)
        ensures
            r == (if self@.contains_key(id.key()) {
                Some(self@[id.key()])
            } else {
                None
            }),
    {
        proof {
            use_type_invariant(self);
            lemma_entries_map(self.entries@);
        }
        let mut i: usize = 0;
        while i < self.entries.len()
            invariant
                i <= self.entries@.len(),
                forall|k: int| 0 <= k < i ==> #[trigger] self.entries@[k].0.key() != id.key(),
            decreases self.entries.len() - i,
        {
            if self.entries[i].0 == *id {
                proof {
                    use_type_invariant(self);
                    lemma_entries_map(self.entries@);
                    assert(same_callsite(self.entries@[i as int].0, *id));
                    assert(self.entries@[i as int].0.key() == id.key());
                }
                return Some(self.entries[i].1);
            }
            i = i + 1;
        }
        proof {
            if self@.contains_key(id.key()) {
                let k = choose|k: int| 0 <= k < self.entries@.len() && #[trigger] self.entries@[k].0.key()
                    == id.key();
                assert(self.entries@[k].0.key() != id.key());
            }
        }
        None
    }

    /// The callsite of the identifier `id`: the one stored before where there is one, else `c`,
    /// which is stored from now on.
    pub fn get_or_insert(&mut self, id: CallsiteIdentifier, c: C) -> (r: C)
        ensures
            old(self)@.contains_key(id.key()) ==> r == old(self)@[id.key()] && final(self)@ == old(
                self,
            )@,
            !old(self)@.contains_key(id.key()) ==> r == c && final(self)@ == old(self)@.insert(id.key(), c),
    {
        match self.get(&id) {
            Some(found) => found,
            None => {
                proof {
                    use_type_invariant(&*self);
                    lemma_entries_map(self.entries@);
                }
                let mut entries: Vec<(CallsiteIdentifier, C)> = Vec::new();
                std::mem::swap(&mut entries, &mut self.entries);
                let ghost before = entries@;
                proof {
                    assert forall|k: int| 0 <= k < before.len() implies #[trigger] before[k].0.key() != id.key() by {
                        assert(entries_map(before).contains_key(before[k].0.key()));
                    }
                }
                entries.push((id, c));
                proof {
                    assert(entries@.drop_last() =~= before);
                    assert forall|i: int, j: int| 0 <= i < j < entries@.len() implies #[trigger] entries@[i].0.key()
                        != #[trigger] entries@[j].0.key() by {
                        if j < before.len() {
                            assert(entries@[i] == before[i] && entries@[j] == before[j]);
                        } else {
                            assert(entries@[i] == before[i]);
                        }
                    }
                }
                self.entries = entries;
                c
            },
        }
    }
}

/// One callsite for each unique identifier: once a callsite is stored for an identifier, every
/// later request with an identifier of the same address, level, field names and kind gets that
/// callsite back, and the table stays as it is.
pub proof fn law_one_callsite_per_identifier<C>(
    table: Map<CallsiteKey, C>,
    a: CallsiteIdentifier,
    b: CallsiteIdentifier,
    first: C,
    second: C,
)
    requires
        !table.contains_key(a.key()),
        same_callsite(a, b),
    ensures
        ({
            let after = table.insert(a.key(), first);
            &&& after.contains_key(b.key())
            &&& after[b.key()] == first
            &&& after.insert(b.key(), after[b.key()]) == after
        }),
{
    let after = table.insert(a.key(), first);
    assert(after.insert(b.key(), after[b.key()]) =~= after);
}

/// The name of a callsite's metadata: events are named after their file, spans after their
/// function.
pub open spec fn spec_callsite_name(kind: CallsiteKind, filename: Seq<char>, code_name: Seq<char>) -> Seq<
    char,
> {
    match kind {
        CallsiteKind::Event => "event "@ + filename,
        _ => code_name,
    }
}

/// The name of the metadata of a callsite of kind `kind` in the file `filename`, in the function
/// called `code_name`. Hints are never created.
pub fn callsite_name(kind: CallsiteKind, filename: &str, code_name: &str) -> (r: String)
    requires
        kind != CallsiteKind::Hint,
    ensures
        r@ == spec_callsite_name(kind, filename@, code_name@),
{
    match kind {
        CallsiteKind::Event => {
            let mut name = String::from_str("event ");
            name.append(filename);
            name
        },
        _ => String::from_str(code_name),
    }
}

/// The line of a callsite as metadata holds it; Python's line numbers are never negative.
pub fn line_number(line: i32) -> (r: u32)
    requires
        line >= 0,
    ensures
        r == line,
{
    line as u32
}

/// The index of the last bytecode instruction that a frame executed, from what
/// `PyFrame_GetLasti` returns: `-1` where there is none.
pub fn last_instruction_index(lasti: i32) -> (r: Option<usize>)
    requires
        lasti >= -1,
    ensures
        lasti == -1 ==> r is None,
        lasti >= 0 ==> r == Some(lasti as usize),
{
    if lasti == -1 {
        None
    } else {
        Some(lasti as usize)
    }
}

/// The address of an instruction: where the function's bytecode starts, plus the instruction's
/// offset.
pub fn instruction_address(bytecode_address: usize, offset: usize) -> (r: usize)
    requires
        bytecode_address + offset <= usize::MAX,
    ensures
        r == bytecode_address + offset,
{
    bytecode_address + offset
}

} // verus!
