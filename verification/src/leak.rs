use vstd::prelude::*;

use rapidhash::RapidHashSet;

verus! {

/// The hasher state that rapidhash's collections are built with.
#[verifier::external_type_specification]
#[verifier::external_body]
pub struct ExRapidRandomState<const AVALANCHE: bool, const SPONGE: bool, const COMPACT: bool, const PROTECTED: bool>(
    rapidhash::inner::RandomState<AVALANCHE, SPONGE, COMPACT, PROTECTED>,
);

/// Number of interned objects from which on every newly interned object is worth a warning.
pub const LEAK_WARNING_THRESHOLD: usize = 100_000;

/// `n`, or `usize::MAX` where `n` is larger.
pub open spec fn capped(n: nat) -> nat {
    if n >= usize::MAX {
        usize::MAX as nat
    } else {
        n
    }
}

/// Whether interning `item` into `set` leaks a new object while at least
/// `LEAK_WARNING_THRESHOLD` objects are held: each such leak is worth a warning.
pub open spec fn warning_due_in<T>(set: Set<T>, item: T) -> bool {
    !set.contains(item) && set.len() >= LEAK_WARNING_THRESHOLD
}

/// The number of warnings that interning `items` into `set`, one after the other, is worth.
pub open spec fn warnings_for<T>(set: Set<T>, items: Seq<T>) -> nat
    decreases items.len(),
{
    if items.len() == 0 {
        0
    } else {
        warnings_for(set, items.drop_last()) + if warning_due_in(
            set.union(items.drop_last().to_set()),
            items.last(),
        ) {
            1nat
        } else {
            0nat
        }
    }
}

/// Counting up a capped count one step at a time caps the sum.
pub proof fn lemma_capped_step(n: nat, d: nat)
    ensures
        capped(capped(n) + d) == capped(n + d),
{
}

/// A leaker's count of pending warnings is capped at `usize::MAX`.
pub proof fn lemma_leaker_pending_capped(l: Leaker)
    ensures
        capped(l.pending_warnings()) == l.pending_warnings(),
{
}

/// A field-list leaker's count of pending warnings is capped at `usize::MAX`.
pub proof fn lemma_vec_leaker_pending_capped(l: VecLeaker)
    ensures
        capped(l.pending_warnings()) == l.pending_warnings(),
{
}

/// One more, up to `usize::MAX`.
fn count_up(n: usize) -> (r: usize)
    ensures
        r == capped(n as nat + 1),
{
    if n < usize::MAX {
        n + 1
    } else {
        usize::MAX
    }
}

/// Moves `b` to the heap for the rest of the program.
///
/// Trusted: `Box::leak` hands back a reference to the boxed value, which is never freed.
#[verifier::external_body]
fn box_leak<T>(b: Box<T>) -> (r: &'static T)
    ensures
        *r == *b,
{
    Box::leak(b)
}

/// Moves `x` to the heap and never frees it, so that a `'static` reference to it exists.
pub fn leak<T>(x: T) -> (r: &'static T)
    ensures
        *r == x,
{
    box_leak(Box::new(x))
}

/// Trusted: `String::leak` gives up the string's buffer and returns it as a `'static` string
/// with the same characters.
#[verifier::external_body]
fn leak_string(x: String) -> (r: &'static str)
    ensures
        r@ == x@,
{
    x.leak()
}

/// Trusted: `Vec::leak` gives up the vector's buffer and returns it as a `'static` slice with
/// the same elements.
#[verifier::external_body]
fn leak_vec(x: Vec<&'static str>) -> (r: &'static [&'static str])
    ensures
        r@ == x@,
{
    x.leak()
}

/// The characters of each string of a sequence of strings.
pub open spec fn str_views(s: Seq<&str>) -> Seq<Seq<char>> {
    s.map_values(|x: &str| x@)
}

// ---------------------------------------------------------------------------------------------
// Interned strings
// ---------------------------------------------------------------------------------------------

/// What a set of interned strings holds, by the characters of each string.
pub uninterp spec fn interned_strings(set: RapidHashSet<&'static str>) -> Set<Seq<char>>;

/// Trusted: `RapidHashSet::default` (std `HashSet::default` with rapidhash's hasher) is empty.
#[verifier::external_body]
fn interned_strings_new() -> (set: RapidHashSet<&'static str>)
    ensures
        interned_strings(set) == Set::<Seq<char>>::empty(),
{
    RapidHashSet::default()
}

/// Trusted: `HashSet::get` finds the stored string equal to `s`, if there is one; `&str` compares
/// by its characters.
#[verifier::external_body]
fn interned_strings_get(set: &RapidHashSet<&'static str>, s: &str) -> (r: Option<&'static str>)
    ensures
        match r {
            Some(found) => found@ == s@ && interned_strings(*set).contains(s@),
            None => !interned_strings(*set).contains(s@),
        },
{
    set.get(s).copied()
}

/// Trusted: `HashSet::insert` adds `s` to the set (it stays as it was where an equal string is
/// there already).
#[verifier::external_body]
fn interned_strings_insert(set: &mut RapidHashSet<&'static str>, s: &'static str)
    ensures
        interned_strings(*final(set)) == interned_strings(*old(set)).insert(s@),
{
    set.insert(s);
}

/// Trusted: `HashSet::len` is the number of elements, and elements are distinct strings.
#[verifier::external_body]
fn interned_strings_len(set: &RapidHashSet<&'static str>) -> (r: usize)
    ensures
        r as nat == interned_strings(*set).len(),
{
    set.len()
}

/// Interns strings: each distinct string is leaked once and handed out again afterwards.
pub struct Leaker {
    set: RapidHashSet<&'static str>,
    /// Warnings due since they were last taken.
    pending: usize,
}

impl View for Leaker {
    type V = Set<Seq<char>>;

    closed spec fn view(&self) -> Set<Seq<char>> {
        interned_strings(self.set)
    }
}

impl Leaker {
    /// A leaker holds finitely many strings.
    #[verifier::type_invariant]
    spec fn inv(self) -> bool {
        interned_strings(self.set).finite()
    }

    /// A leaker that has interned nothing yet.
    pub fn new() -> (r: Self)
        ensures
            r@ == Set::<Seq<char>>::empty(),
            r.pending_warnings() == 0,
    {
        Leaker { set: interned_strings_new(), pending: 0 }
    }

    /// The number of distinct strings interned so far; there are finitely many.
    pub fn len(&self) -> (r: usize)
        ensures
            self@.finite(),
            r as nat == self@.len(),
    {
        proof {
            use_type_invariant(self);
        }
        interned_strings_len(&self.set)
    }

    /// The number of leak warnings due since they were last taken (capped at `usize::MAX`).
    pub closed spec fn pending_warnings(&self) -> nat {
        self.pending as nat
    }

    /// Hands out the leak warnings due since they were last taken, and forgets them.
    pub fn take_warnings(&mut self) -> (r: usize)
        ensures
            r == old(self).pending_warnings(),
            final(self).pending_warnings() == 0,
            final(self)@ == old(self)@,
    {
        proof {
            use_type_invariant(&*self);
        }
        let r = self.pending;
        self.pending = 0;
        r
    }

    /// Whether interning `s` now leaks a new string while the leaker already holds at least
    /// `LEAK_WARNING_THRESHOLD` of them.
    pub fn warning_due(&self, s: &str) -> (r: bool)
        ensures
            r == (!self@.contains(s@) && self@.len() >= LEAK_WARNING_THRESHOLD),
    {
        match interned_strings_get(&self.set, s) {
            Some(_) => false,
            None => interned_strings_len(&self.set) >= LEAK_WARNING_THRESHOLD,
        }
    }

    /// A `'static` string with the characters of `s`: the one interned before where there is
    /// one, else `s` itself, leaked and interned.
    pub fn leak_or_get(&mut self, s: String) -> (r: &'static str)
        ensures
            r@ == s@,
            final(self)@ == old(self)@.insert(s@),
            old(self)@.contains(s@) ==> final(self)@ == old(self)@,
            final(self)@.finite(),
            final(self)@.len() == if old(self)@.contains(s@) {
                old(self)@.len()
            } else {
                old(self)@.len() + 1
            },
            final(self).pending_warnings() == capped(
                old(self).pending_warnings() + if warning_due_in(old(self)@, s@) {
                    1nat
                } else {
                    0nat
                },
            ),
    {
        proof {
            use_type_invariant(&*self);
        }
        if self.warning_due(s.as_str()) {
            self.pending = count_up(self.pending);
        }
        match interned_strings_get(&self.set, s.as_str()) {
            Some(found) => {
                proof {
                    assert(old(self)@.insert(s@) =~= old(self)@);
                }
                found
            },
            None => {
                let leaked = leak_string(s);
                let mut set = interned_strings_new();
                std::mem::swap(&mut set, &mut self.set);
                interned_strings_insert(&mut set, leaked);
                self.set = set;
                leaked
            },
        }
    }
}

// ---------------------------------------------------------------------------------------------
// Interned field lists
// ---------------------------------------------------------------------------------------------

/// What a set of interned string slices holds, by the characters of each string of each slice.
pub uninterp spec fn interned_slices(set: RapidHashSet<&'static [&'static str]>) -> Set<
    Seq<Seq<char>>,
>;

/// Trusted: `RapidHashSet::default` (std `HashSet::default` with rapidhash's hasher) is empty.
#[verifier::external_body]
fn interned_slices_new() -> (set: RapidHashSet<&'static [&'static str]>)
    ensures
        interned_slices(set) == Set::<Seq<Seq<char>>>::empty(),
{
    RapidHashSet::default()
}

/// Trusted: `HashSet::get` finds the stored slice equal to `s`; slices of `&str` compare element
/// by element, and each `&str` by its characters.
#[verifier::external_body]
fn interned_slices_get(set: &RapidHashSet<&'static [&'static str]>, s: &[&'static str]) -> (r:
    Option<&'static [&'static str]>)
    ensures
        match r {
            Some(found) => str_views(found@) == str_views(s@) && interned_slices(*set).contains(
                str_views(s@),
            ),
            None => !interned_slices(*set).contains(str_views(s@)),
        },
{
    set.get(s).copied()
}

/// Trusted: `HashSet::insert` adds `s` to the set (it stays as it was where an equal slice is
/// there already).
#[verifier::external_body]
fn interned_slices_insert(set: &mut RapidHashSet<&'static [&'static str]>, s: &'static [&'static str])
    ensures
        interned_slices(*final(set)) == interned_slices(*old(set)).insert(str_views(s@)),
{
    set.insert(s);
}

/// Trusted: `HashSet::len` is the number of elements, and elements are distinct slices.
#[verifier::external_body]
fn interned_slices_len(set: &RapidHashSet<&'static [&'static str]>) -> (r: usize)
    ensures
        r as nat == interned_slices(*set).len(),
{
    set.len()
}

/// Interns lists of field names: each distinct list is leaked once and handed out again
/// afterwards.
pub struct VecLeaker {
    set: RapidHashSet<&'static [&'static str]>,
    /// Warnings due since they were last taken.
    pending: usize,
}

impl View for VecLeaker {
    type V = Set<Seq<Seq<char>>>;

    closed spec fn view(&self) -> Set<Seq<Seq<char>>> {
        interned_slices(self.set)
    }
}

impl VecLeaker {
    /// A leaker holds finitely many lists.
    #[verifier::type_invariant]
    spec fn inv(self) -> bool {
        interned_slices(self.set).finite()
    }

    /// A leaker that has interned nothing yet.
    pub fn new() -> (r: Self)
        ensures
            r@ == Set::<Seq<Seq<char>>>::empty(),
            r.pending_warnings() == 0,
    {
        VecLeaker { set: interned_slices_new(), pending: 0 }
    }

    /// The number of distinct lists interned so far; there are finitely many.
    pub fn len(&self) -> (r: usize)
        ensures
            self@.finite(),
            r as nat == self@.len(),
    {
        proof {
            use_type_invariant(self);
        }
        interned_slices_len(&self.set)
    }

    /// The number of leak warnings due since they were last taken (capped at `usize::MAX`).
    pub closed spec fn pending_warnings(&self) -> nat {
        self.pending as nat
    }

    /// Hands out the leak warnings due since they were last taken, and forgets them.
    pub fn take_warnings(&mut self) -> (r: usize)
        ensures
            r == old(self).pending_warnings(),
            final(self).pending_warnings() == 0,
            final(self)@ == old(self)@,
    {
        proof {
            use_type_invariant(&*self);
        }
        let r = self.pending;
        self.pending = 0;
        r
    }

    /// Whether interning `item` now leaks a new list while the leaker already holds at least
    /// `LEAK_WARNING_THRESHOLD` of them.
    pub fn warning_due(&self, item: &Vec<&'static str>) -> (r: bool)
        ensures
            r == (!self@.contains(str_views(item@)) && self@.len() >= LEAK_WARNING_THRESHOLD),
    {
        match interned_slices_get(&self.set, item.as_slice()) {
            Some(_) => false,
            None => interned_slices_len(&self.set) >= LEAK_WARNING_THRESHOLD,
        }
    }

    /// A `'static` slice with the strings of `item`: the one interned before where there is one,
    /// else `item` itself, leaked and interned.
    pub fn leak_or_get(&mut self, item: Vec<&'static str>) -> (r: &'static [&'static str])
        ensures
            str_views(r@) == str_views(item@),
            r@.len() == item@.len(),
            final(self)@ == old(self)@.insert(str_views(item@)),
            old(self)@.contains(str_views(item@)) ==> final(self)@ == old(self)@,
            final(self)@.finite(),
            final(self)@.len() == if old(self)@.contains(str_views(item@)) {
                old(self)@.len()
            } else {
                old(self)@.len() + 1
            },
            final(self).pending_warnings() == capped(
                old(self).pending_warnings() + if warning_due_in(old(self)@, str_views(item@)) {
                    1nat
                } else {
                    0nat
                },
            ),
    {
        proof {
            use_type_invariant(&*self);
        }
        if self.warning_due(&item) {
            self.pending = count_up(self.pending);
        }
        match interned_slices_get(&self.set, item.as_slice()) {
            Some(found) => {
                proof {
                    assert(old(self)@.insert(str_views(item@)) =~= old(self)@);
                    assert(found@.len() == str_views(found@).len());
                }
                found
            },
            None => {
                let leaked = leak_vec(item);
                let mut set = interned_slices_new();
                std::mem::swap(&mut set, &mut self.set);
                interned_slices_insert(&mut set, leaked);
                self.set = set;
                leaked
            },
        }
    }
}

/// Interning one string again leaks nothing more, and lists of the same names in another order
/// are interned apart: each permutation is leaked once.
pub proof fn law_interned_once(
    strings: Set<Seq<char>>,
    s: Seq<char>,
    lists: Set<Seq<Seq<char>>>,
    a: Seq<char>,
    b: Seq<char>,
)
    requires
        strings.finite(),
        lists.finite(),
        a != b,
        !lists.contains(seq![a, b]),
        !lists.contains(seq![b, a]),
    ensures
        strings.insert(s).insert(s) == strings.insert(s),
        strings.insert(s).len() <= strings.len() + 1,
        lists.insert(seq![a, b]).insert(seq![b, a]).len() == lists.len() + 2,
{
    assert(strings.insert(s).insert(s) =~= strings.insert(s));
    assert(seq![a, b][0] != seq![b, a][0]);
    assert(!lists.insert(seq![a, b]).contains(seq![b, a]));
}

} // verus!
