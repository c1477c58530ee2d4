use vstd::prelude::*;
use vstd::string::{StrSliceExecFns, StringExecFns};

use crate::signature::strings_view;

verus! {

/// The components of a file path, each as text (`Path::components`, then `to_string_lossy`).
pub uninterp spec fn path_components(path: Seq<char>) -> Seq<Seq<char>>;

/// Trusted: splits `path` with `std::path::Path::components` and converts each component to text
/// with `OsStr::to_string_lossy`; the result depends on `path` alone (under the path rules of the
/// platform the crate is built for). Nothing is claimed of how the components are found.
#[verifier::external_body]
fn split_path(path: &str) -> (r: Vec<String>)
    ensures
        strings_view(r@) == path_components(path@),
{
    std::path::Path::new(path).components().map(|c| c.as_os_str().to_string_lossy().into_owned()).collect()
}

/// The number of `.` in `s`.
pub open spec fn count_dots(s: Seq<char>) -> nat
    decreases s.len(),
{
    if s.len() == 0 {
        0
    } else {
        count_dots(s.drop_last()) + if s.last() == '.' {
            1nat
        } else {
            0nat
        }
    }
}

/// How many trailing path components name a module: one per package level, counted by the dots
/// in the module's `__name__`, plus the file itself.
pub open spec fn module_depth(module_name: Option<Seq<char>>) -> nat {
    match module_name {
        Some(name) => count_dots(name) + 1,
        None => 1,
    }
}

/// `parts` joined with `/` between each two.
pub open spec fn join_slash(parts: Seq<Seq<char>>) -> Seq<char>
    decreases parts.len(),
{
    if parts.len() == 0 {
        Seq::empty()
    } else if parts.len() == 1 {
        parts[0]
    } else {
        join_slash(parts.drop_last()) + seq!['/'] + parts.last()
    }
}

/// The module path of a callsite: the last `module_depth` components of its file's path (all of
/// them where there are fewer), joined with `/`.
pub open spec fn spec_module_name_path(module_name: Option<Seq<char>>, components: Seq<Seq<char>>) -> Seq<char> {
    let k = if module_depth(module_name) <= components.len() {
        module_depth(module_name)
    } else {
        components.len()
    };
    join_slash(components.subrange(components.len() - k, components.len() as int))
}

/// The number of `.` in `s`.
fn count_dots_in(s: &str) -> (r: usize)
    ensures
        r == count_dots(s@),
{
    let n = s.unicode_len();
    let mut count: usize = 0;
    let mut i: usize = 0;
    while i < n
        invariant
            n == s@.len(),
            i <= n,
            count == count_dots(s@.take(i as int)),
            count <= i,
        decreases n - i,
    {
        assert(s@.take(i as int + 1).drop_last() =~= s@.take(i as int));
        if s.get_char(i) == '.' {
            count = count + 1;
        }
        i = i + 1;
    }
    assert(s@.take(i as int) =~= s@);
    count
}

/// The module path of a callsite in the module called `module_name` (`None` where `__name__` is
/// `None`) whose file's path has the components `components`.
pub fn module_of_components(module_name: Option<&str>, components: &Vec<String>) -> (r: String)
    ensures
        r@ == spec_module_name_path(
            match module_name {
                Some(n) => Some(n@),
                None => None,
            },
            strings_view(components@),
        ),
{
    let ghost name_view = match module_name {
        Some(n) => Some(n@),
        None => None,
    };
    // a depth beyond `usize::MAX` takes every component, as `usize::MAX` itself does
    let depth: usize = match module_name {
        Some(name) => {
            let dots = count_dots_in(name);
            if dots < usize::MAX {
                dots + 1
            } else {
                usize::MAX
            }
        },
        None => 1,
    };
    let len = components.len();
    let k = if depth <= len {
        depth
    } else {
        len
    };
    let start = len - k;
    let ghost cv = strings_view(components@);
    let ghost parts = cv.subrange(start as int, len as int);
    let mut out = String::new();
    let mut i = start;
    proof {
        reveal_strlit("/");
    }
    while i < len
        invariant
            len == components@.len(),
            cv == strings_view(components@),
            cv.len() == len,
            start <= i <= len,
            parts == cv.subrange(start as int, len as int),
            out@ == join_slash(parts.take(i - start)),
            "/"@ == seq!['/'],
        decreases len - i,
    {
        let ghost before = out@;
        if i > start {
            out.append("/");
        }
        out.append(components[i].as_str());
        proof {
            let t = parts.take(i - start + 1);
            assert(t.drop_last() =~= parts.take(i - start));
            assert(t.last() == components@[i as int]@);
            if i == start {
                assert(parts.take(0) =~= Seq::<Seq<char>>::empty());
                assert(out@ =~= t[0]);
            } else {
                assert(out@ =~= join_slash(t.drop_last()) + seq!['/'] + t.last());
            }
        }
        i = i + 1;
    }
    assert(parts.take(len - start) =~= parts);
    out
}

/// The module path of a callsite in the module called `module_name` (`None` where `__name__` is
/// `None`) whose code comes from the file `filename`.
pub fn module_of_file(module_name: Option<&str>, filename: &str) -> (r: String)
    ensures
        r@ == spec_module_name_path(
            match module_name {
                Some(n) => Some(n@),
                None => None,
            },
            path_components(filename@),
        ),
{
    let components = split_path(filename);
    module_of_components(module_name, &components)
}

/// Where a module's `__name__` is `None`, or a name without dots, the module path is the file's
/// last path component.
pub proof fn law_module_of_plain_module(module_name: Option<Seq<char>>, components: Seq<Seq<char>>)
    requires
        components.len() > 0,
        module_depth(module_name) == 1,
    ensures
        spec_module_name_path(module_name, components) == components.last(),
{
    assert(components.subrange(components.len() - 1, components.len() as int) =~= seq![components.last()]);
}

/// The module path always ends with the file's last path component, and it never has more
/// components than the path.
pub proof fn law_module_of_ends_with_file(module_name: Option<Seq<char>>, components: Seq<Seq<char>>)
    requires
        components.len() > 0,
    ensures
        ({
            let k = if module_depth(module_name) <= components.len() {
                module_depth(module_name)
            } else {
                components.len()
            };
            let parts = components.subrange(components.len() - k, components.len() as int);
            &&& 1 <= k <= components.len()
            &&& parts.last() == components.last()
            &&& spec_module_name_path(module_name, components) == join_slash(parts)
            &&& (parts.len() > 1 ==> spec_module_name_path(module_name, components) == join_slash(
                parts.drop_last(),
            ) + seq!['/'] + components.last())
        }),
{
}


/// The dots of a name are the characters equal to `.`, counted as vstd's `filter` keeps them.
proof fn lemma_count_dots_filter(s: Seq<char>)
    ensures
        count_dots(s) == s.filter(|c: char| c == '.').len(),
    decreases s.len(),
{
    reveal(Seq::filter);
    if s.len() > 0 {
        lemma_count_dots_filter(s.drop_last());
    }
}

/// A module path has one component per package level of the module, that is one per `.` in its
/// `__name__`, plus one for the file; where the path has fewer components it has them all. A
/// module without a name (`None`) takes the file alone.
pub proof fn law_module_depth_counts_dots(name: Seq<char>, components: Seq<Seq<char>>)
    ensures
        module_depth(Some(name)) == name.filter(|c: char| c == '.').len() + 1,
        module_depth(None) == 1,
        ({
            let want = name.filter(|c: char| c == '.').len() + 1;
            let k = if want <= components.len() {
                want
            } else {
                components.len()
            };
            spec_module_name_path(Some(name), components) == join_slash(
                components.subrange(components.len() - k, components.len() as int),
            )
        }),
{
    lemma_count_dots_filter(name);
}

} // verus!
