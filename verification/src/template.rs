use vstd::prelude::*;
use vstd::string::{StrSliceExecFns, StringExecFns};

use crate::signature::strings_view;

verus! {

/// How an interpolation of a template string converts its value (`!s`, `!r`, `!a`).
#[derive(Clone, Copy, Debug, PartialEq, Eq, Structural)]
pub enum Conversion {
    Str,
    Repr,
    Ascii,
}

impl Conversion {
    /// The conversion that an interpolation's `conversion` attribute names; Python allows only
    /// `s`, `r` and `a`.
    pub fn from_code(code: &str) -> (r: Option<Conversion>)
        ensures
            r == if code@ == seq!['s'] {
                Some(Conversion::Str)
            } else if code@ == seq!['r'] {
                Some(Conversion::Repr)
            } else if code@ == seq!['a'] {
                Some(Conversion::Ascii)
            } else {
                None
            },
    {
        if code.unicode_len() != 1 {
            proof {
                assert(code@ != seq!['s']);
                assert(code@ != seq!['r']);
                assert(code@ != seq!['a']);
            }
            return None;
        }
        let c = code.get_char(0);
        proof {
            assert(code@ =~= seq![c]);
        }
        if c == 's' {
            Some(Conversion::Str)
        } else if c == 'r' {
            Some(Conversion::Repr)
        } else if c == 'a' {
            Some(Conversion::Ascii)
        } else {
            None
        }
    }
}

/// A template's text: its strings with the text of each interpolated value between each two.
pub open spec fn template_text(strings: Seq<Seq<char>>, values: Seq<Seq<char>>) -> Seq<char>
    decreases values.len(),
{
    if values.len() == 0 || strings.len() == 0 {
        if strings.len() == 0 {
            Seq::empty()
        } else {
            strings[0]
        }
    } else {
        template_text(strings.drop_last(), values.drop_last()) + values.last() + strings.last()
    }
}

/// The text of a template with the strings `strings` and interpolations whose values read
/// `values`; a template has one string more than interpolations.
pub fn format_template(strings: &Vec<String>, values: &Vec<String>) -> (r: String)
    requires
        strings@.len() == values@.len() + 1,
    ensures
        r@ == template_text(strings_view(strings@), strings_view(values@)),
{
    let ghost sv = strings_view(strings@);
    let ghost vv = strings_view(values@);
    let mut result = String::from_str(strings[0].as_str());
    let mut i: usize = 0;
    while i < values.len()
        invariant
            strings@.len() == values@.len() + 1,
            sv == strings_view(strings@),
            vv == strings_view(values@),
            i <= values@.len(),
            result@ == template_text(sv.take(i as int + 1), vv.take(i as int)),
        decreases values.len() - i,
    {
        result.append(values[i].as_str());
        result.append(strings[i + 1].as_str());
        proof {
            let s2 = sv.take(i as int + 2);
            let v2 = vv.take(i as int + 1);
            assert(s2.drop_last() =~= sv.take(i as int + 1));
            assert(v2.drop_last() =~= vv.take(i as int));
            assert(s2.last() == strings@[i as int + 1]@);
            assert(v2.last() == values@[i as int]@);
        }
        i = i + 1;
    }
    proof {
        assert(sv.take(i as int + 1) =~= sv);
        assert(vv.take(i as int) =~= vv);
    }
    result
}

/// A template without interpolations reads as its only string, and each interpolation adds its
/// value's text and the following string.
pub proof fn law_template_text(strings: Seq<Seq<char>>, values: Seq<Seq<char>>)
    requires
        strings.len() == values.len() + 1,
    ensures
        values.len() == 0 ==> template_text(strings, values) == strings[0],
        template_text(strings, values).len() == strings_len_sum(strings) + strings_len_sum(values),
    decreases values.len(),
{
    if values.len() > 0 {
        law_template_text(strings.drop_last(), values.drop_last());
        lemma_sum_push(strings.drop_last(), strings.last());
        lemma_sum_push(values.drop_last(), values.last());
        assert(strings.drop_last().push(strings.last()) =~= strings);
        assert(values.drop_last().push(values.last()) =~= values);
    } else {
        assert(strings.drop_last().len() == 0);
        assert(strings.last() == strings[0]);
        assert(strings_len_sum(strings.drop_last()) == 0);
        assert(strings_len_sum(values) == 0);
    }
}

/// The total length of some texts.
pub open spec fn strings_len_sum(s: Seq<Seq<char>>) -> nat
    decreases s.len(),
{
    if s.len() == 0 {
        0
    } else {
        strings_len_sum(s.drop_last()) + s.last().len()
    }
}

proof fn lemma_sum_push(s: Seq<Seq<char>>, x: Seq<char>)
    ensures
        strings_len_sum(s.push(x)) == strings_len_sum(s) + x.len(),
{
    assert(s.push(x).drop_last() =~= s);
}

} // verus!
