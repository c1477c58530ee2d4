use vstd::prelude::*;
use vstd::string::StringExecFns;

verus! {

/// How a logged value is rendered.
#[derive(Clone, Copy, Debug, PartialEq, Eq, Structural)]
pub enum ValueKind {
    /// `None`, as the unit value.
    Unit,
    /// An `int`, of any size: logged as its decimal text, not as a number.
    Int,
    Float,
    Bool,
    /// A template string.
    Template,
    /// A `str`.
    Str,
    /// Anything else, by its `repr()`.
    Other,
}

/// How strings are rendered by a value formatter: quoted where `QuoteStrAndTmpl`, not quoted
/// where `NeverQuote`.
#[derive(Clone, Copy, Debug, PartialEq, Eq, Structural)]
pub enum StrFmt {
    QuoteStrAndTmpl,
    NeverQuote,
}

/// How template strings are rendered by a value formatter: by their interpolated text, or by
/// their `repr()`.
#[derive(Clone, Copy, Debug, PartialEq, Eq, Structural)]
pub enum TemplateFmt {
    TemplateInterpolate,
    TemplateRepr,
}

/// Where the text of a rendered value comes from.
#[derive(Clone, Copy, Debug, PartialEq, Eq, Structural)]
pub enum TextSource {
    /// The template with its interpolations filled in.
    Interpolated,
    /// The object's `str()` (the string itself).
    Text,
    /// The object's `repr()`.
    Repr,
}

/// A value as it is logged.
#[derive(Clone, Copy, Debug, PartialEq, Eq, Structural)]
pub enum Rendering {
    Unit,
    Float,
    Bool,
    Quoted(TextSource),
    Unquoted(TextSource),
}

/// The kind of a value, asked in this order: `None`, an exact `int`, an exact `float`, an exact
/// `bool`, a template string, an exact `str`.
pub open spec fn spec_classify(
    is_none: bool,
    is_int: bool,
    is_float: bool,
    is_bool: bool,
    is_template: bool,
    is_str: bool,
) -> ValueKind {
    if is_none {
        ValueKind::Unit
    } else if is_int {
        ValueKind::Int
    } else if is_float {
        ValueKind::Float
    } else if is_bool {
        ValueKind::Bool
    } else if is_template {
        ValueKind::Template
    } else if is_str {
        ValueKind::Str
    } else {
        ValueKind::Other
    }
}

/// The kind of a logged value (see `spec_classify`).
pub fn classify(
    is_none: bool,
    is_int: bool,
    is_float: bool,
    is_bool: bool,
    is_template: bool,
    is_str: bool,
) -> (r: ValueKind)
    ensures
        r == spec_classify(is_none, is_int, is_float, is_bool, is_template, is_str),
{
    if is_none {
        ValueKind::Unit
    } else if is_int {
        ValueKind::Int
    } else if is_float {
        ValueKind::Float
    } else if is_bool {
        ValueKind::Bool
    } else if is_template {
        ValueKind::Template
    } else if is_str {
        ValueKind::Str
    } else {
        ValueKind::Other
    }
}

/// How a value of kind `kind` is rendered by a formatter with the given styles.
pub open spec fn spec_render(kind: ValueKind, s: StrFmt, t: TemplateFmt) -> Rendering {
    let text = |src: TextSource|
        match s {
            StrFmt::QuoteStrAndTmpl => Rendering::Quoted(src),
            StrFmt::NeverQuote => Rendering::Unquoted(src),
        };
    match kind {
        ValueKind::Unit => Rendering::Unit,
        ValueKind::Int => Rendering::Unquoted(TextSource::Repr),
        ValueKind::Float => Rendering::Float,
        ValueKind::Bool => Rendering::Bool,
        ValueKind::Template => match t {
            TemplateFmt::TemplateInterpolate => text(TextSource::Interpolated),
            TemplateFmt::TemplateRepr => Rendering::Unquoted(TextSource::Repr),
        },
        ValueKind::Str => text(TextSource::Text),
        ValueKind::Other => Rendering::Unquoted(TextSource::Repr),
    }
}

/// Decides how a value is rendered: strings, and interpolated templates, are quoted or not by
/// the string style; integers (as their decimal text), templates by their `repr()`, and other
/// objects, are never quoted.
pub fn render(kind: ValueKind, s: StrFmt, t: TemplateFmt) -> (r: Rendering)
    ensures
        r == spec_render(kind, s, t),
{
    let quote = match s {
        StrFmt::QuoteStrAndTmpl => true,
        StrFmt::NeverQuote => false,
    };
    match kind {
        ValueKind::Unit => Rendering::Unit,
        ValueKind::Int => Rendering::Unquoted(TextSource::Repr),
        ValueKind::Float => Rendering::Float,
        ValueKind::Bool => Rendering::Bool,
        ValueKind::Template => match t {
            TemplateFmt::TemplateInterpolate => if quote {
                Rendering::Quoted(TextSource::Interpolated)
            } else {
                Rendering::Unquoted(TextSource::Interpolated)
            },
            TemplateFmt::TemplateRepr => Rendering::Unquoted(TextSource::Repr),
        },
        ValueKind::Str => if quote {
            Rendering::Quoted(TextSource::Text)
        } else {
            Rendering::Unquoted(TextSource::Text)
        },
        ValueKind::Other => Rendering::Unquoted(TextSource::Repr),
    }
}

/// Integers are logged as strings, their decimal text (`repr()`, which for an `int` is its
/// `str()`), whatever their size and whatever the styles.
pub proof fn law_ints_logged_as_text(s: StrFmt, t: TemplateFmt)
    ensures
        spec_render(ValueKind::Int, s, t) == Rendering::Unquoted(TextSource::Repr),
        spec_render(spec_classify(false, true, false, false, false, false), s, t) == Rendering::Unquoted(
            TextSource::Repr,
        ),
{
}

/// Values rendered by `repr()` are never quoted, whatever the styles.
pub proof fn law_repr_never_quoted(kind: ValueKind, s: StrFmt, t: TemplateFmt)
    ensures
        !(spec_render(kind, s, t) matches Rendering::Quoted(TextSource::Repr)),
        !(spec_render(kind, StrFmt::NeverQuote, t) is Quoted),
{
}

/// The text that stands for an object whose `repr()` failed: it names the object's type where
/// the type's name can be had.
pub fn unprintable(class_name: Option<&str>) -> (r: String)
    ensures
        r@ == match class_name {
            Some(name) => "<unprintable "@ + name@ + " object>"@,
            None => "<unprintable object>"@,
        },
{
    match class_name {
        Some(name) => {
            let mut text = String::from_str("<unprintable ");
            text.append(name);
            text.append(" object>");
            text
        },
        None => String::from_str("<unprintable object>"),
    }
}

} // verus!
