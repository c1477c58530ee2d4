use pytracing::formatting::{
    classify, render, unprintable, Rendering, StrFmt, TemplateFmt, TextSource, ValueKind,
};

#[test]
fn classify_in_order() {
    assert_eq!(classify(true, true, true, true, true, true), ValueKind::Unit);
    assert_eq!(classify(false, true, false, false, false, false), ValueKind::Int);
    assert_eq!(classify(false, false, true, false, false, false), ValueKind::Float);
    assert_eq!(classify(false, false, false, true, false, false), ValueKind::Bool);
    assert_eq!(classify(false, false, false, false, true, false), ValueKind::Template);
    assert_eq!(classify(false, false, false, false, false, true), ValueKind::Str);
    assert_eq!(classify(false, false, false, false, false, false), ValueKind::Other);
}

#[test]
fn strings_quoted_by_style() {
    let (quote, never) = (StrFmt::QuoteStrAndTmpl, StrFmt::NeverQuote);
    let (interp, repr) = (TemplateFmt::TemplateInterpolate, TemplateFmt::TemplateRepr);
    assert_eq!(render(ValueKind::Str, quote, interp), Rendering::Quoted(TextSource::Text));
    assert_eq!(render(ValueKind::Str, never, interp), Rendering::Unquoted(TextSource::Text));
    assert_eq!(
        render(ValueKind::Template, quote, interp),
        Rendering::Quoted(TextSource::Interpolated)
    );
    assert_eq!(
        render(ValueKind::Template, never, interp),
        Rendering::Unquoted(TextSource::Interpolated)
    );
    assert_eq!(render(ValueKind::Template, quote, repr), Rendering::Unquoted(TextSource::Repr));
    assert_eq!(render(ValueKind::Other, quote, repr), Rendering::Unquoted(TextSource::Repr));
    assert_eq!(render(ValueKind::Unit, never, repr), Rendering::Unit);
    assert_eq!(render(ValueKind::Int, never, repr), Rendering::Unquoted(TextSource::Repr));
    assert_eq!(render(ValueKind::Int, quote, interp), Rendering::Unquoted(TextSource::Repr));
    assert_eq!(render(ValueKind::Float, never, repr), Rendering::Float);
    assert_eq!(render(ValueKind::Bool, never, repr), Rendering::Bool);
}

#[test]
fn law_repr_never_quoted_on_every_combination() {
    let kinds = [
        ValueKind::Unit,
        ValueKind::Int,
        ValueKind::Float,
        ValueKind::Bool,
        ValueKind::Template,
        ValueKind::Str,
        ValueKind::Other,
    ];
    for k in kinds {
        for s in [StrFmt::QuoteStrAndTmpl, StrFmt::NeverQuote] {
            for t in [TemplateFmt::TemplateInterpolate, TemplateFmt::TemplateRepr] {
                assert_ne!(render(k, s, t), Rendering::Quoted(TextSource::Repr));
                assert!(!matches!(render(k, StrFmt::NeverQuote, t), Rendering::Quoted(_)));
            }
        }
    }
}

#[test]
fn unprintable_texts() {
    assert_eq!(unprintable(Some("Foo")), "<unprintable Foo object>");
    assert_eq!(unprintable(None), "<unprintable object>");
}

#[test]
fn law_ints_logged_as_text_on_every_style() {
    for s in [StrFmt::QuoteStrAndTmpl, StrFmt::NeverQuote] {
        for t in [TemplateFmt::TemplateInterpolate, TemplateFmt::TemplateRepr] {
            let kind = classify(false, true, false, false, false, false);
            assert_eq!(kind, ValueKind::Int);
            assert_eq!(render(kind, s, t), Rendering::Unquoted(TextSource::Repr));
        }
    }
}
