//! Rendering of JSX attributes to HTML attributes.
use vstd::prelude::*;
use crate::ast::{Expression, Literal, ObjProp, PropertyKey, JsxAttrName, JsxAttrOrSpread, JsxAttrValue, JsxExpr};
use crate::error::{JsxrsError, ErrorView};
use crate::eval::{EvalContext, EvalContextView, spec_eval, eval_expr};
use crate::num::{FloatQuery, FloatAnswer, Oracle, is_float_oracle, answers, display_f64, f64_display};
use crate::text::{is_ascii_upper, ascii_lower, chars_of, push_char, push_str, string_from, copy_string, str_eq, char_ascii_lower};
use crate::value::{Value, ValueView, to_text, value_to_string};

verus! {

broadcast use vstd::string::group_string_axioms;

/// An attribute as it is written into HTML: a name and, unless it is a bare boolean
/// attribute, a value.
pub struct RenderedAttr {
    pub name: String,
    pub value: Option<String>,
}

impl View for RenderedAttr {
    type V = (Seq<char>, Option<Seq<char>>);

    open spec fn view(&self) -> (Seq<char>, Option<Seq<char>>) {
        (self.name@, match self.value { Some(v) => Some(v@), None => None })
    }
}

/// The HTML name of a React attribute name.
pub open spec fn html_name_of(n: Seq<char>) -> Seq<char> {
    if n == "className"@ { "class"@ }
    else if n == "htmlFor"@ { "for"@ }
    else if n == "tabIndex"@ { "tabindex"@ }
    else if n == "readOnly"@ { "readonly"@ }
    else if n == "maxLength"@ { "maxlength"@ }
    else if n == "cellSpacing"@ { "cellspacing"@ }
    else if n == "cellPadding"@ { "cellpadding"@ }
    else if n == "rowSpan"@ { "rowspan"@ }
    else if n == "colSpan"@ { "colspan"@ }
    else if n == "encType"@ { "enctype"@ }
    else if n == "crossOrigin"@ { "crossorigin"@ }
    else if n == "autoComplete"@ { "autocomplete"@ }
    else if n == "autoFocus"@ { "autofocus"@ }
    else if n == "autoPlay"@ { "autoplay"@ }
    else { n }
}

/// The HTML name of a React attribute name.
pub fn map_attr_name(n: &str) -> (r: String)
    ensures
        r@ == html_name_of(n@),
{
    if str_eq(n, "className") { string_from("class") }
    else if str_eq(n, "htmlFor") { string_from("for") }
    else if str_eq(n, "tabIndex") { string_from("tabindex") }
    else if str_eq(n, "readOnly") { string_from("readonly") }
    else if str_eq(n, "maxLength") { string_from("maxlength") }
    else if str_eq(n, "cellSpacing") { string_from("cellspacing") }
    else if str_eq(n, "cellPadding") { string_from("cellpadding") }
    else if str_eq(n, "rowSpan") { string_from("rowspan") }
    else if str_eq(n, "colSpan") { string_from("colspan") }
    else if str_eq(n, "encType") { string_from("enctype") }
    else if str_eq(n, "crossOrigin") { string_from("crossorigin") }
    else if str_eq(n, "autoComplete") { string_from("autocomplete") }
    else if str_eq(n, "autoFocus") { string_from("autofocus") }
    else if str_eq(n, "autoPlay") { string_from("autoplay") }
    else { string_from(n) }
}

/// `onX` with an upper-case `X`: an event handler, which has no place in static HTML.
pub open spec fn names_event_handler(n: Seq<char>) -> bool {
    n.len() > 2 && n[0] == 'o' && n[1] == 'n' && is_ascii_upper(n[2])
}

pub fn is_event_handler(n: &str) -> (r: bool)
    ensures
        r == names_event_handler(n@),
{
    let v = chars_of(n);
    v.len() > 2 && v[0] == 'o' && v[1] == 'n' && 'A' <= v[2] && v[2] <= 'Z'
}

/// The kebab-case form of one character at position `i`.
pub open spec fn kebab_char(c: char, i: int) -> Seq<char> {
    if is_ascii_upper(c) && i > 0 { seq!['-', ascii_lower(c)] } else { seq![c] }
}

/// camelCase to kebab-case: each ASCII upper-case letter but the first becomes `-` and its lower case.
pub open spec fn kebab_of(s: Seq<char>) -> Seq<char>
    decreases s.len(),
{
    if s.len() == 0 {
        Seq::empty()
    } else {
        kebab_of(s.drop_last()) + kebab_char(s.last(), s.len() - 1)
    }
}

pub fn camel_to_kebab(s: &str) -> (r: String)
    ensures
        r@ == kebab_of(s@),
{
    let v = chars_of(s);
    let mut out = String::new();
    let mut i: usize = 0;
    while i < v.len()
        invariant
            v@ == s@,
            i <= v.len(),
            out@ == kebab_of(v@.take(i as int)),
        decreases v.len() - i,
    {
        assert(v@.take(i + 1).drop_last() =~= v@.take(i as int));
        let c = v[i];
        if 'A' <= c && c <= 'Z' && i > 0 {
            push_char(&mut out, '-');
            push_char(&mut out, char_ascii_lower(c));
        } else {
            push_char(&mut out, c);
        }
        i = i + 1;
        assert(out@ =~= kebab_of(v@.take(i as int)));
    }
    assert(v@.take(v.len() as int) =~= v@);
    out
}

/// `parts` joined with `sep` between each two.
pub open spec fn join(parts: Seq<Seq<char>>, sep: Seq<char>) -> Seq<char>
    decreases parts.len(),
{
    if parts.len() == 0 {
        Seq::empty()
    } else if parts.len() == 1 {
        parts[0]
    } else {
        join(parts.drop_last(), sep) + sep + parts.last()
    }
}

/// The declaration `key: value` of one property of a style object, where its key is a
/// name or a string and its value a string or a number literal.
pub open spec fn style_part(p: ObjProp, fa: Oracle) -> Option<Seq<char>> {
    match p {
        ObjProp::KeyValue(key, value) => {
            let k = match key {
                PropertyKey::Ident(id) => Some(kebab_of(id@)),
                PropertyKey::Str(s) => Some(kebab_of(s@)),
                PropertyKey::Other => None,
            };
            let v = match *value {
                Expression::Literal(Literal::Str(s)) => Some(s@),
                Expression::Literal(Literal::Num(b)) => Some(display_f64(fa, b)),
                _ => None,
            };
            match (k, v) {
                (Some(k), Some(v)) => Some(k + ": "@ + v),
                _ => None,
            }
        },
        ObjProp::Other => None,
    }
}

/// The declarations of the properties `props[..n]`.
pub open spec fn style_parts(props: Seq<ObjProp>, fa: Oracle) -> Seq<Seq<char>>
    decreases props.len(),
{
    if props.len() == 0 {
        Seq::empty()
    } else {
        let rest = style_parts(props.drop_last(), fa);
        match style_part(props.last(), fa) {
            Some(d) => rest.push(d),
            None => rest,
        }
    }
}

/// A style object as CSS text: its declarations joined by `; `.
pub open spec fn style_css(props: Seq<ObjProp>, fa: Oracle) -> Seq<char> {
    join(style_parts(props, fa), "; "@)
}

fn style_declaration<F: Fn(FloatQuery) -> FloatAnswer>(p: &ObjProp, f: &F) -> (r: Option<String>)
    requires
        is_float_oracle(*f),
    ensures
        match r {
            Some(s) => style_part(*p, answers(*f)) == Some(s@),
            None => style_part(*p, answers(*f)) is None,
        },
{
    match p {
        ObjProp::KeyValue(key, value) => {
            let k = match key {
                PropertyKey::Ident(id) => camel_to_kebab(id.as_str()),
                PropertyKey::Str(s) => camel_to_kebab(s.as_str()),
                PropertyKey::Other => { return None; },
            };
            let v = match &**value {
                Expression::Literal(Literal::Str(s)) => copy_string(s),
                Expression::Literal(Literal::Num(b)) => f64_display(f, *b),
                _ => { return None; },
            };
            let mut out = k;
            push_str(&mut out, ": ");
            push_str(&mut out, v.as_str());
            Some(out)
        },
        ObjProp::Other => None,
    }
}

/// A style object as CSS text.
#[verifier::loop_isolation(false)]
pub fn render_style_object<F: Fn(FloatQuery) -> FloatAnswer>(props: &Vec<ObjProp>, f: &F) -> (r: String)
    requires
        is_float_oracle(*f),
    ensures
        r@ == style_css(props@, answers(*f)),
{
    let ghost fa = answers(*f);
    let mut out = String::new();
    let mut count: usize = 0;
    let mut i: usize = 0;
    while i < props.len()
        invariant
            i <= props.len(),
            count == style_parts(props@.take(i as int), fa).len(),
            out@ == join(style_parts(props@.take(i as int), fa), "; "@),
            count <= i,
        decreases props.len() - i,
    {
        assert(props@.take(i + 1).drop_last() =~= props@.take(i as int));
        let ghost before = style_parts(props@.take(i as int), fa);
        assert(props@.take(i + 1).last() == props@[i as int]);
        match style_declaration(&props[i], f) {
            Some(d) => {
                if count > 0 {
                    push_str(&mut out, "; ");
                }
                push_str(&mut out, d.as_str());
                count = count + 1;
                assert(style_parts(props@.take(i + 1), fa) == before.push(d@));
                assert(before.push(d@).drop_last() =~= before);
                proof {
                    if before.len() == 0 {
                        assert(out@ =~= d@);
                    }
                }
            },
            None => {},
        }
        i = i + 1;
    }
    assert(props@.take(props.len() as int) =~= props@);
    out
}

/// The text of an attribute name: `name` or `ns:name`.
pub open spec fn attr_name_text(n: JsxAttrName) -> Seq<char> {
    match n {
        JsxAttrName::Ident(id) => id@,
        JsxAttrName::Namespaced(ns, name) => ns@ + ":"@ + name@,
    }
}

fn jsx_attr_name_str(n: &JsxAttrName) -> (r: String)
    ensures
        r@ == attr_name_text(*n),
{
    match n {
        JsxAttrName::Ident(id) => copy_string(id),
        JsxAttrName::Namespaced(ns, name) => {
            let mut s = copy_string(ns);
            push_str(&mut s, ":");
            push_str(&mut s, name.as_str());
            s
        },
    }
}

/// The HTML form of one JSX attribute: `None` for spreads, event handlers, empty
/// expressions, element values, a literal `false` and values that are `false`; the
/// name alone for attributes without a value and a literal `true`; a style object as
/// CSS; otherwise the text of the value.
pub open spec fn spec_attr(a: JsxAttrOrSpread, ctx: EvalContextView, fa: Oracle) -> Result<Option<(Seq<char>, Option<Seq<char>>)>, ErrorView> {
    match a {
        JsxAttrOrSpread::Spread => Ok(None),
        JsxAttrOrSpread::Attr(attr) => {
            let raw = attr_name_text(attr.name);
            let html = html_name_of(raw);
            if names_event_handler(raw) {
                Ok(None)
            } else {
                match attr.value {
                    None => Ok(Some((html, None))),
                    Some(JsxAttrValue::Str(s)) => Ok(Some((html, Some(s@)))),
                    Some(JsxAttrValue::ExprContainer(JsxExpr::Empty)) => Ok(None),
                    Some(JsxAttrValue::ExprContainer(JsxExpr::Expression(e))) => match *e {
                        Expression::Object { props, .. } if raw == "style"@ => Ok(Some((html, Some(style_css(props@, fa))))),
                        Expression::Literal(Literal::Bool(b)) => if b { Ok(Some((html, None))) } else { Ok(None) },
                        _ => match spec_eval(*e, ctx, fa) {
                            Ok(ValueView::Bool(false)) => Ok(None),
                            Ok(v) => Ok(Some((html, Some(to_text(fa, v))))),
                            Err(err) => Err(err),
                        },
                    },
                    Some(JsxAttrValue::Other) => Ok(None),
                }
            }
        },
    }
}

pub open spec fn attr_res_view(r: Result<Option<RenderedAttr>, JsxrsError>) -> Result<Option<(Seq<char>, Option<Seq<char>>)>, ErrorView> {
    match r {
        Ok(Some(a)) => Ok(Some(a@)),
        Ok(None) => Ok(None),
        Err(e) => Err(e@),
    }
}

/// Renders one JSX attribute to its HTML form.
pub fn render_jsx_attr<F: Fn(FloatQuery) -> FloatAnswer>(attr: &JsxAttrOrSpread, ctx: &EvalContext, f: &F) -> (r: Result<Option<RenderedAttr>, JsxrsError>)
    requires
        is_float_oracle(*f),
    ensures
        attr_res_view(r) == spec_attr(*attr, ctx@, answers(*f)),
{
    let a = match attr {
        JsxAttrOrSpread::Attr(a) => a,
        JsxAttrOrSpread::Spread => { return Ok(None); },
    };
    let raw_name = jsx_attr_name_str(&a.name);
    if is_event_handler(raw_name.as_str()) {
        return Ok(None);
    }
    let html_name = map_attr_name(raw_name.as_str());
    match &a.value {
        None => Ok(Some(RenderedAttr { name: html_name, value: None })),
        Some(JsxAttrValue::Str(s)) => Ok(Some(RenderedAttr { name: html_name, value: Some(copy_string(s)) })),
        Some(JsxAttrValue::ExprContainer(JsxExpr::Empty)) => Ok(None),
        Some(JsxAttrValue::ExprContainer(JsxExpr::Expression(e))) => {
            if str_eq(raw_name.as_str(), "style") {
                if let Expression::Object { props, .. } = &**e {
                    let css = render_style_object(props, f);
                    return Ok(Some(RenderedAttr { name: html_name, value: Some(css) }));
                }
            }
            if let Expression::Literal(Literal::Bool(b)) = &**e {
                return if *b { Ok(Some(RenderedAttr { name: html_name, value: None })) } else { Ok(None) };
            }
            let v = eval_expr(e, ctx, f)?;
            if let Value::Bool(false) = v {
                return Ok(None);
            }
            let s = value_to_string(&v, f);
            Ok(Some(RenderedAttr { name: html_name, value: Some(s) }))
        },
        Some(JsxAttrValue::Other) => Ok(None),
    }
}

/// A name written in ASCII lower case.
pub open spec fn lower_name(n: Seq<char>) -> Seq<char> {
    n.map_values(|c: char| ascii_lower(c))
}

/// Mapping a React attribute name to its HTML name changes at most the letter case,
/// but for `className` (`class`) and `htmlFor` (`for`): any other name is kept as it
/// is or written in ASCII lower case. A name with no upper-case letter is kept.
pub proof fn html_names_only_lower_the_case(n: Seq<char>)
    ensures
        n != "className"@ && n != "htmlFor"@ ==> html_name_of(n) == n || html_name_of(n) == lower_name(n),
        (forall|i: int| 0 <= i < n.len() ==> !is_ascii_upper(#[trigger] n[i])) ==> html_name_of(n) == n,
        html_name_of("className"@) == "class"@,
        html_name_of("htmlFor"@) == "for"@,
{
    reveal_strlit("className");
    reveal_strlit("htmlFor");
    assert("htmlFor"@.len() != "className"@.len());
    if n == "className"@ || n == "htmlFor"@ {
    } else if n == "tabIndex"@ {
        reveal_strlit("tabIndex");
        reveal_strlit("tabindex");
        assert(lower_name(n) =~= "tabindex"@);
    } else if n == "readOnly"@ {
        reveal_strlit("readOnly");
        reveal_strlit("readonly");
        assert(lower_name(n) =~= "readonly"@);
    } else if n == "maxLength"@ {
        reveal_strlit("maxLength");
        reveal_strlit("maxlength");
        assert(lower_name(n) =~= "maxlength"@);
    } else if n == "cellSpacing"@ {
        reveal_strlit("cellSpacing");
        reveal_strlit("cellspacing");
        assert(lower_name(n) =~= "cellspacing"@);
    } else if n == "cellPadding"@ {
        reveal_strlit("cellPadding");
        reveal_strlit("cellpadding");
        assert(lower_name(n) =~= "cellpadding"@);
    } else if n == "rowSpan"@ {
        reveal_strlit("rowSpan");
        reveal_strlit("rowspan");
        assert(lower_name(n) =~= "rowspan"@);
    } else if n == "colSpan"@ {
        reveal_strlit("colSpan");
        reveal_strlit("colspan");
        assert(lower_name(n) =~= "colspan"@);
    } else if n == "encType"@ {
        reveal_strlit("encType");
        reveal_strlit("enctype");
        assert(lower_name(n) =~= "enctype"@);
    } else if n == "crossOrigin"@ {
        reveal_strlit("crossOrigin");
        reveal_strlit("crossorigin");
        assert(lower_name(n) =~= "crossorigin"@);
    } else if n == "autoComplete"@ {
        reveal_strlit("autoComplete");
        reveal_strlit("autocomplete");
        assert(lower_name(n) =~= "autocomplete"@);
    } else if n == "autoFocus"@ {
        reveal_strlit("autoFocus");
        reveal_strlit("autofocus");
        assert(lower_name(n) =~= "autofocus"@);
    } else if n == "autoPlay"@ {
        reveal_strlit("autoPlay");
        reveal_strlit("autoplay");
        assert(lower_name(n) =~= "autoplay"@);
    }
    if forall|i: int| 0 <= i < n.len() ==> !is_ascii_upper(#[trigger] n[i]) {
        if n == "className"@ {
            reveal_strlit("className");
            assert(is_ascii_upper(n[5]));
        }
        if n == "htmlFor"@ {
            reveal_strlit("htmlFor");
            assert(is_ascii_upper(n[4]));
        }
        if n == "tabIndex"@ {
            reveal_strlit("tabIndex");
            assert(is_ascii_upper(n[3]));
        }
        if n == "readOnly"@ {
            reveal_strlit("readOnly");
            assert(is_ascii_upper(n[4]));
        }
        if n == "maxLength"@ {
            reveal_strlit("maxLength");
            assert(is_ascii_upper(n[3]));
        }
        if n == "cellSpacing"@ {
            reveal_strlit("cellSpacing");
            assert(is_ascii_upper(n[4]));
        }
        if n == "cellPadding"@ {
            reveal_strlit("cellPadding");
            assert(is_ascii_upper(n[4]));
        }
        if n == "rowSpan"@ {
            reveal_strlit("rowSpan");
            assert(is_ascii_upper(n[3]));
        }
        if n == "colSpan"@ {
            reveal_strlit("colSpan");
            assert(is_ascii_upper(n[3]));
        }
        if n == "encType"@ {
            reveal_strlit("encType");
            assert(is_ascii_upper(n[3]));
        }
        if n == "crossOrigin"@ {
            reveal_strlit("crossOrigin");
            assert(is_ascii_upper(n[5]));
        }
        if n == "autoComplete"@ {
            reveal_strlit("autoComplete");
            assert(is_ascii_upper(n[4]));
        }
        if n == "autoFocus"@ {
            reveal_strlit("autoFocus");
            assert(is_ascii_upper(n[4]));
        }
        if n == "autoPlay"@ {
            reveal_strlit("autoPlay");
            assert(is_ascii_upper(n[4]));
        }
    }
}

} // verus!
